//! The abuse detector over an append-only store of request events.
//!
//! `MemStorage` is the verified storage engine: an in-memory append log of
//! request events plus a free-form audit trail. `is_abusive` counts the
//! events that match an identity exactly (with null-aware key equality) and
//! whose timestamp lies within the sliding window ending now, and classifies
//! the traffic as abusive when the count is strictly greater than the
//! threshold. An `available` switch models an unreachable store: every
//! operation then fails with `StorageError::Unavailable` and changes nothing,
//! which callers must treat as "not abusive" (fail open).

use vstd::prelude::*;

verus! {

/// Process-wide default abuse threshold.
pub const DEFAULT_THRESHOLD: usize = 30;

/// Process-wide default sliding-window length in seconds.
pub const DEFAULT_WINDOW_SECS: u64 = 60;

/// A persistence or query failure. Always non-fatal at the call site:
/// callers swallow it and never surface it to the proxy path.
#[derive(Debug, Clone, Copy, PartialEq, Eq, Structural)]
pub enum StorageError {
    Unavailable,
}

/// One appended request event.
#[derive(Debug, Clone)]
pub struct RequestEvent {
    pub ip: String,
    pub path: String,
    pub key: Option<String>,
    pub ts: i64,
}

/// The mathematical value of a request event.
pub ghost struct EventModel {
    pub ip: Seq<char>,
    pub path: Seq<char>,
    pub key: Option<Seq<char>>,
    pub ts: int,
}

impl DeepView for RequestEvent {
    type V = EventModel;

    open spec fn deep_view(&self) -> EventModel {
        EventModel {
            ip: self.ip@,
            path: self.path@,
            key: self.key.deep_view(),
            ts: self.ts as int,
        }
    }
}

/// The mathematical state of the storage engine.
pub ghost struct StorageModel {
    pub requests: Seq<EventModel>,
    pub events: Seq<Seq<char>>,
    pub threshold: int,
    pub window: int,
    pub available: bool,
}

/// Exact identity match: ip and path equal, and the optional key equal
/// null-aware (absent matches only absent).
pub open spec fn event_matches(
    e: EventModel,
    ip: Seq<char>,
    path: Seq<char>,
    key: Option<Seq<char>>,
) -> bool {
    e.ip == ip && e.path == path && e.key == key
}

/// How many events match the identity and carry a timestamp at or after
/// `cutoff` (the start of the sliding window).
pub open spec fn count_in_window(
    events: Seq<EventModel>,
    ip: Seq<char>,
    path: Seq<char>,
    key: Option<Seq<char>>,
    cutoff: int,
) -> nat
    decreases events.len(),
{
    if events.len() == 0 {
        0
    } else {
        count_in_window(events.drop_last(), ip, path, key, cutoff) + (
        if event_matches(events.last(), ip, path, key) && events.last().ts >= cutoff {
            1nat
        } else {
            0nat
        })
    }
}

/// The verdict of a reachable store: strictly more matching in-window
/// events than the threshold.
pub open spec fn spec_abusive(
    s: StorageModel,
    ip: Seq<char>,
    path: Seq<char>,
    key: Option<Seq<char>>,
    now: int,
) -> bool {
    count_in_window(s.requests, ip, path, key, now - s.window) > s.threshold
}

/// What `is_abusive` returns: the verdict when the store is reachable,
/// the failure otherwise.
pub open spec fn spec_is_abusive_result(
    s: StorageModel,
    ip: Seq<char>,
    path: Seq<char>,
    key: Option<Seq<char>>,
    now: int,
) -> Result<bool, StorageError> {
    if s.available {
        Ok(spec_abusive(s, ip, path, key, now))
    } else {
        Err(StorageError::Unavailable)
    }
}

/// Law: with no intervening `record_request`, two consecutive `is_abusive`
/// reads over the same store state, identity and clock return identical
/// results. `is_abusive` takes the store immutably, so the first read
/// cannot have changed the state the second one sees.
pub proof fn lemma_is_abusive_idempotent(
    s: StorageModel,
    ip: Seq<char>,
    path: Seq<char>,
    key: Option<Seq<char>>,
    now: int,
    r1: Result<bool, StorageError>,
    r2: Result<bool, StorageError>,
)
    requires
        r1 == spec_is_abusive_result(s, ip, path, key, now),
        r2 == spec_is_abusive_result(s, ip, path, key, now),
    ensures
        r1 == r2,
{
}

/// Law: an event older than the window — its timestamp strictly before
/// `now - window` — is excluded from the current count: appending it
/// changes neither the in-window count nor the verdict.
pub proof fn lemma_stale_event_excluded(
    s: StorageModel,
    e: EventModel,
    ip: Seq<char>,
    path: Seq<char>,
    key: Option<Seq<char>>,
    now: int,
)
    requires
        e.ts < now - s.window,
    ensures
        count_in_window(s.requests.push(e), ip, path, key, now - s.window) == count_in_window(
            s.requests,
            ip,
            path,
            key,
            now - s.window,
        ),
        spec_abusive(StorageModel { requests: s.requests.push(e), ..s }, ip, path, key, now)
            == spec_abusive(s, ip, path, key, now),
{
    assert(s.requests.push(e).drop_last() =~= s.requests);
    assert(s.requests.push(e).last() == e);
}

/// The injected storage capability: an interface over the three operations
/// the inspector needs, so that the engine is passed in explicitly and
/// never reached as ambient global state.
pub trait Storage {
    fn save_event(&mut self, detail: String) -> Result<(), StorageError>;

    fn record_request(
        &mut self,
        ip: &str,
        path: &str,
        key: Option<&str>,
        now: i64,
    ) -> Result<(), StorageError>;

    fn is_abusive(
        &self,
        ip: &str,
        path: &str,
        key: Option<&str>,
        now: i64,
    ) -> Result<bool, StorageError>;
}

/// The verified in-memory storage engine.
pub struct MemStorage {
    pub requests: Vec<RequestEvent>,
    pub events: Vec<String>,
    pub threshold: usize,
    pub window_secs: u64,
    pub available: bool,
}

impl View for MemStorage {
    type V = StorageModel;

    open spec fn view(&self) -> StorageModel {
        StorageModel {
            requests: self.requests.deep_view(),
            events: self.events.deep_view(),
            threshold: self.threshold as int,
            window: self.window_secs as int,
            available: self.available,
        }
    }
}

fn request_event_matches(e: &RequestEvent, ip: &str, path: &str, key: Option<&str>) -> (r: bool)
    ensures
        r == event_matches(e.deep_view(), ip@, path@, key.deep_view()),
{
    if !crate::extract::str_eq(e.ip.as_str(), ip) {
        return false;
    }
    if !crate::extract::str_eq(e.path.as_str(), path) {
        return false;
    }
    match (&e.key, key) {
        (Some(a), Some(b)) => crate::extract::str_eq(a.as_str(), b),
        (None, None) => true,
        _ => false,
    }
}

impl MemStorage {
    /// A fresh, empty, reachable store with the given configuration.
    pub fn new(threshold: usize, window_secs: u64) -> (s: MemStorage)
        ensures
            s@.requests == Seq::<EventModel>::empty(),
            s@.events == Seq::<Seq<char>>::empty(),
            s@.threshold == threshold as int,
            s@.window == window_secs as int,
            s@.available,
    {
        let s = MemStorage {
            requests: Vec::new(),
            events: Vec::new(),
            threshold,
            window_secs,
            available: true,
        };
        proof {
            assert(s.requests.deep_view() =~= Seq::<EventModel>::empty());
            assert(s.events.deep_view() =~= Seq::<Seq<char>>::empty());
        }
        s
    }

    /// Fault switch: models the store becoming unreachable or reachable.
    pub fn set_available(&mut self, available: bool)
        ensures
            final(self)@ == (StorageModel { available, ..old(self)@ }),
    {
        self.available = available;
    }

    /// Appends one request event at time `now`; fails without any change
    /// when the store is unreachable.
    pub fn record_request(
        &mut self,
        ip: &str,
        path: &str,
        key: Option<&str>,
        now: i64,
    ) -> (r: Result<(), StorageError>)
        ensures
            old(self)@.available ==> r is Ok && final(self)@ == (StorageModel {
                requests: old(self)@.requests.push(
                    EventModel { ip: ip@, path: path@, key: key.deep_view(), ts: now as int },
                ),
                ..old(self)@
            }),
            !old(self)@.available ==> r == Err::<(), StorageError>(StorageError::Unavailable)
                && final(self)@ == old(self)@,
    {
        if !self.available {
            return Err(StorageError::Unavailable);
        }
        let owned_key = match key {
            Some(k) => Some(k.to_owned()),
            None => None,
        };
        let e = RequestEvent { ip: ip.to_owned(), path: path.to_owned(), key: owned_key, ts: now };
        self.requests.push(e);
        proof {
            assert(self.requests.deep_view() =~= old(self).requests.deep_view().push(
                EventModel { ip: ip@, path: path@, key: key.deep_view(), ts: now as int },
            ));
        }
        Ok(())
    }

    /// Appends one free-form audit event; fails without any change when the
    /// store is unreachable.
    pub fn save_event(&mut self, detail: String) -> (r: Result<(), StorageError>)
        ensures
            old(self)@.available ==> r is Ok && final(self)@ == (StorageModel {
                events: old(self)@.events.push(detail@),
                ..old(self)@
            }),
            !old(self)@.available ==> r == Err::<(), StorageError>(StorageError::Unavailable)
                && final(self)@ == old(self)@,
    {
        if !self.available {
            return Err(StorageError::Unavailable);
        }
        self.events.push(detail);
        proof {
            assert(self.events.deep_view() =~= old(self).events.deep_view().push(detail@));
        }
        Ok(())
    }

    /// The sliding-window classification: counts the events matching the
    /// identity with timestamp in the window of `window_secs` seconds ending
    /// at `now`, and reports abuse exactly when that count is strictly
    /// greater than the threshold. An unreachable store reports its failure
    /// instead, never a verdict.
    pub fn is_abusive(&self, ip: &str, path: &str, key: Option<&str>, now: i64) -> (r: Result<
        bool,
        StorageError,
    >)
        ensures
            r == spec_is_abusive_result(self@, ip@, path@, key.deep_view(), now as int),
    {
        if !self.available {
            return Err(StorageError::Unavailable);
        }
        let ghost cutoff: int = now as int - self.window_secs as int;
        let mut count: usize = 0;
        let mut i: usize = 0;
        let n = self.requests.len();
        proof {
            assert(self.requests.deep_view().take(0) =~= Seq::<EventModel>::empty());
        }
        while i < n
            invariant
                i <= n,
                n == self.requests@.len(),
                n == self.requests.deep_view().len(),
                count <= i,
                cutoff == now as int - self@.window,
                count == count_in_window(
                    self.requests.deep_view().take(i as int),
                    ip@,
                    path@,
                    key.deep_view(),
                    cutoff,
                ),
            decreases n - i,
        {
            let e = &self.requests[i];
            let matches_identity = request_event_matches(e, ip, path, key);
            let in_window = (e.ts as i128) + (self.window_secs as i128) >= (now as i128);
            proof {
                let dv = self.requests.deep_view();
                assert(dv.take(i as int + 1).drop_last() =~= dv.take(i as int));
                assert(dv.take(i as int + 1).last() == dv[i as int]);
                assert(dv[i as int] == self.requests@[i as int].deep_view());
                assert(in_window == (dv[i as int].ts >= cutoff));
            }
            if matches_identity && in_window {
                count = count + 1;
            }
            i = i + 1;
        }
        proof {
            assert(self.requests.deep_view().take(n as int) =~= self.requests.deep_view());
        }
        Ok(count > self.threshold)
    }
}

impl Storage for MemStorage {
    fn save_event(&mut self, detail: String) -> Result<(), StorageError> {
        MemStorage::save_event(self, detail)
    }

    fn record_request(
        &mut self,
        ip: &str,
        path: &str,
        key: Option<&str>,
        now: i64,
    ) -> Result<(), StorageError> {
        MemStorage::record_request(self, ip, path, key, now)
    }

    fn is_abusive(
        &self,
        ip: &str,
        path: &str,
        key: Option<&str>,
        now: i64,
    ) -> Result<bool, StorageError> {
        MemStorage::is_abusive(self, ip, path, key, now)
    }
}

} // verus!
