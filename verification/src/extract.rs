//! Identity extraction from the header list of a request-header frame.
//!
//! A key/value mapping is read with last-write-wins semantics over the
//! ordered header list. The client ip is the first comma-separated, trimmed
//! segment of the "x-forwarded-for" header, or "unknown" when that header is
//! absent or its value empty; the path is the ":path" header, or "/" when
//! absent.

use vstd::prelude::*;
use crate::frame::HeaderEntry;

verus! {

/// The whitespace characters stripped from the ends of an ip segment.
pub open spec fn spec_is_space(c: char) -> bool {
    c == ' ' || c == '\t' || c == '\n' || c == '\r'
}

/// Last-write-wins lookup over an ordered header list: the value of the
/// latest entry whose key equals `key`, if any.
pub open spec fn spec_header_value(hs: Seq<HeaderEntry>, key: Seq<char>) -> Option<Seq<char>>
    decreases hs.len(),
{
    if hs.len() == 0 {
        None
    } else if hs.last().key@ == key {
        Some(hs.last().value@)
    } else {
        spec_header_value(hs.drop_last(), key)
    }
}

/// The prefix of `s` before its first comma; all of `s` when it has none.
pub open spec fn spec_before_comma(s: Seq<char>) -> Seq<char>
    decreases s.len(),
{
    if s.len() == 0 {
        Seq::empty()
    } else if s[0] == ',' {
        Seq::empty()
    } else {
        seq![s[0]] + spec_before_comma(s.drop_first())
    }
}

pub open spec fn spec_trim_start(s: Seq<char>) -> Seq<char>
    decreases s.len(),
{
    if s.len() > 0 && spec_is_space(s[0]) {
        spec_trim_start(s.drop_first())
    } else {
        s
    }
}

pub open spec fn spec_trim_end(s: Seq<char>) -> Seq<char>
    decreases s.len(),
{
    if s.len() > 0 && spec_is_space(s.last()) {
        spec_trim_end(s.drop_last())
    } else {
        s
    }
}

/// `s` with leading and trailing whitespace removed.
pub open spec fn spec_trim(s: Seq<char>) -> Seq<char> {
    spec_trim_end(spec_trim_start(s))
}

/// The client ip drawn from a header list: first comma-separated, trimmed
/// segment of "x-forwarded-for", or "unknown" when absent or empty.
pub open spec fn spec_extract_ip(hs: Seq<HeaderEntry>) -> Seq<char> {
    match spec_header_value(hs, "x-forwarded-for"@) {
        Some(v) => if v.len() == 0 {
            "unknown"@
        } else {
            spec_trim(spec_before_comma(v))
        },
        None => "unknown"@,
    }
}

/// The request path drawn from a header list: ":path", or "/" when absent.
pub open spec fn spec_extract_path(hs: Seq<HeaderEntry>) -> Seq<char> {
    match spec_header_value(hs, ":path"@) {
        Some(v) => v,
        None => "/"@,
    }
}

fn is_space(c: char) -> (r: bool)
    ensures
        r == spec_is_space(c),
{
    c == ' ' || c == '\t' || c == '\n' || c == '\r'
}

/// Character-by-character string equality.
pub fn str_eq(a: &str, b: &str) -> (r: bool)
    ensures
        r == (a@ == b@),
{
    let la = a.unicode_len();
    let lb = b.unicode_len();
    if la != lb {
        proof {
            assert(a@.len() != b@.len());
        }
        return false;
    }
    let mut i: usize = 0;
    while i < la
        invariant
            i <= la,
            la == a@.len(),
            la == b@.len(),
            forall|k: int| 0 <= k < i ==> a@[k] == b@[k],
        decreases la - i,
    {
        if a.get_char(i) != b.get_char(i) {
            return false;
        }
        i = i + 1;
    }
    proof {
        assert(a@ =~= b@);
    }
    true
}

/// Last-write-wins lookup in an ordered header list.
pub fn header_value(headers: &Vec<HeaderEntry>, key: &str) -> (r: Option<String>)
    ensures
        r.deep_view() == spec_header_value(headers@, key@),
{
    let mut i: usize = headers.len();
    proof {
        assert(headers@.take(i as int) =~= headers@);
    }
    while i > 0
        invariant
            i <= headers@.len(),
            spec_header_value(headers@, key@) == spec_header_value(
                headers@.take(i as int),
                key@,
            ),
        decreases i,
    {
        i = i - 1;
        proof {
            assert(headers@.take(i as int + 1).drop_last() =~= headers@.take(i as int));
            assert(headers@.take(i as int + 1).last() == headers@[i as int]);
        }
        if str_eq(headers[i].key.as_str(), key) {
            return Some(headers[i].value.clone());
        }
    }
    proof {
        assert(headers@.take(0) =~= Seq::<HeaderEntry>::empty());
    }
    None
}

proof fn lemma_before_comma_prefix(s: Seq<char>, i: int)
    requires
        0 <= i <= s.len(),
        forall|k: int| 0 <= k < i ==> s[k] != ',',
        i == s.len() || s[i] == ',',
    ensures
        spec_before_comma(s) == s.take(i),
    decreases i,
{
    if i == 0 {
        assert(spec_before_comma(s) =~= s.take(0));
    } else {
        assert(s[0] != ',');
        assert(forall|k: int| 0 <= k < i - 1 ==> s.drop_first()[k] == s[k + 1]);
        lemma_before_comma_prefix(s.drop_first(), i - 1);
        assert(seq![s[0]] + s.drop_first().take(i - 1) =~= s.take(i));
    }
}

fn before_comma<'a>(s: &'a str) -> (r: &'a str)
    ensures
        r@ == spec_before_comma(s@),
{
    let len = s.unicode_len();
    let mut i: usize = 0;
    while i < len
        invariant
            i <= len,
            len == s@.len(),
            forall|k: int| 0 <= k < i ==> s@[k] != ',',
        decreases len - i,
    {
        if s.get_char(i) == ',' {
            let r = s.substring_char(0, i);
            proof {
                lemma_before_comma_prefix(s@, i as int);
                assert(s@.take(i as int) =~= s@.subrange(0, i as int));
            }
            return r;
        }
        i = i + 1;
    }
    proof {
        lemma_before_comma_prefix(s@, len as int);
        assert(s@.take(len as int) =~= s@);
    }
    s
}

proof fn lemma_trim_start_skip(s: Seq<char>, lo: int)
    requires
        0 <= lo <= s.len(),
        forall|k: int| 0 <= k < lo ==> spec_is_space(s[k]),
        lo == s.len() || !spec_is_space(s[lo]),
    ensures
        spec_trim_start(s) == s.skip(lo),
    decreases lo,
{
    if lo == 0 {
        assert(s.skip(0) =~= s);
    } else {
        assert(spec_is_space(s[0]));
        assert(forall|k: int| 0 <= k < lo - 1 ==> s.drop_first()[k] == s[k + 1]);
        lemma_trim_start_skip(s.drop_first(), lo - 1);
        assert(s.drop_first().skip(lo - 1) =~= s.skip(lo));
    }
}

proof fn lemma_trim_end_take(s: Seq<char>, hi: int)
    requires
        0 <= hi <= s.len(),
        forall|k: int| hi <= k < s.len() ==> spec_is_space(s[k]),
        hi == 0 || !spec_is_space(s[hi - 1]),
    ensures
        spec_trim_end(s) == s.take(hi),
    decreases s.len(),
{
    if hi == s.len() {
        assert(s.take(hi) =~= s);
    } else {
        assert(spec_is_space(s.last()));
        assert(forall|k: int| 0 <= k < s.len() - 1 ==> s.drop_last()[k] == s[k]);
        lemma_trim_end_take(s.drop_last(), hi);
        assert(s.drop_last().take(hi) =~= s.take(hi));
    }
}

/// `s` with leading and trailing whitespace removed, as a fresh `String`.
fn trim_str(s: &str) -> (r: String)
    ensures
        r@ == spec_trim(s@),
{
    let len = s.unicode_len();
    let mut lo: usize = 0;
    loop
        invariant
            lo <= len,
            len == s@.len(),
            forall|k: int| 0 <= k < lo ==> spec_is_space(s@[k]),
        ensures
            lo <= len,
            len == s@.len(),
            forall|k: int| 0 <= k < lo ==> spec_is_space(s@[k]),
            lo == len || !spec_is_space(s@[lo as int]),
        decreases len - lo,
    {
        if lo == len {
            break;
        }
        if !is_space(s.get_char(lo)) {
            break;
        }
        lo = lo + 1;
    }
    let mut hi: usize = len;
    loop
        invariant
            lo <= hi <= len,
            len == s@.len(),
            forall|k: int| hi <= k < len ==> spec_is_space(s@[k]),
            lo == len || !spec_is_space(s@[lo as int]),
        ensures
            lo <= hi <= len,
            len == s@.len(),
            forall|k: int| hi <= k < len ==> spec_is_space(s@[k]),
            hi == lo || !spec_is_space(s@[hi - 1]),
        decreases hi,
    {
        if hi == lo {
            break;
        }
        if !is_space(s.get_char(hi - 1)) {
            break;
        }
        hi = hi - 1;
    }
    let seg = s.substring_char(lo, hi);
    proof {
        lemma_trim_start_skip(s@, lo as int);
        let t = s@.skip(lo as int);
        assert(forall|k: int| hi - lo <= k < t.len() ==> t[k] == s@[k + lo]);
        if hi > lo {
            assert(!spec_is_space(s@[lo as int]));
            assert(t[hi - lo - 1] == s@[hi - 1]);
        }
        lemma_trim_end_take(t, hi - lo);
        assert(t.take(hi - lo) =~= s@.subrange(lo as int, hi as int));
    }
    seg.to_owned()
}

/// The client ip of a header list: the first comma-separated, trimmed
/// segment of "x-forwarded-for", or "unknown" when absent or empty.
pub fn extract_ip(headers: &Vec<HeaderEntry>) -> (r: String)
    ensures
        r@ == spec_extract_ip(headers@),
{
    match header_value(headers, "x-forwarded-for") {
        Some(v) => {
            if v.as_str().unicode_len() == 0 {
                String::from_str("unknown")
            } else {
                trim_str(before_comma(v.as_str()))
            }
        },
        None => String::from_str("unknown"),
    }
}

/// The request path of a header list: ":path", or "/" when absent.
pub fn extract_path(headers: &Vec<HeaderEntry>) -> (r: String)
    ensures
        r@ == spec_extract_path(headers@),
{
    match header_value(headers, ":path") {
        Some(v) => v,
        None => String::from_str("/"),
    }
}

} // verus!

