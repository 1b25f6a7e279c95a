//! String computations the client performs on URLs, headers and paths.
//!
//! Paths are plain `/`-separated strings here; turning them into platform
//! paths is the caller's concern.

use vstd::prelude::*;
use vstd::string::*;

verus! {

/// `p` is a prefix of `s`.
pub open spec fn spec_starts_with(s: Seq<char>, p: Seq<char>) -> bool {
    p.len() <= s.len() && s.subrange(0, p.len() as int) == p
}

/// Length of `s` once every trailing `c` is removed.
pub open spec fn spec_trim_end_len(s: Seq<char>, c: char) -> int
    decreases s.len(),
{
    if s.len() > 0 && s[s.len() - 1] == c {
        spec_trim_end_len(s.subrange(0, s.len() - 1), c)
    } else {
        s.len() as int
    }
}

/// `s` with every trailing `c` removed.
pub open spec fn spec_trim_end(s: Seq<char>, c: char) -> Seq<char> {
    s.subrange(0, spec_trim_end_len(s, c))
}

/// A cut position is the trim length exactly when everything at or after it
/// is `c` and the character just before it (if any) is not.
proof fn lemma_trim_end_len_unique(s: Seq<char>, c: char, end: int)
    requires
        0 <= end <= s.len(),
        forall|j: int| end <= j < s.len() ==> s[j] == c,
        end > 0 ==> s[end - 1] != c,
    ensures
        spec_trim_end_len(s, c) == end,
    decreases s.len(),
{
    if s.len() > end {
        let shorter = s.subrange(0, s.len() - 1);
        assert forall|j: int| end <= j < shorter.len() implies shorter[j] == c by {
            assert(shorter[j] == s[j]);
        }
        if end > 0 {
            assert(shorter[end - 1] == s[end - 1]);
        }
        lemma_trim_end_len_unique(shorter, c, end);
    } else {
        if end > 0 {
            assert(s[end - 1] != c);
        }
    }
}

/// Whether `s` begins with `p`.
pub fn str_starts_with(s: &str, p: &str) -> (b: bool)
    ensures
        b == spec_starts_with(s@, p@),
{
    let n = p.unicode_len();
    if n > s.unicode_len() {
        return false;
    }
    let mut i: usize = 0;
    while i < n
        invariant
            0 <= i <= n,
            n == p@.len(),
            n <= s@.len(),
            forall|j: int| 0 <= j < i ==> s@[j] == p@[j],
        decreases n - i,
    {
        if s.get_char(i) != p.get_char(i) {
            assert(!spec_starts_with(s@, p@)) by {
                assert(s@.subrange(0, p@.len() as int)[i as int] != p@[i as int]);
            }
            return false;
        }
        i = i + 1;
    }
    assert(s@.subrange(0, p@.len() as int) =~= p@);
    true
}

/// `s` with every trailing `c` removed.
pub fn trim_end_char(s: &str, c: char) -> (r: &str)
    ensures
        r@ == spec_trim_end(s@, c),
{
    let mut end = s.unicode_len();
    while end > 0 && s.get_char(end - 1) == c
        invariant
            0 <= end <= s@.len(),
            forall|j: int| end <= j < s@.len() ==> s@[j] == c,
        decreases end,
    {
        end = end - 1;
    }
    proof {
        lemma_trim_end_len_unique(s@, c, end as int);
    }
    s.substring_char(0, end)
}

/// `rfind_char`'s contract pins down `Seq::index_of_last`.
proof fn lemma_rfind_is_index_of_last(s: Seq<char>, c: char, r: Option<usize>)
    requires
        match r {
            Some(i) => {
                &&& i < s.len()
                &&& s[i as int] == c
                &&& forall|j: int| i < j < s.len() ==> s[j] != c
            },
            None => forall|j: int| 0 <= j < s.len() ==> s[j] != c,
        },
    ensures
        s.index_of_last(c) == match r {
            Some(i) => Some(i as int),
            None => None::<int>,
        },
{
    s.index_of_last_ensures(c);
    match r {
        Some(i) => {
            assert(s.contains(c));
            let k = s.index_of_last(c)->0;
            assert(s[k] == c);
            if k < i as int {
                assert(s[i as int] != c);
            }
            if k > i as int {
                assert(s[k] != c);
            }
        },
        None => {
            if s.index_of_last(c) is Some {
                let k = s.index_of_last(c)->0;
                assert(s[k] != c);
            }
        },
    }
}

/// The part of `s` after its last `.`, or all of `s` when it has none.
/// This is how a file extension is read off a name or a header value.
pub open spec fn spec_after_last_dot(s: Seq<char>) -> Seq<char> {
    match s.index_of_last('.') {
        Some(i) => s.subrange(i + 1, s.len() as int),
        None => s,
    }
}

/// The part of `s` after its last `.`, or all of `s` when it has none.
pub fn after_last_dot(s: &str) -> (r: &str)
    ensures
        r@ == spec_after_last_dot(s@),
{
    let n = s.unicode_len();
    let found = rfind_char(s, '.');
    proof {
        lemma_rfind_is_index_of_last(s@, '.', found);
    }
    match found {
        Some(i) => s.substring_char(i + 1, n),
        None => s,
    }
}

/// Where the extension of path `p` begins to be cut: the position of the
/// last `.` when it falls inside the final `/`-separated component, and the
/// end of `p` otherwise.
pub open spec fn spec_ext_cut(p: Seq<char>) -> int {
    match p.index_of_last('.') {
        Some(d) => match p.index_of_last('/') {
            Some(s) => if d > s {
                d
            } else {
                p.len() as int
            },
            None => d,
        },
        None => p.len() as int,
    }
}

/// Path `p` with its extension replaced by `e`: the stem of the final
/// component, then `.`, then `e`. A component without a `.` just gains
/// `.e` at the end.
pub open spec fn spec_with_extension(p: Seq<char>, e: Seq<char>) -> Seq<char> {
    p.subrange(0, spec_ext_cut(p)) + seq!['.'] + e
}

/// Replaces the extension of `p` (in the sense of `spec_with_extension`)
/// with `e`.
pub fn with_extension(p: &str, e: &str) -> (r: String)
    ensures
        r@ == spec_with_extension(p@, e@),
{
    let dot = rfind_char(p, '.');
    let slash = rfind_char(p, '/');
    proof {
        lemma_rfind_is_index_of_last(p@, '.', dot);
        lemma_rfind_is_index_of_last(p@, '/', slash);
    }
    let n = p.unicode_len();
    let cut: usize = match (dot, slash) {
        (Some(d), Some(s)) => if d > s {
            d
        } else {
            n
        },
        (Some(d), None) => d,
        (None, _) => n,
    };
    assert(cut as int == spec_ext_cut(p@));
    let stem = p.substring_char(0, cut);
    let r = String::from_str(stem).concat(".").concat(e);
    proof {
        reveal_strlit(".");
        assert("."@ =~= seq!['.']);
        assert(r@ =~= spec_with_extension(p@, e@));
    }
    r
}

/// Every `/` in `s` turned into `-`.
pub open spec fn spec_dashed(s: Seq<char>) -> Seq<char> {
    s.map_values(|ch: char| if ch == '/' { '-' } else { ch })
}

/// Every `/` in `s` turned into `-`.
pub fn dash_slashes(s: &str) -> (r: String)
    ensures
        r@ == spec_dashed(s@),
{
    let n = s.unicode_len();
    let mut out = String::new();
    let mut i: usize = 0;
    while i < n
        invariant
            0 <= i <= n,
            n == s@.len(),
            out@ == spec_dashed(s@.subrange(0, i as int)),
        decreases n - i,
    {
        if s.get_char(i) == '/' {
            out.append("-");
            proof {
                reveal_strlit("-");
            }
        } else {
            let piece = s.substring_char(i, i + 1);
            out.append(piece);
        }
        proof {
            assert(out@ =~= spec_dashed(s@.subrange(0, i + 1 as int)));
        }
        i = i + 1;
    }
    proof {
        assert(s@.subrange(0, n as int) =~= s@);
    }
    out
}

/// The pattern `pat` occurs in `s` at position `i`.
pub open spec fn spec_match_at(s: Seq<char>, pat: Seq<char>, i: int) -> bool {
    0 <= i && i + pat.len() <= s.len() && s.subrange(i, i + pat.len() as int) == pat
}

/// The rightmost position at or below `k` where `pat` occurs in `s`.
pub open spec fn spec_last_match_upto(s: Seq<char>, pat: Seq<char>, k: int) -> Option<int>
    decreases k + 1,
{
    if k < 0 {
        None
    } else if spec_match_at(s, pat, k) {
        Some(k)
    } else {
        spec_last_match_upto(s, pat, k - 1)
    }
}

/// The rightmost position where `pat` occurs in `s`, if any.
pub open spec fn spec_last_match(s: Seq<char>, pat: Seq<char>) -> Option<int> {
    spec_last_match_upto(s, pat, s.len() - pat.len())
}

/// Whether `pat` occurs in `s` at position `i`.
pub fn match_at(s: &str, pat: &str, i: usize) -> (b: bool)
    requires
        i + pat@.len() <= s@.len(),
    ensures
        b == spec_match_at(s@, pat@, i as int),
{
    let sn = s.unicode_len();
    let n = pat.unicode_len();
    let mut j: usize = 0;
    while j < n
        invariant
            0 <= j <= n,
            n == pat@.len(),
            sn == s@.len(),
            i + n <= s@.len(),
            forall|k: int| 0 <= k < j ==> s@[i + k] == pat@[k],
        decreases n - j,
    {
        if s.get_char(i + j) != pat.get_char(j) {
            assert(!spec_match_at(s@, pat@, i as int)) by {
                assert(s@.subrange(i as int, i + pat@.len() as int)[j as int] != pat@[j as int]);
            }
            return false;
        }
        j = j + 1;
    }
    assert(s@.subrange(i as int, i + pat@.len() as int) =~= pat@);
    true
}

/// The rightmost position where `pat` occurs in `s`, if any.
pub fn rfind_sub(s: &str, pat: &str) -> (r: Option<usize>)
    ensures
        match r {
            Some(i) => Some(i as int) == spec_last_match(s@, pat@),
            None => spec_last_match(s@, pat@) is None,
        },
{
    let n = s.unicode_len();
    let m = pat.unicode_len();
    if m > n {
        return None;
    }
    let mut k: usize = n - m;
    loop
        invariant
            0 <= k <= n - m,
            m == pat@.len(),
            n == s@.len(),
            m <= n,
            spec_last_match(s@, pat@) == spec_last_match_upto(s@, pat@, k as int),
        decreases k + 1,
    {
        if match_at(s, pat, k) {
            return Some(k);
        }
        if k == 0 {
            proof {
                assert(spec_last_match_upto(s@, pat@, 0) == spec_last_match_upto(s@, pat@, -1));
                assert(spec_last_match_upto(s@, pat@, -1) is None);
            }
            return None;
        }
        k = k - 1;
    }
}

/// The part of `s` after the last occurrence of `pat`, or all of `s` when
/// `pat` does not occur.
pub open spec fn spec_after_last_match(s: Seq<char>, pat: Seq<char>) -> Seq<char> {
    match spec_last_match(s, pat) {
        Some(i) => s.subrange(i + pat.len(), s.len() as int),
        None => s,
    }
}

proof fn lemma_last_match_upto_bounds(s: Seq<char>, pat: Seq<char>, k: int)
    ensures
        match spec_last_match_upto(s, pat, k) {
            Some(i) => 0 <= i && i + pat.len() <= s.len(),
            None => true,
        },
    decreases k + 1,
{
    if k >= 0 && !spec_match_at(s, pat, k) {
        lemma_last_match_upto_bounds(s, pat, k - 1);
    }
}

/// The part of `s` after the last occurrence of `pat`, or all of `s` when
/// `pat` does not occur.
pub fn after_last_match<'a>(s: &'a str, pat: &str) -> (r: &'a str)
    ensures
        r@ == spec_after_last_match(s@, pat@),
{
    proof {
        lemma_last_match_upto_bounds(s@, pat@, s@.len() - pat@.len());
    }
    let sn = s.unicode_len();
    let pn = pat.unicode_len();
    match rfind_sub(s, pat) {
        Some(i) => s.substring_char(i + pn, sn),
        None => s,
    }
}

/// The digit character for a value below ten.
pub open spec fn spec_digit(d: nat) -> char {
    if d == 0 {
        '0'
    } else if d == 1 {
        '1'
    } else if d == 2 {
        '2'
    } else if d == 3 {
        '3'
    } else if d == 4 {
        '4'
    } else if d == 5 {
        '5'
    } else if d == 6 {
        '6'
    } else if d == 7 {
        '7'
    } else if d == 8 {
        '8'
    } else {
        '9'
    }
}

/// The decimal writing of `n`, most significant digit first, without
/// leading zeroes (`0` itself is written `0`).
pub open spec fn spec_decimal(n: nat) -> Seq<char>
    decreases n,
{
    if n < 10 {
        seq![spec_digit(n)]
    } else {
        spec_decimal(n / 10).push(spec_digit(n % 10))
    }
}

/// The digit character for a value below ten.
fn digit_str(d: u64) -> (r: &'static str)
    requires
        d < 10,
    ensures
        r@ == seq![spec_digit(d as nat)],
{
    proof {
        reveal_strlit("0");
        reveal_strlit("1");
        reveal_strlit("2");
        reveal_strlit("3");
        reveal_strlit("4");
        reveal_strlit("5");
        reveal_strlit("6");
        reveal_strlit("7");
        reveal_strlit("8");
        reveal_strlit("9");
    }
    match d {
        0 => "0",
        1 => "1",
        2 => "2",
        3 => "3",
        4 => "4",
        5 => "5",
        6 => "6",
        7 => "7",
        8 => "8",
        _ => "9",
    }
}

/// Writes `n` in decimal.
pub fn u64_to_string(n: u64) -> (r: String)
    ensures
        r@ == spec_decimal(n as nat),
    decreases n,
{
    if n < 10 {
        String::from_str(digit_str(n))
    } else {
        let r = u64_to_string(n / 10).concat(digit_str(n % 10));
        proof {
            assert(r@ =~= spec_decimal((n / 10) as nat).push(spec_digit((n % 10) as nat)));
        }
        r
    }
}

/// The marker that separates a served media address from the path that
/// names the item inside the catalog.
pub open spec fn spec_media_marker() -> Seq<char> {
    seq!['/', 'm', 'e', 'd', 'i', 'a', '/']
}

/// The cache file name for an image address: what follows the address's
/// last `/media/` marker (the whole address when it has none), with every
/// `/` turned into `-` so it names a single file.
pub open spec fn spec_media_cache_key(url: Seq<char>) -> Seq<char> {
    spec_dashed(spec_after_last_match(url, spec_media_marker()))
}

/// The cache file name for an image address.
pub fn media_cache_key(url: &str) -> (r: String)
    ensures
        r@ == spec_media_cache_key(url@),
{
    proof {
        reveal_strlit("/media/");
        assert("/media/"@ =~= spec_media_marker());
    }
    let suffix = after_last_match(url, "/media/");
    dash_slashes(suffix)
}

/// The index of the last occurrence of `c` in `s`, if any.
pub fn rfind_char(s: &str, c: char) -> (r: Option<usize>)
    ensures
        match r {
            Some(i) => {
                &&& i < s@.len()
                &&& s@[i as int] == c
                &&& forall|j: int| i < j < s@.len() ==> s@[j] != c
            },
            None => forall|j: int| 0 <= j < s@.len() ==> s@[j] != c,
        },
{
    let mut i = s.unicode_len();
    while i > 0
        invariant
            0 <= i <= s@.len(),
            forall|j: int| i <= j < s@.len() ==> s@[j] != c,
        decreases i,
    {
        i = i - 1;
        if s.get_char(i) == c {
            return Some(i);
        }
    }
    None
}

} // verus!
