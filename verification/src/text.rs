//! Character-level text operations with their meaning stated over `Seq<char>`:
//! Unicode whitespace trimming, prefix and substring tests, ASCII case folding.

use vstd::prelude::*;

verus! {

/// The Unicode `White_Space` property, which `char::is_whitespace`, `str::trim`
/// and `str::split_whitespace` go by.
pub open spec fn is_white_space(c: char) -> bool {
    let u = c as u32;
    ||| 0x09 <= u <= 0x0d
    ||| u == 0x20
    ||| u == 0x85
    ||| u == 0xa0
    ||| u == 0x1680
    ||| 0x2000 <= u <= 0x200a
    ||| u == 0x2028
    ||| u == 0x2029
    ||| u == 0x202f
    ||| u == 0x205f
    ||| u == 0x3000
}

/// Whether `c` has the Unicode `White_Space` property, as
/// `char::is_whitespace` decides it.
fn char_is_whitespace(c: char) -> (r: bool)
    ensures
        r == is_white_space(c),
{
    let u = c as u32;
    (0x09 <= u && u <= 0x0d) || u == 0x20 || u == 0x85 || u == 0xa0 || u == 0x1680 || (0x2000 <= u
        && u <= 0x200a) || u == 0x2028 || u == 0x2029 || u == 0x202f || u == 0x205f || u == 0x3000
}

/// First index at or after `i` that holds no whitespace (or `s.len()`).
pub open spec fn skip_white(s: Seq<char>, i: int) -> int
    decreases s.len() - i,
{
    if i >= s.len() {
        s.len() as int
    } else if is_white_space(s[i]) {
        skip_white(s, i + 1)
    } else {
        i
    }
}

/// First index at or after `i` that holds whitespace (or `s.len()`).
pub open spec fn word_end(s: Seq<char>, i: int) -> int
    decreases s.len() - i,
{
    if i >= s.len() {
        s.len() as int
    } else if is_white_space(s[i]) {
        i
    } else {
        word_end(s, i + 1)
    }
}

/// Length of `s.take(j)` once its trailing whitespace is removed.
pub open spec fn trim_back(s: Seq<char>, j: int) -> int
    decreases j,
{
    if j <= 0 {
        0
    } else if is_white_space(s[j - 1]) {
        trim_back(s, j - 1)
    } else {
        j
    }
}

/// `s` without leading and trailing whitespace.
pub open spec fn trimmed(s: Seq<char>) -> Seq<char> {
    let a = skip_white(s, 0);
    if a >= s.len() {
        Seq::empty()
    } else {
        s.subrange(a, trim_back(s, s.len() as int))
    }
}

pub proof fn lemma_skip_white(s: Seq<char>, i: int)
    requires
        0 <= i <= s.len(),
    ensures
        i <= skip_white(s, i) <= s.len(),
        skip_white(s, i) < s.len() ==> !is_white_space(s[skip_white(s, i)]),
        forall|k: int| i <= k < skip_white(s, i) ==> is_white_space(#[trigger] s[k]),
    decreases s.len() - i,
{
    if i < s.len() && is_white_space(s[i]) {
        lemma_skip_white(s, i + 1);
    }
}

pub proof fn lemma_word_end(s: Seq<char>, i: int)
    requires
        0 <= i <= s.len(),
    ensures
        i <= word_end(s, i) <= s.len(),
        word_end(s, i) < s.len() ==> is_white_space(s[word_end(s, i)]),
        forall|k: int| i <= k < word_end(s, i) ==> !is_white_space(#[trigger] s[k]),
    decreases s.len() - i,
{
    if i < s.len() && !is_white_space(s[i]) {
        lemma_word_end(s, i + 1);
    }
}

pub proof fn lemma_trim_back(s: Seq<char>, j: int)
    requires
        0 <= j <= s.len(),
    ensures
        0 <= trim_back(s, j) <= j,
        trim_back(s, j) > 0 ==> !is_white_space(s[trim_back(s, j) - 1]),
        forall|k: int| trim_back(s, j) <= k < j ==> is_white_space(#[trigger] s[k]),
    decreases j,
{
    if j > 0 && is_white_space(s[j - 1]) {
        lemma_trim_back(s, j - 1);
    }
}

/// When some non-whitespace exists, it lies between the two trimming bounds.
pub proof fn lemma_trim_bounds(s: Seq<char>)
    ensures
        skip_white(s, 0) < s.len() ==> skip_white(s, 0) < trim_back(s, s.len() as int),
        skip_white(s, 0) >= s.len() ==> trimmed(s).len() == 0,
        trim_back(s, s.len() as int) <= s.len(),
{
    lemma_skip_white(s, 0);
    lemma_trim_back(s, s.len() as int);
    if skip_white(s, 0) < s.len() {
        let a = skip_white(s, 0);
        let b = trim_back(s, s.len() as int);
        if b <= a {
            assert(is_white_space(s[a]));
        }
    }
}

/// Index of the first non-whitespace character at or after `from`.
pub fn skip_white_from(s: &str, from: usize) -> (r: usize)
    requires
        from <= s@.len(),
    ensures
        r == skip_white(s@, from as int),
{
    let len = s.unicode_len();
    let mut i = from;
    while i < len
        invariant
            len == s@.len(),
            from <= i <= len,
            skip_white(s@, i as int) == skip_white(s@, from as int),
        decreases len - i,
    {
        if !char_is_whitespace(s.get_char(i)) {
            return i;
        }
        i = i + 1;
    }
    i
}

/// Index just past the run of non-whitespace characters starting at `from`.
pub fn word_end_from(s: &str, from: usize) -> (r: usize)
    requires
        from <= s@.len(),
    ensures
        r == word_end(s@, from as int),
{
    let len = s.unicode_len();
    let mut i = from;
    while i < len
        invariant
            len == s@.len(),
            from <= i <= len,
            word_end(s@, i as int) == word_end(s@, from as int),
        decreases len - i,
    {
        if char_is_whitespace(s.get_char(i)) {
            return i;
        }
        i = i + 1;
    }
    i
}

/// `s.take(j)` without trailing whitespace has this length.
pub fn trim_back_from(s: &str, j: usize) -> (r: usize)
    requires
        j <= s@.len(),
    ensures
        r == trim_back(s@, j as int),
{
    let mut k = j;
    while k > 0
        invariant
            k <= j <= s@.len(),
            trim_back(s@, k as int) == trim_back(s@, j as int),
        decreases k,
    {
        if !char_is_whitespace(s.get_char(k - 1)) {
            return k;
        }
        k = k - 1;
    }
    k
}

/// `str::trim`: the text without leading and trailing whitespace.
pub fn trim(s: &str) -> (r: &str)
    ensures
        r@ == trimmed(s@),
{
    let len = s.unicode_len();
    let a = skip_white_from(s, 0);
    proof {
        lemma_trim_bounds(s@);
    }
    if a >= len {
        let e = s.substring_char(0, 0);
        assert(e@ =~= trimmed(s@));
        return e;
    }
    let b = trim_back_from(s, len);
    s.substring_char(a, b)
}

/// Whether `s` is empty once trimmed.
pub fn is_blank(s: &str) -> (r: bool)
    ensures
        r == (trimmed(s@).len() == 0),
{
    let t = trim(s);
    t.unicode_len() == 0
}

/// Whether `p` occurs in `s` starting at index `i`.
pub open spec fn occurs_at(s: Seq<char>, p: Seq<char>, i: int) -> bool {
    0 <= i && i + p.len() <= s.len() && s.subrange(i, i + p.len()) == p
}

/// Whether `p` occurs anywhere in `s`.
pub open spec fn contains_text(s: Seq<char>, p: Seq<char>) -> bool {
    exists|i: int| occurs_at(s, p, i)
}

/// Whether `s` starts with `p`.
pub open spec fn has_prefix(s: Seq<char>, p: Seq<char>) -> bool {
    occurs_at(s, p, 0)
}

/// ASCII lower-casing of one character (`char::to_ascii_lowercase`).
pub open spec fn ascii_lower(c: char) -> char {
    if 'A' <= c && c <= 'Z' {
        ((c as u32) + 32) as char
    } else {
        c
    }
}

/// ASCII lower-casing of a text (`str::to_ascii_lowercase`).
pub open spec fn lower_text(s: Seq<char>) -> Seq<char> {
    s.map_values(|c: char| ascii_lower(c))
}

/// Whether `c`, lower-cased, equals `p`.
fn lower_char_is(c: char, p: char) -> (r: bool)
    ensures
        r == (ascii_lower(c) == p),
{
    if 'A' <= c && c <= 'Z' {
        (c as u32) + 32 == (p as u32)
    } else {
        c == p
    }
}

/// Whether `p` occurs at index `i` of `s` once `s` is lower-cased (`fold`) or as is.
fn matches_at(s: &str, p: &str, i: usize, fold: bool) -> (r: bool)
    requires
        i + p@.len() <= s@.len(),
    ensures
        fold ==> r == occurs_at(lower_text(s@), p@, i as int),
        !fold ==> r == occurs_at(s@, p@, i as int),
{
    let n = p.unicode_len();
    let slen = s.unicode_len();
    let mut k: usize = 0;
    while k < n
        invariant
            n == p@.len(),
            slen == s@.len(),
            i + n <= s@.len(),
            k <= n,
            forall|m: int|
                0 <= m < k ==> (if fold {
                    ascii_lower(s@[i + m]) == p@[m]
                } else {
                    s@[i + m] == p@[m]
                }),
        decreases n - k,
    {
        let c = s.get_char(i + k);
        let d = p.get_char(k);
        let same = if fold {
            lower_char_is(c, d)
        } else {
            c == d
        };
        if !same {
            proof {
                if fold {
                    assert(lower_text(s@).subrange(i as int, i + n)[k as int] != p@[k as int]);
                } else {
                    assert(s@.subrange(i as int, i + n)[k as int] != p@[k as int]);
                }
            }
            return false;
        }
        k = k + 1;
    }
    proof {
        if fold {
            assert(lower_text(s@).subrange(i as int, i + n) =~= p@);
        } else {
            assert(s@.subrange(i as int, i + n) =~= p@);
        }
    }
    true
}

fn find_text(s: &str, p: &str, fold: bool) -> (r: bool)
    ensures
        fold ==> r == contains_text(lower_text(s@), p@),
        !fold ==> r == contains_text(s@, p@),
{
    let len = s.unicode_len();
    let n = p.unicode_len();
    if n > len {
        proof {
            assert forall|i: int| !occurs_at(s@, p@, i) && !occurs_at(lower_text(s@), p@, i) by {}
        }
        return false;
    }
    let last = len - n;
    let mut i: usize = 0;
    loop
        invariant
            len == s@.len(),
            n == p@.len(),
            last == len - n,
            i <= last,
            fold ==> forall|j: int| 0 <= j < i ==> !occurs_at(lower_text(s@), p@, j),
            !fold ==> forall|j: int| 0 <= j < i ==> !occurs_at(s@, p@, j),
        ensures
            fold ==> forall|j: int| 0 <= j <= last ==> !occurs_at(lower_text(s@), p@, j),
            !fold ==> forall|j: int| 0 <= j <= last ==> !occurs_at(s@, p@, j),
        decreases last - i,
    {
        if matches_at(s, p, i, fold) {
            return true;
        }
        if i == last {
            break;
        }
        i = i + 1;
    }
    proof {
        if fold {
            assert forall|j: int| !occurs_at(lower_text(s@), p@, j) by {
                if 0 <= j <= last {
                    assert(!occurs_at(lower_text(s@), p@, j));
                }
            }
        } else {
            assert forall|j: int| !occurs_at(s@, p@, j) by {
                if 0 <= j <= last {
                    assert(!occurs_at(s@, p@, j));
                }
            }
        }
    }
    false
}

/// `str::contains` for a text pattern.
pub fn contains(s: &str, p: &str) -> (r: bool)
    ensures
        r == contains_text(s@, p@),
{
    find_text(s, p, false)
}

/// Whether the ASCII lower-cased `s` contains `p`.
pub fn contains_ascii_folded(s: &str, p: &str) -> (r: bool)
    ensures
        r == contains_text(lower_text(s@), p@),
{
    find_text(s, p, true)
}

/// `str::starts_with` for a text pattern.
pub fn starts_with(s: &str, p: &str) -> (r: bool)
    ensures
        r == has_prefix(s@, p@),
{
    if p.unicode_len() > s.unicode_len() {
        return false;
    }
    matches_at(s, p, 0, false)
}

/// Whether two texts are equal.
pub fn same_text(a: &str, b: &str) -> (r: bool)
    ensures
        r == (a@ == b@),
{
    if a.unicode_len() != b.unicode_len() {
        return false;
    }
    let r = matches_at(a, b, 0, false);
    proof {
        if r {
            assert(a@.subrange(0, b@.len() as int) =~= a@);
        } else {
            assert(!occurs_at(a@, b@, 0));
            if a@ == b@ {
                assert(a@.subrange(0, b@.len() as int) =~= a@);
            }
        }
    }
    r
}

} // verus!
