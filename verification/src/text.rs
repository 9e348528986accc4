use vstd::prelude::*;

verus! {

broadcast use vstd::string::group_string_axioms;

/// Whether the character has the Unicode `White_Space` property (what
/// `char::is_whitespace` answers): tab to carriage return, space, next
/// line, no-break space, ogham space mark, the spaces from en quad to hair
/// space, line and paragraph separators, narrow no-break space, medium
/// mathematical space and ideographic space.
pub open spec fn char_is_whitespace(c: char) -> bool {
    let u = c as u32;
    ||| 0x09 <= u <= 0x0D
    ||| u == 0x20
    ||| u == 0x85
    ||| u == 0xA0
    ||| u == 0x1680
    ||| 0x2000 <= u <= 0x200A
    ||| u == 0x2028
    ||| u == 0x2029
    ||| u == 0x202F
    ||| u == 0x205F
    ||| u == 0x3000
}

/// Whether `c` is white space in the sense of `char_is_whitespace`.
pub fn is_whitespace(c: char) -> (r: bool)
    ensures
        r == char_is_whitespace(c),
{
    let u = c as u32;
    (0x09 <= u && u <= 0x0D) || u == 0x20 || u == 0x85 || u == 0xA0 || u == 0x1680 || (0x2000 <= u
        && u <= 0x200A) || u == 0x2028 || u == 0x2029 || u == 0x202F || u == 0x205F || u == 0x3000
}

/// Whether a character outside ASCII has the Unicode `Alphabetic`
/// property, as `char::is_alphabetic` answers.
pub uninterp spec fn non_ascii_alphabetic(c: char) -> bool;

/// Whether the character has the Unicode `Alphabetic` property: in ASCII
/// exactly the letters `A`-`Z` and `a`-`z` have it.
pub open spec fn char_is_alphabetic(c: char) -> bool {
    if (c as u32) < 128 {
        'a' <= c <= 'z' || 'A' <= c <= 'Z'
    } else {
        non_ascii_alphabetic(c)
    }
}

/// Calls `char::is_alphabetic`. Of an ASCII character it is stated that
/// exactly the letters `A`-`Z` and `a`-`z` have the property (the only
/// ASCII characters in Unicode's `Alphabetic` set); the answer for any
/// other character is named `non_ascii_alphabetic`, a function of the
/// character alone, and nothing more is claimed of it.
#[verifier::external_body]
pub(crate) fn is_alphabetic(c: char) -> (r: bool)
    ensures
        r == if (c as u32) < 128 {
            'a' <= c <= 'z' || 'A' <= c <= 'Z'
        } else {
            non_ascii_alphabetic(c)
        },
{
    c.is_alphabetic()
}

/// The characters of `s`, in order.
pub fn chars_of(s: &str) -> (r: Vec<char>)
    ensures
        r@ == s@,
{
    let mut v: Vec<char> = Vec::new();
    for c in it: s.chars()
        invariant
            v@ == it.seq().take(it.index() as int),
    {
        v.push(c);
    }
    v
}

/// First index in `[i, hi)` holding `c`, or `hi`.
pub open spec fn find_from(s: Seq<char>, c: char, i: int, hi: int) -> int
    decreases hi - i,
{
    if i < hi {
        if s[i] == c {
            i
        } else {
            find_from(s, c, i + 1, hi)
        }
    } else {
        hi
    }
}

/// First index at or after `lo` (and below `hi`) that does not hold
/// whitespace, or `hi`.
pub open spec fn trim_start(s: Seq<char>, lo: int, hi: int) -> int
    decreases hi - lo,
{
    if lo < hi && char_is_whitespace(s[lo]) {
        trim_start(s, lo + 1, hi)
    } else {
        lo
    }
}

/// End of `[lo, hi)` once trailing whitespace is dropped.
pub open spec fn trim_end(s: Seq<char>, lo: int, hi: int) -> int
    decreases hi - lo,
{
    if lo < hi && char_is_whitespace(s[hi - 1]) {
        trim_end(s, lo, hi - 1)
    } else {
        hi
    }
}

pub proof fn lemma_find_from_bounds(s: Seq<char>, c: char, i: int, hi: int)
    requires
        i <= hi,
    ensures
        i <= find_from(s, c, i, hi) <= hi,
        find_from(s, c, i, hi) < hi ==> s[find_from(s, c, i, hi)] == c,
        forall|k: int| i <= k < find_from(s, c, i, hi) ==> s[k] != c,
    decreases hi - i,
{
    if i < hi && s[i] != c {
        lemma_find_from_bounds(s, c, i + 1, hi);
    }
}

pub proof fn lemma_trim_bounds(s: Seq<char>, lo: int, hi: int)
    requires
        lo <= hi,
    ensures
        lo <= trim_start(s, lo, hi) <= hi,
        trim_start(s, lo, hi) <= trim_end(s, trim_start(s, lo, hi), hi) <= hi,
    decreases hi - lo,
{
    if lo < hi && char_is_whitespace(s[lo]) {
        lemma_trim_bounds(s, lo + 1, hi);
    }
    lemma_trim_end_bounds(s, trim_start(s, lo, hi), hi);
}

pub proof fn lemma_trim_end_bounds(s: Seq<char>, lo: int, hi: int)
    requires
        lo <= hi,
    ensures
        lo <= trim_end(s, lo, hi) <= hi,
    decreases hi - lo,
{
    if lo < hi && char_is_whitespace(s[hi - 1]) {
        lemma_trim_end_bounds(s, lo, hi - 1);
    }
}

/// `find_from` over a character vector.
pub fn find_char(v: &Vec<char>, c: char, i: usize, hi: usize) -> (r: usize)
    requires
        i <= hi <= v@.len(),
    ensures
        r == find_from(v@, c, i as int, hi as int),
        i <= r <= hi,
{
    proof {
        lemma_find_from_bounds(v@, c, i as int, hi as int);
    }
    let mut k = i;
    while k < hi
        invariant
            i <= k <= hi <= v@.len(),
            find_from(v@, c, i as int, hi as int) == find_from(v@, c, k as int, hi as int),
        decreases hi - k,
    {
        if v[k] == c {
            return k;
        }
        k = k + 1;
    }
    k
}

/// `trim_start` over a character vector.
pub fn trim_start_of(v: &Vec<char>, lo: usize, hi: usize) -> (r: usize)
    requires
        lo <= hi <= v@.len(),
    ensures
        r == trim_start(v@, lo as int, hi as int),
        lo <= r <= hi,
{
    proof {
        lemma_trim_bounds(v@, lo as int, hi as int);
    }
    let mut k = lo;
    while k < hi && is_whitespace(v[k])
        invariant
            lo <= k <= hi <= v@.len(),
            trim_start(v@, lo as int, hi as int) == trim_start(v@, k as int, hi as int),
        decreases hi - k,
    {
        k = k + 1;
    }
    k
}

/// `trim_end` over a character vector.
pub fn trim_end_of(v: &Vec<char>, lo: usize, hi: usize) -> (r: usize)
    requires
        lo <= hi <= v@.len(),
    ensures
        r == trim_end(v@, lo as int, hi as int),
        lo <= r <= hi,
{
    proof {
        lemma_trim_end_bounds(v@, lo as int, hi as int);
    }
    let mut k = hi;
    while lo < k && is_whitespace(v[k - 1])
        invariant
            lo <= k <= hi <= v@.len(),
            trim_end(v@, lo as int, hi as int) == trim_end(v@, lo as int, k as int),
        decreases k - lo,
    {
        k = k - 1;
    }
    k
}

/// Whether `v[lo..hi]` is the text `lit`.
pub fn range_is(v: &Vec<char>, lo: usize, hi: usize, lit: &str) -> (r: bool)
    requires
        lo <= hi <= v@.len(),
    ensures
        r == (v@.subrange(lo as int, hi as int) == lit@),
{
    let w = chars_of(lit);
    if hi - lo != w.len() {
        return false;
    }
    let mut k: usize = 0;
    while k < w.len()
        invariant
            hi - lo == w@.len(),
            w@ == lit@,
            lo <= hi <= v@.len(),
            0 <= k <= w@.len(),
            forall|j: int| 0 <= j < k ==> v@[lo + j] == w@[j],
        decreases w@.len() - k,
    {
        if v[lo + k] != w[k] {
            assert(v@.subrange(lo as int, hi as int)[k as int] != lit@[k as int]);
            return false;
        }
        k = k + 1;
    }
    assert(v@.subrange(lo as int, hi as int) =~= lit@);
    true
}

/// `needle` occurs in `hay` as a contiguous run.
pub open spec fn contains_seq(hay: Seq<char>, needle: Seq<char>) -> bool {
    exists|i: int| 0 <= i <= hay.len() - needle.len() && #[trigger] hay.subrange(i, i + needle.len()) == needle
}

/// Whether `needle` occurs in `hay` starting at index `i`.
fn matches_at(hay: &Vec<char>, needle: &Vec<char>, i: usize) -> (r: bool)
    requires
        i + needle@.len() <= hay@.len(),
    ensures
        r == (hay@.subrange(i as int, i + needle@.len()) == needle@),
{
    let n = hay.len();
    let mut k: usize = 0;
    while k < needle.len()
        invariant
            n == hay@.len(),
            i + needle@.len() <= hay@.len(),
            0 <= k <= needle@.len(),
            forall|j: int| 0 <= j < k ==> hay@[i + j] == needle@[j],
        decreases needle@.len() - k,
    {
        if hay[i + k] != needle[k] {
            assert(hay@.subrange(i as int, i + needle@.len())[k as int] != needle@[k as int]);
            return false;
        }
        k = k + 1;
    }
    assert(hay@.subrange(i as int, i + needle@.len()) =~= needle@);
    true
}

/// Whether `needle` occurs in `hay`, as `str::contains` with a string
/// pattern answers.
pub fn contains_str(hay: &Vec<char>, needle: &Vec<char>) -> (r: bool)
    ensures
        r == contains_seq(hay@, needle@),
{
    if needle.len() > hay.len() {
        return false;
    }
    let last = hay.len() - needle.len();
    let mut i: usize = 0;
    while i < last
        invariant
            last == hay@.len() - needle@.len(),
            needle@.len() <= hay@.len(),
            0 <= i <= last,
            forall|j: int| 0 <= j < i ==> #[trigger] hay@.subrange(j, j + needle@.len()) != needle@,
        decreases last - i,
    {
        if matches_at(hay, needle, i) {
            return true;
        }
        i = i + 1;
    }
    if matches_at(hay, needle, last) {
        return true;
    }
    assert(!contains_seq(hay@, needle@)) by {
        if contains_seq(hay@, needle@) {
            let j = choose|j: int|
                0 <= j <= hay@.len() - needle@.len() && #[trigger] hay@.subrange(
                    j,
                    j + needle@.len(),
                ) == needle@;
            assert(hay@.subrange(j, j + needle@.len()) != needle@);
        }
    }
    false
}

} // verus!
