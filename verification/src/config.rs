use vstd::prelude::*;

use crate::text::{
    char_is_alphabetic, chars_of, find_char, find_from, is_alphabetic, lemma_find_from_bounds,
    lemma_trim_bounds, range_is, trim_end, trim_end_of, trim_start, trim_start_of,
};

verus! {

broadcast use vstd::string::group_string_axioms;

/// The key/value pairs of one configuration section. A key appears at most
/// once; inserting an existing key replaces its value.
pub struct Section {
    entries: Vec<(String, String)>,
}

impl View for Section {
    type V = Map<Seq<char>, Seq<char>>;

    closed spec fn view(&self) -> Map<Seq<char>, Seq<char>> {
        Map::new(
            |k: Seq<char>| exists|i: int| 0 <= i < self.entries@.len() && #[trigger] self.entries@[i].0@ == k,
            |k: Seq<char>|
                self.entries@[choose|i: int|
                    0 <= i < self.entries@.len() && #[trigger] self.entries@[i].0@ == k].1@,
        )
    }
}

impl Section {
    /// No key appears twice.
    pub closed spec fn wf(&self) -> bool {
        forall|i: int, j: int|
            0 <= i < self.entries@.len() && 0 <= j < self.entries@.len() && i != j
                ==> #[trigger] self.entries@[i].0@ != #[trigger] self.entries@[j].0@
    }

    /// An empty section.
    pub fn new() -> (r: Self)
        ensures
            r.wf(),
            r@ == Map::<Seq<char>, Seq<char>>::empty(),
    {
        let r = Section { entries: Vec::new() };
        assert(r@ =~= Map::<Seq<char>, Seq<char>>::empty());
        r
    }

    /// Sets `key` to `value`, replacing any value it had.
    pub fn insert(&mut self, key: String, value: String)
        requires
            old(self).wf(),
        ensures
            final(self).wf(),
            final(self)@ == old(self)@.insert(key@, value@),
    {
        let ghost old_entries = self.entries@;
        let mut i: usize = 0;
        while i < self.entries.len()
            invariant
                self.entries@ == old_entries,
                old(self).entries@ == old_entries,
                self.wf(),
                0 <= i <= old_entries.len(),
                forall|j: int| 0 <= j < i ==> old_entries[j].0@ != key@,
            decreases old_entries.len() - i,
        {
            if self.entries[i].0 == key {
                let ghost k = key@;
                let ghost v = value@;
                self.entries.set(i, (key, value));
                assert(self.wf());
                assert(self@ =~= old(self)@.insert(k, v)) by {
                    assert(self.entries@[i as int].0@ == k);
                    assert forall|kk: Seq<char>| #[trigger] self@.contains_key(kk) == old(self)@.insert(
                        k,
                        v,
                    ).contains_key(kk) by {
                        if kk != k {
                            if self@.contains_key(kk) {
                                let j = choose|j: int|
                                    0 <= j < self.entries@.len() && #[trigger] self.entries@[j].0@
                                        == kk;
                                assert(old_entries[j].0@ == kk);
                            }
                            if old(self)@.contains_key(kk) {
                                let j = choose|j: int|
                                    0 <= j < old_entries.len() && #[trigger] old_entries[j].0@ == kk;
                                assert(self.entries@[j].0@ == kk);
                            }
                        }
                    }
                    assert forall|kk: Seq<char>| #[trigger] self@.contains_key(kk) implies self@[kk]
                        == old(self)@.insert(k, v)[kk] by {
                        let j = choose|j: int|
                            0 <= j < self.entries@.len() && #[trigger] self.entries@[j].0@ == kk;
                        if kk == k {
                            assert(j == i);
                        } else {
                            assert(j != i);
                            assert(old_entries[j].0@ == kk);
                            let j2 = choose|j2: int|
                                0 <= j2 < old_entries.len() && #[trigger] old_entries[j2].0@ == kk;
                            assert(j2 == j);
                        }
                    }
                }
                return ;
            }
            i = i + 1;
        }
        let ghost k = key@;
        let ghost v = value@;
        self.entries.push((key, value));
        assert(self.wf());
        assert(self@ =~= old(self)@.insert(k, v)) by {
            let n = old_entries.len();
            assert(self.entries@[n as int].0@ == k);
            assert forall|kk: Seq<char>| #[trigger] self@.contains_key(kk) == old(self)@.insert(
                k,
                v,
            ).contains_key(kk) by {
                if kk != k {
                    if self@.contains_key(kk) {
                        let j = choose|j: int|
                            0 <= j < self.entries@.len() && #[trigger] self.entries@[j].0@ == kk;
                        assert(old_entries[j].0@ == kk);
                    }
                    if old(self)@.contains_key(kk) {
                        let j = choose|j: int|
                            0 <= j < old_entries.len() && #[trigger] old_entries[j].0@ == kk;
                        assert(self.entries@[j].0@ == kk);
                    }
                }
            }
            assert forall|kk: Seq<char>| #[trigger] self@.contains_key(kk) implies self@[kk]
                == old(self)@.insert(k, v)[kk] by {
                let j = choose|j: int|
                    0 <= j < self.entries@.len() && #[trigger] self.entries@[j].0@ == kk;
                if kk == k {
                    assert(j == n);
                } else {
                    assert(j != n);
                    assert(old_entries[j].0@ == kk);
                    let j2 = choose|j2: int|
                        0 <= j2 < old_entries.len() && #[trigger] old_entries[j2].0@ == kk;
                    assert(j2 == j);
                }
            }
        }
    }

    /// The value of `key`, if the section has it.
    pub fn get(&self, key: &str) -> (r: Option<&String>)
        requires
            self.wf(),
        ensures
            match r {
                Some(v) => self@.contains_key(key@) && v@ == self@[key@],
                None => !self@.contains_key(key@),
            },
    {
        let k = key.to_owned();
        let mut i: usize = 0;
        while i < self.entries.len()
            invariant
                self.wf(),
                k@ == key@,
                0 <= i <= self.entries@.len(),
                forall|j: int| 0 <= j < i ==> self.entries@[j].0@ != key@,
            decreases self.entries@.len() - i,
        {
            if self.entries[i].0 == k {
                assert(self@.contains_key(key@));
                proof {
                    let j = choose|j: int|
                        0 <= j < self.entries@.len() && #[trigger] self.entries@[j].0@ == key@;
                    assert(j == i);
                }
                return Some(&self.entries[i].1);
            }
            i = i + 1;
        }
        assert(!self@.contains_key(key@)) by {
            if self@.contains_key(key@) {
                let j = choose|j: int|
                    0 <= j < self.entries@.len() && #[trigger] self.entries@[j].0@ == key@;
                assert(self.entries@[j].0@ != key@);
            }
        }
        None
    }
}

} // verus!

verus! {

/// A key binding: the modifier mask, the key's name, what to dispatch and
/// its argument.
#[derive(Debug)]
pub struct Keybind {
    pub mods: u32,
    pub key: String,
    pub dispatcher: String,
    pub arg: String,
}

/// The parsed configuration.
pub struct Config {
    pub general: Section,
    pub decoration: Section,
    pub animations: Section,
    pub binds: Vec<Keybind>,
}

impl Config {
    /// Every section is well-formed.
    pub open spec fn wf(&self) -> bool {
        &&& self.general.wf()
        &&& self.decoration.wf()
        &&& self.animations.wf()
    }
}

impl Default for Config {
    /// Empty sections and no bindings.
    fn default() -> (r: Self)
        ensures
            r.wf(),
            r.general@ == Map::<Seq<char>, Seq<char>>::empty(),
            r.decoration@ == Map::<Seq<char>, Seq<char>>::empty(),
            r.animations@ == Map::<Seq<char>, Seq<char>>::empty(),
            r.binds@ == Seq::<Keybind>::empty(),
    {
        Config {
            general: Section::new(),
            decoration: Section::new(),
            animations: Section::new(),
            binds: Vec::new(),
        }
    }
}

/// Space, tab, carriage return or line feed.
pub open spec fn is_multispace(c: char) -> bool {
    c == ' ' || c == '\t' || c == '\r' || c == '\n'
}

/// First index at or after `i` that does not hold a space, tab, carriage
/// return or line feed, or the length of `s`.
pub open spec fn skip_multispace(s: Seq<char>, i: int) -> int
    decreases s.len() - i,
{
    if 0 <= i < s.len() && is_multispace(s[i]) {
        skip_multispace(s, i + 1)
    } else {
        i
    }
}

/// End of the run of alphabetic characters starting at `i`.
pub open spec fn alpha_run_end(s: Seq<char>, i: int) -> int
    decreases s.len() - i,
{
    if 0 <= i < s.len() && char_is_alphabetic(s[i]) {
        alpha_run_end(s, i + 1)
    } else {
        i
    }
}

pub proof fn lemma_skip_multispace_ge(s: Seq<char>, i: int)
    ensures
        skip_multispace(s, i) >= i,
        0 <= i ==> skip_multispace(s, i) <= s.len() || skip_multispace(s, i) == i,
    decreases s.len() - i,
{
    if 0 <= i < s.len() && is_multispace(s[i]) {
        lemma_skip_multispace_ge(s, i + 1);
    }
}

/// Skipping white space from `i` passes exactly the spaces, tabs, carriage
/// returns and line feeds there: every character passed is one of those
/// four, and the character it stops at, if any, is none of them.
pub proof fn lemma_skip_multispace_exact(s: Seq<char>, i: int)
    requires
        0 <= i <= s.len(),
    ensures
        i <= skip_multispace(s, i) <= s.len(),
        forall|k: int|
            i <= k < skip_multispace(s, i) ==> (#[trigger] s[k] == ' ' || s[k] == '\t' || s[k]
                == '\r' || s[k] == '\n'),
        skip_multispace(s, i) < s.len() ==> {
            let c = s[skip_multispace(s, i)];
            c != ' ' && c != '\t' && c != '\r' && c != '\n'
        },
    decreases s.len() - i,
{
    if i < s.len() && is_multispace(s[i]) {
        lemma_skip_multispace_exact(s, i + 1);
    }
}

pub proof fn lemma_alpha_run_end_ge(s: Seq<char>, i: int)
    ensures
        alpha_run_end(s, i) >= i,
        0 <= i ==> alpha_run_end(s, i) <= s.len() || alpha_run_end(s, i) == i,
    decreases s.len() - i,
{
    if 0 <= i < s.len() && char_is_alphabetic(s[i]) {
        lemma_alpha_run_end_ge(s, i + 1);
    }
}

/// The section that starts at `i`: optional spaces, a non-empty
/// alphabetic name, optional spaces, `{`, optional spaces, a body that runs
/// up to the first `}`, and that `}`. Gives the bounds of the name and of
/// the body, the body ending at the index of the `}`.
pub open spec fn section_at(s: Seq<char>, i: int) -> Option<(int, int, int, int)> {
    let a = skip_multispace(s, i);
    let b = alpha_run_end(s, a);
    if b == a {
        None
    } else {
        let k = skip_multispace(s, b);
        if k >= s.len() || s[k] != '{' {
            None
        } else {
            let m = skip_multispace(s, k + 1);
            let p = find_from(s, '}', m, s.len() as int);
            if p >= s.len() {
                None
            } else {
                Some((a, b, m, p))
            }
        }
    }
}

/// A section found at `i` lies within the text, after `i`, in order.
pub proof fn lemma_section_at_advances(s: Seq<char>, i: int)
    requires
        0 <= i,
    ensures
        section_at(s, i) matches Some((a, b, m, p)) ==> i <= a < b < m <= p < s.len() && b
            <= s.len(),
{
    let a = skip_multispace(s, i);
    let b = alpha_run_end(s, a);
    lemma_skip_multispace_ge(s, i);
    lemma_alpha_run_end_ge(s, a);
    if b != a {
        let k = skip_multispace(s, b);
        lemma_skip_multispace_ge(s, b);
        if k < s.len() && s[k] == '{' {
            let m = skip_multispace(s, k + 1);
            lemma_skip_multispace_ge(s, k + 1);
            if m <= s.len() {
                lemma_find_from_bounds(s, '}', m, s.len() as int);
            }
        }
    }
}

/// The run of alphabetic characters from `i` ends at the first character
/// that is not alphabetic.
proof fn lemma_alpha_run_end_exact(s: Seq<char>, i: int)
    requires
        0 <= i <= s.len(),
    ensures
        i <= alpha_run_end(s, i) <= s.len(),
        forall|k: int| i <= k < alpha_run_end(s, i) ==> char_is_alphabetic(#[trigger] s[k]),
        alpha_run_end(s, i) < s.len() ==> !char_is_alphabetic(s[alpha_run_end(s, i)]),
    decreases s.len() - i,
{
    if i < s.len() && char_is_alphabetic(s[i]) {
        lemma_alpha_run_end_exact(s, i + 1);
    }
}

/// A section found at `i` has the shape the grammar asks for: only
/// spaces, tabs, carriage returns and line feeds before the name; a
/// non-empty name of alphabetic characters that the next character does
/// not continue; then, after more such white space, a `{`; after more such
/// white space the body, which holds no `}` and is closed by one.
pub proof fn lemma_section_at_shape(s: Seq<char>, i: int)
    requires
        0 <= i <= s.len(),
    ensures
        section_at(s, i) matches Some((a, b, m, p)) ==> {
            &&& i <= a < b < m <= p < s.len()
            &&& forall|k: int|
                i <= k < a ==> (#[trigger] s[k] == ' ' || s[k] == '\t' || s[k] == '\r' || s[k]
                    == '\n')
            &&& forall|k: int| a <= k < b ==> char_is_alphabetic(#[trigger] s[k])
            &&& !char_is_alphabetic(s[b])
            &&& exists|q: int|
                b <= q < m && #[trigger] s[q] == '{' && (forall|k: int|
                    b <= k < m && k != q ==> (#[trigger] s[k] == ' ' || s[k] == '\t' || s[k]
                        == '\r' || s[k] == '\n'))
            &&& s[m] != ' ' && s[m] != '\t' && s[m] != '\r' && s[m] != '\n'
            &&& s[p] == '}'
            &&& forall|k: int| m <= k < p ==> #[trigger] s[k] != '}'
        },
{
    let a = skip_multispace(s, i);
    lemma_skip_multispace_exact(s, i);
    let b = alpha_run_end(s, a);
    lemma_alpha_run_end_exact(s, a);
    if b != a {
        let q = skip_multispace(s, b);
        lemma_skip_multispace_exact(s, b);
        if q < s.len() && s[q] == '{' {
            let m = skip_multispace(s, q + 1);
            lemma_skip_multispace_exact(s, q + 1);
            lemma_find_from_bounds(s, '}', m, s.len() as int);
            let p = find_from(s, '}', m, s.len() as int);
            if p < s.len() {
                assert(s[m] != ' ' && s[m] != '\t' && s[m] != '\r' && s[m] != '\n') by {
                    if m == p {
                        assert(s[m] == '}');
                    }
                }
                assert(b <= q < m && s[q] == '{' && (forall|k: int|
                    b <= k < m && k != q ==> (#[trigger] s[k] == ' ' || s[k] == '\t' || s[k]
                        == '\r' || s[k] == '\n')));
            }
        }
    }
}

/// The entry a line `s[lo..hi]` gives once trimmed: none for an empty line,
/// a comment (`#` first) or a line without `=`; otherwise the trimmed text
/// before the first `=` and the trimmed text after it.
pub open spec fn line_entry(s: Seq<char>, lo: int, hi: int) -> Option<(Seq<char>, Seq<char>)> {
    let a = trim_start(s, lo, hi);
    let b = trim_end(s, a, hi);
    if a == b || s[a] == '#' {
        None
    } else {
        let q = find_from(s, '=', a, b);
        if q == b {
            None
        } else {
            let ka = trim_start(s, a, q);
            let kb = trim_end(s, ka, q);
            let va = trim_start(s, q + 1, b);
            let vb = trim_end(s, va, b);
            Some((s.subrange(ka, kb), s.subrange(va, vb)))
        }
    }
}

/// The entries of the lines of `s[i..hi]`, in order. Lines end at `\n`
/// (a `\r` right before it is dropped); there is no empty last line after
/// a final `\n`.
pub open spec fn entries_from(s: Seq<char>, i: int, hi: int) -> Seq<(Seq<char>, Seq<char>)>
    decreases hi - i,
{
    if i >= hi {
        Seq::empty()
    } else {
        proof {
            lemma_find_from_bounds(s, '\n', i, hi);
        }
        let e = find_from(s, '\n', i, hi);
        let line_end = if e < hi && e > i && s[e - 1] == '\r' {
            e - 1
        } else {
            e
        };
        let rest = if e < hi {
            entries_from(s, e + 1, hi)
        } else {
            Seq::empty()
        };
        match line_entry(s, i, line_end) {
            Some(kv) => seq![kv] + rest,
            None => rest,
        }
    }
}

/// `m` with the entries inserted in order, later ones replacing earlier
/// values of the same key.
pub open spec fn insert_all(
    m: Map<Seq<char>, Seq<char>>,
    es: Seq<(Seq<char>, Seq<char>)>,
) -> Map<Seq<char>, Seq<char>>
    decreases es.len(),
{
    if es.len() == 0 {
        m
    } else {
        insert_all(m.insert(es[0].0, es[0].1), es.drop_first())
    }
}

/// The three section maps after parsing `s` from index `i` on, starting
/// from `g`, `d` and `a`: each section in turn, until the text ends or what
/// follows is not a section; the entries of sections named `general`,
/// `decoration` and `animations` go to that map, other sections are
/// skipped.
pub open spec fn parse_from(
    s: Seq<char>,
    i: int,
    g: Map<Seq<char>, Seq<char>>,
    d: Map<Seq<char>, Seq<char>>,
    a: Map<Seq<char>, Seq<char>>,
) -> (Map<Seq<char>, Seq<char>>, Map<Seq<char>, Seq<char>>, Map<Seq<char>, Seq<char>>)
    decreases s.len() - i,
{
    if i < 0 || i >= s.len() {
        (g, d, a)
    } else {
        match section_at(s, i) {
            None => (g, d, a),
            Some((na, nb, m, p)) => {
                let name = s.subrange(na, nb);
                let es = entries_from(s, m, p);
                let g2 = if name == "general"@ {
                    insert_all(g, es)
                } else {
                    g
                };
                let d2 = if name == "decoration"@ {
                    insert_all(d, es)
                } else {
                    d
                };
                let a2 = if name == "animations"@ {
                    insert_all(a, es)
                } else {
                    a
                };
                proof {
                    lemma_section_at_advances(s, i);
                }
                parse_from(s, p + 1, g2, d2, a2)
            },
        }
    }
}

} // verus!

verus! {

fn skip_multispace_of(v: &Vec<char>, i: usize) -> (r: usize)
    requires
        i <= v@.len(),
    ensures
        r == skip_multispace(v@, i as int),
        i <= r <= v@.len(),
        forall|k: int|
            i <= k < r ==> (#[trigger] v@[k] == ' ' || v@[k] == '\t' || v@[k] == '\r' || v@[k]
                == '\n'),
        r < v@.len() ==> v@[r as int] != ' ' && v@[r as int] != '\t' && v@[r as int] != '\r'
            && v@[r as int] != '\n',
{
    proof {
        lemma_skip_multispace_exact(v@, i as int);
    }
    let mut k = i;
    while k < v.len() && (v[k] == ' ' || v[k] == '\t' || v[k] == '\r' || v[k] == '\n')
        invariant
            i <= k <= v@.len(),
            skip_multispace(v@, i as int) == skip_multispace(v@, k as int),
        decreases v@.len() - k,
    {
        k = k + 1;
    }
    k
}

fn alpha_run_end_of(v: &Vec<char>, i: usize) -> (r: usize)
    requires
        i <= v@.len(),
    ensures
        r == alpha_run_end(v@, i as int),
        i <= r <= v@.len(),
{
    let mut k = i;
    while k < v.len() && is_alphabetic(v[k])
        invariant
            i <= k <= v@.len(),
            alpha_run_end(v@, i as int) == alpha_run_end(v@, k as int),
        decreases v@.len() - k,
    {
        k = k + 1;
    }
    k
}

/// `section_at` over a character vector.
fn next_section(v: &Vec<char>, i: usize) -> (r: Option<(usize, usize, usize, usize)>)
    requires
        i <= v@.len(),
    ensures
        match r {
            None => section_at(v@, i as int) is None,
            Some((a, b, m, p)) => section_at(v@, i as int) == Some(
                (a as int, b as int, m as int, p as int),
            ),
        },
{
    let a = skip_multispace_of(v, i);
    let b = alpha_run_end_of(v, a);
    if b == a {
        return None;
    }
    let k = skip_multispace_of(v, b);
    if k >= v.len() || v[k] != '{' {
        return None;
    }
    let m = skip_multispace_of(v, k + 1);
    let p = find_char(v, '}', m, v.len());
    if p >= v.len() {
        return None;
    }
    Some((a, b, m, p))
}

/// `line_entry` over the text `content`, whose characters are `v`.
fn parse_line(content: &str, v: &Vec<char>, lo: usize, hi: usize) -> (r: Option<(String, String)>)
    requires
        v@ == content@,
        lo <= hi <= v@.len(),
    ensures
        match r {
            None => line_entry(v@, lo as int, hi as int) is None,
            Some((k, val)) => line_entry(v@, lo as int, hi as int) == Some((k@, val@)),
        },
{
    let a = trim_start_of(v, lo, hi);
    let b = trim_end_of(v, a, hi);
    if a == b || v[a] == '#' {
        return None;
    }
    let q = find_char(v, '=', a, b);
    if q == b {
        return None;
    }
    let ka = trim_start_of(v, a, q);
    let kb = trim_end_of(v, ka, q);
    let va = trim_start_of(v, q + 1, b);
    let vb = trim_end_of(v, va, b);
    let key = content.substring_char(ka, kb).to_owned();
    let value = content.substring_char(va, vb).to_owned();
    Some((key, value))
}

proof fn lemma_insert_all_step(
    m: Map<Seq<char>, Seq<char>>,
    kv: (Seq<char>, Seq<char>),
    rest: Seq<(Seq<char>, Seq<char>)>,
)
    ensures
        insert_all(m, seq![kv] + rest) == insert_all(m.insert(kv.0, kv.1), rest),
{
    let es = seq![kv] + rest;
    assert(es[0] == kv);
    assert(es.drop_first() =~= rest);
}

/// Inserts the entries of the lines of `content[lo..hi]` into `section`.
fn add_entries(section: &mut Section, content: &str, v: &Vec<char>, lo: usize, hi: usize)
    requires
        old(section).wf(),
        v@ == content@,
        lo <= hi <= v@.len(),
    ensures
        final(section).wf(),
        final(section)@ == insert_all(old(section)@, entries_from(v@, lo as int, hi as int)),
{
    let mut i = lo;
    while i < hi
        invariant
            v@ == content@,
            lo <= i <= hi <= v@.len(),
            section.wf(),
            insert_all(section@, entries_from(v@, i as int, hi as int)) == insert_all(
                old(section)@,
                entries_from(v@, lo as int, hi as int),
            ),
        decreases hi - i,
    {
        let e = find_char(v, '\n', i, hi);
        let line_end = if e < hi && e > i && v[e - 1] == '\r' {
            e - 1
        } else {
            e
        };
        let ghost rest = if e < hi {
            entries_from(v@, e + 1, hi as int)
        } else {
            Seq::empty()
        };
        match parse_line(content, v, i, line_end) {
            Some((key, value)) => {
                proof {
                    lemma_insert_all_step(section@, (key@, value@), rest);
                }
                section.insert(key, value);
            },
            None => {},
        }
        if e < hi {
            i = e + 1;
        } else {
            i = hi;
            assert(insert_all(section@, rest) == section@);
        }
    }
    assert(entries_from(v@, i as int, hi as int) == Seq::<(Seq<char>, Seq<char>)>::empty());
}

/// Parses the configuration text `content`: see `parse_from`. Key bindings
/// are not read from the text; the result has none.
pub fn parse_config(content: &str) -> (config: Config)
    ensures
        config.wf(),
        (config.general@, config.decoration@, config.animations@) == parse_from(
            content@,
            0,
            Map::empty(),
            Map::empty(),
            Map::empty(),
        ),
        config.binds@.len() == 0,
{
    let mut config = Config::default();
    let v = chars_of(content);
    let n = v.len();
    let mut i: usize = 0;
    let mut done = false;
    while !done && i < n
        invariant
            v@ == content@,
            n == v@.len(),
            i <= n,
            config.wf(),
            config.binds@.len() == 0,
            done ==> (config.general@, config.decoration@, config.animations@) == parse_from(
                content@,
                0,
                Map::empty(),
                Map::empty(),
                Map::empty(),
            ),
            !done ==> parse_from(
                content@,
                i as int,
                config.general@,
                config.decoration@,
                config.animations@,
            ) == parse_from(content@, 0, Map::empty(), Map::empty(), Map::empty()),
        decreases n - i + (if done { 0int } else { 1int }),
    {
        proof {
            lemma_section_at_advances(v@, i as int);
        }
        match next_section(&v, i) {
            None => {
                done = true;
            },
            Some((na, nb, m, p)) => {
                proof {
                    reveal_strlit("general");
                    reveal_strlit("decoration");
                    reveal_strlit("animations");
                    assert("general"@.len() == 7);
                    assert("decoration"@.len() == 10);
                    assert("animations"@.len() == 10);
                    assert("decoration"@[0] != "animations"@[0]);
                }
                let ghost g0 = config.general@;
                let ghost d0 = config.decoration@;
                let ghost a0 = config.animations@;
                let ghost name = v@.subrange(na as int, nb as int);
                let ghost es = entries_from(v@, m as int, p as int);
                assert(parse_from(content@, i as int, g0, d0, a0) == parse_from(
                    content@,
                    p + 1,
                    if name == "general"@ { insert_all(g0, es) } else { g0 },
                    if name == "decoration"@ { insert_all(d0, es) } else { d0 },
                    if name == "animations"@ { insert_all(a0, es) } else { a0 },
                ));
                if range_is(&v, na, nb, "general") {
                    add_entries(&mut config.general, content, &v, m, p);
                } else if range_is(&v, na, nb, "decoration") {
                    add_entries(&mut config.decoration, content, &v, m, p);
                } else if range_is(&v, na, nb, "animations") {
                    add_entries(&mut config.animations, content, &v, m, p);
                }
                assert(config.general@ == if name == "general"@ { insert_all(g0, es) } else { g0 });
                assert(config.decoration@ == if name == "decoration"@ { insert_all(d0, es) } else { d0 });
                assert(config.animations@ == if name == "animations"@ { insert_all(a0, es) } else { a0 });
                i = p + 1;
            },
        }
    }
    config
}

} // verus!
