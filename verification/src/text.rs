//! Character-level helpers on strings: collecting characters, and the
//! lexicographic order in which strings are compared.
use vstd::prelude::*;

use crate::search::{first_index, lemma_first_index, lemma_first_index_is};

verus! {

/// Collects the characters of `s` into a vector.
pub fn chars_of(s: &str) -> (out: Vec<char>)
    ensures
        out@ == s@,
{
    let mut out: Vec<char> = Vec::new();
    for c in it: s.chars()
        invariant
            out@ == it.seq().take(it.index() as int),
    {
        out.push(c);
    }
    out
}

/// Lexicographic order on character sequences, comparing code points: the
/// order in which `str` values are compared.
pub open spec fn lex_le(a: Seq<char>, b: Seq<char>) -> bool
    decreases a.len(),
{
    if a.len() == 0 {
        true
    } else if b.len() == 0 {
        false
    } else if (a[0] as int) < (b[0] as int) {
        true
    } else if (a[0] as int) > (b[0] as int) {
        false
    } else {
        lex_le(a.drop_first(), b.drop_first())
    }
}

/// Any two character sequences are comparable.
pub proof fn lemma_lex_le_total(a: Seq<char>, b: Seq<char>)
    ensures
        lex_le(a, b) || lex_le(b, a),
    decreases a.len(),
{
    if a.len() > 0 && b.len() > 0 && a[0] == b[0] {
        lemma_lex_le_total(a.drop_first(), b.drop_first());
    }
}

/// The lexicographic order is transitive.
pub proof fn lemma_lex_le_trans(a: Seq<char>, b: Seq<char>, c: Seq<char>)
    requires
        lex_le(a, b),
        lex_le(b, c),
    ensures
        lex_le(a, c),
    decreases a.len(),
{
    if a.len() > 0 && b.len() > 0 && c.len() > 0 && a[0] == b[0] && b[0] == c[0] {
        lemma_lex_le_trans(a.drop_first(), b.drop_first(), c.drop_first());
    }
}

/// Two sequences each lexicographically below the other are equal.
pub proof fn lemma_lex_le_antisym(a: Seq<char>, b: Seq<char>)
    requires
        lex_le(a, b),
        lex_le(b, a),
    ensures
        a == b,
    decreases a.len(),
{
    if a.len() > 0 && b.len() > 0 {
        lemma_lex_le_antisym(a.drop_first(), b.drop_first());
        assert(a =~= seq![a[0]] + a.drop_first());
        assert(b =~= seq![b[0]] + b.drop_first());
    }
}

/// Every string is in order with itself.
pub proof fn lemma_lex_le_refl(a: Seq<char>)
    ensures
        lex_le(a, a),
    decreases a.len(),
{
    if a.len() > 0 {
        lemma_lex_le_refl(a.drop_first());
    }
}

/// A string comes before every longer string that it begins, and never
/// after one.
pub proof fn lemma_lex_le_proper_prefix(a: Seq<char>, b: Seq<char>)
    requires
        b.len() > 0,
    ensures
        lex_le(a, a + b),
        !lex_le(a + b, a),
    decreases a.len(),
{
    if a.len() > 0 {
        assert((a + b)[0] == a[0]);
        assert((a + b).drop_first() =~= a.drop_first() + b);
        lemma_lex_le_proper_prefix(a.drop_first(), b);
    } else {
        assert(a + b =~= b);
    }
}

/// After a common beginning, the first character in which two strings
/// differ decides their order: the string with the smaller one comes first,
/// whatever follows.
pub proof fn lemma_lex_le_first_difference(p: Seq<char>, x: char, y: char, r1: Seq<char>, r2: Seq<char>)
    requires
        (x as int) < (y as int),
    ensures
        lex_le(p + seq![x] + r1, p + seq![y] + r2),
        !lex_le(p + seq![y] + r2, p + seq![x] + r1),
    decreases p.len(),
{
    let a = p + seq![x] + r1;
    let b = p + seq![y] + r2;
    if p.len() > 0 {
        assert(a[0] == p[0]);
        assert(b[0] == p[0]);
        assert(a.drop_first() =~= p.drop_first() + seq![x] + r1);
        assert(b.drop_first() =~= p.drop_first() + seq![y] + r2);
        lemma_lex_le_first_difference(p.drop_first(), x, y, r1, r2);
    } else {
        assert(a[0] == x);
        assert(b[0] == y);
    }
}

/// Compares two strings in lexicographic order of their characters.
pub fn str_le(a: &str, b: &str) -> (r: bool)
    ensures
        r == lex_le(a@, b@),
{
    let ca = chars_of(a);
    let cb = chars_of(b);
    let mut i: usize = 0;
    assert(a@.skip(0) =~= a@);
    assert(b@.skip(0) =~= b@);
    while i < ca.len() && i < cb.len()
        invariant
            ca@ == a@,
            cb@ == b@,
            i <= ca.len(),
            i <= cb.len(),
            lex_le(a@, b@) == lex_le(a@.skip(i as int), b@.skip(i as int)),
        decreases ca.len() - i,
    {
        let x = ca[i];
        let y = cb[i];
        if x < y {
            return true;
        }
        if x > y {
            return false;
        }
        assert(a@.skip(i as int).drop_first() =~= a@.skip(i + 1));
        assert(b@.skip(i as int).drop_first() =~= b@.skip(i + 1));
        i = i + 1;
    }
    i == ca.len()
}

/// Compares two strings for equality of their characters.
pub fn str_eq(a: &str, b: &str) -> (r: bool)
    ensures
        r == (a@ == b@),
{
    let ca = chars_of(a);
    let cb = chars_of(b);
    if ca.len() != cb.len() {
        return false;
    }
    let mut i: usize = 0;
    while i < ca.len()
        invariant
            ca@ == a@,
            cb@ == b@,
            ca.len() == cb.len(),
            i <= ca.len(),
            a@.take(i as int) == b@.take(i as int),
        decreases ca.len() - i,
    {
        if ca[i] != cb[i] {
            assert(a@[i as int] != b@[i as int]);
            return false;
        }
        assert(a@.take(i + 1) =~= a@.take(i as int).push(a@[i as int]));
        assert(b@.take(i + 1) =~= b@.take(i as int).push(b@[i as int]));
        i = i + 1;
    }
    assert(a@ =~= a@.take(i as int));
    assert(b@ =~= b@.take(i as int));
    true
}


/// Whether `c` has the Unicode `White_Space` property, which is what
/// `char::is_whitespace` tests.
pub open spec fn is_ws(c: char) -> bool {
    ||| '\u{9}' <= c && c <= '\u{d}'
    ||| c == ' '
    ||| c == '\u{85}'
    ||| c == '\u{a0}'
    ||| c == '\u{1680}'
    ||| '\u{2000}' <= c && c <= '\u{200a}'
    ||| c == '\u{2028}'
    ||| c == '\u{2029}'
    ||| c == '\u{202f}'
    ||| c == '\u{205f}'
    ||| c == '\u{3000}'
}

/// A set of characters that text is trimmed of or split at.
#[derive(Debug, Clone, Copy, PartialEq, Eq, Structural)]
pub enum CharClass {
    /// The whitespace characters.
    Whitespace,
    /// One character.
    One(char),
    /// Either of two characters.
    Two(char, char),
}

/// Whether `c` belongs to `class`.
pub open spec fn in_class(class: CharClass, c: char) -> bool {
    match class {
        CharClass::Whitespace => is_ws(c),
        CharClass::One(a) => c == a,
        CharClass::Two(a, b) => c == a || c == b,
    }
}

/// The characters that do not belong to `class`.
pub open spec fn outside(class: CharClass) -> spec_fn(char) -> bool {
    |c: char| !in_class(class, c)
}

/// The characters that belong to `class`.
pub open spec fn inside(class: CharClass) -> spec_fn(char) -> bool {
    |c: char| in_class(class, c)
}

/// Whether `c` belongs to `class`.
pub fn class_has(class: CharClass, c: char) -> (r: bool)
    ensures
        r == in_class(class, c),
{
    match class {
        CharClass::Whitespace => {
            ('\u{9}' <= c && c <= '\u{d}') || c == ' ' || c == '\u{85}' || c == '\u{a0}' || c == '\u{1680}'
                || ('\u{2000}' <= c && c <= '\u{200a}') || c == '\u{2028}' || c == '\u{2029}' || c == '\u{202f}'
                || c == '\u{205f}' || c == '\u{3000}'
        },
        CharClass::One(a) => c == a,
        CharClass::Two(a, b) => c == a || c == b,
    }
}

/// How many characters at the end of `s` belong to `class`, counted as the
/// length of what is left.
pub open spec fn end_keep(s: Seq<char>, class: CharClass) -> int
    decreases s.len(),
{
    if s.len() > 0 && in_class(class, s.last()) {
        end_keep(s.drop_last(), class)
    } else {
        s.len() as int
    }
}

/// `s` without its leading characters of `class`.
pub open spec fn trim_start_spec(s: Seq<char>, class: CharClass) -> Seq<char> {
    s.skip(first_index(s, outside(class)))
}

/// `s` without its trailing characters of `class`.
pub open spec fn trim_end_spec(s: Seq<char>, class: CharClass) -> Seq<char> {
    s.take(end_keep(s, class))
}

/// `s` without its leading and trailing characters of `class`.
pub open spec fn trim_spec(s: Seq<char>, class: CharClass) -> Seq<char> {
    trim_end_spec(trim_start_spec(s, class), class)
}

/// Trimming leaves alone a sequence that neither begins nor ends with a
/// character of `class`.
pub proof fn lemma_trim_untouched(s: Seq<char>, class: CharClass)
    requires
        s.len() > 0,
        !in_class(class, s[0]),
        !in_class(class, s.last()),
    ensures
        trim_spec(s, class) == s,
{
    lemma_first_index_is(s, outside(class), 0);
    assert(s.skip(0) =~= s);
    assert(s.take(s.len() as int) =~= s);
}

/// What `end_keep` counts.
pub proof fn lemma_end_keep(s: Seq<char>, class: CharClass)
    ensures
        0 <= end_keep(s, class) <= s.len(),
        forall|j: int| end_keep(s, class) <= j < s.len() ==> in_class(class, #[trigger] s[j]),
        end_keep(s, class) > 0 ==> !in_class(class, s[end_keep(s, class) - 1]),
    decreases s.len(),
{
    if s.len() > 0 && in_class(class, s.last()) {
        lemma_end_keep(s.drop_last(), class);
        assert forall|j: int| end_keep(s, class) <= j < s.len() implies in_class(class, #[trigger] s[j]) by {
            if j < s.len() - 1 {
                assert(s[j] == s.drop_last()[j]);
            }
        }
    }
}

/// `end_keep` is `k` where `k` is what it counts.
pub proof fn lemma_end_keep_is(s: Seq<char>, class: CharClass, k: int)
    requires
        0 <= k <= s.len(),
        forall|j: int| k <= j < s.len() ==> in_class(class, #[trigger] s[j]),
        k > 0 ==> !in_class(class, s[k - 1]),
    ensures
        end_keep(s, class) == k,
    decreases s.len(),
{
    if s.len() > k {
        assert(in_class(class, s[s.len() - 1]));
        assert forall|j: int| k <= j < s.drop_last().len() implies in_class(class, #[trigger] s.drop_last()[j]) by {
            assert(s.drop_last()[j] == s[j]);
        }
        lemma_end_keep_is(s.drop_last(), class, k);
    }
}

/// The characters of `s` from `from` up to `to`.
pub fn slice_chars(s: &Vec<char>, from: usize, to: usize) -> (r: Vec<char>)
    requires
        from <= to <= s.len(),
    ensures
        r@ == s@.subrange(from as int, to as int),
{
    let mut r: Vec<char> = Vec::new();
    let mut i = from;
    while i < to
        invariant
            from <= i <= to,
            to <= s.len(),
            r@ == s@.subrange(from as int, i as int),
        decreases to - i,
    {
        r.push(s[i]);
        assert(s@.subrange(from as int, i + 1) =~= s@.subrange(from as int, i as int).push(s@[i as int]));
        i = i + 1;
    }
    r
}

/// `s` without its leading characters of `class`.
pub fn trim_start_chars(s: &Vec<char>, class: CharClass) -> (r: Vec<char>)
    ensures
        r@ == trim_start_spec(s@, class),
{
    let mut i: usize = 0;
    while i < s.len() && class_has(class, s[i])
        invariant
            i <= s.len(),
            forall|j: int| 0 <= j < i ==> !outside(class)(#[trigger] s@[j]),
        decreases s.len() - i,
    {
        i = i + 1;
    }
    proof {
        lemma_first_index_is(s@, outside(class), i as int);
    }
    slice_chars(s, i, s.len())
}

/// `s` without its trailing characters of `class`.
pub fn trim_end_chars(s: &Vec<char>, class: CharClass) -> (r: Vec<char>)
    ensures
        r@ == trim_end_spec(s@, class),
{
    let mut k: usize = s.len();
    while k > 0 && class_has(class, s[k - 1])
        invariant
            k <= s.len(),
            forall|j: int| k <= j < s.len() ==> in_class(class, #[trigger] s@[j]),
        decreases k,
    {
        k = k - 1;
    }
    proof {
        lemma_end_keep_is(s@, class, k as int);
    }
    slice_chars(s, 0, k)
}

/// `s` without its leading and trailing characters of `class`.
pub fn trim_chars(s: &Vec<char>, class: CharClass) -> (r: Vec<char>)
    ensures
        r@ == trim_spec(s@, class),
{
    let t = trim_start_chars(s, class);
    trim_end_chars(&t, class)
}


/// The ASCII lower case of `c`; other characters are left as they are.
pub open spec fn ascii_lower(c: char) -> char {
    if 'A' <= c && c <= 'Z' {
        ((c as int) + 32) as char
    } else {
        c
    }
}

/// The ASCII lower case of a sequence of characters.
pub open spec fn lower_spec(s: Seq<char>) -> Seq<char> {
    s.map_values(|c: char| ascii_lower(c))
}

/// The ASCII lower case of `c`.
pub fn to_ascii_lower(c: char) -> (r: char)
    ensures
        r == ascii_lower(c),
{
    if 'A' <= c && c <= 'Z' {
        let b = c as u8;
        assert(b as int == c as int);
        ((b + 32) as char)
    } else {
        c
    }
}

/// The ASCII lower case of the characters of `s`.
pub fn lower_chars(s: &Vec<char>) -> (r: Vec<char>)
    ensures
        r@ == lower_spec(s@),
{
    let mut r: Vec<char> = Vec::new();
    let mut i: usize = 0;
    while i < s.len()
        invariant
            i <= s.len(),
            r@ == lower_spec(s@.take(i as int)),
        decreases s.len() - i,
    {
        r.push(to_ascii_lower(s[i]));
        assert(lower_spec(s@.take(i + 1)) =~= lower_spec(s@.take(i as int)).push(ascii_lower(s@[i as int])));
        i = i + 1;
    }
    assert(s@.take(i as int) =~= s@);
    r
}

/// Whether `pat` stands in `s` at position `i`.
pub open spec fn occurs_at(s: Seq<char>, pat: Seq<char>, i: int) -> bool {
    0 <= i && i + pat.len() <= s.len() && s.subrange(i, i + pat.len()) == pat
}

/// The first position, from `from` on, where `pat` stands in `s`.
pub open spec fn find_from(s: Seq<char>, pat: Seq<char>, from: int) -> Option<int>
    decreases s.len() + 1 - from,
{
    if from < 0 || from + pat.len() > s.len() {
        None
    } else if occurs_at(s, pat, from) {
        Some(from)
    } else {
        find_from(s, pat, from + 1)
    }
}

/// The first position where `pat` stands in `s`.
pub open spec fn find_spec(s: Seq<char>, pat: Seq<char>) -> Option<int> {
    find_from(s, pat, 0)
}

/// Whether `pat` stands somewhere in `s`.
pub open spec fn contains_spec(s: Seq<char>, pat: Seq<char>) -> bool {
    find_spec(s, pat) is Some
}

/// Whether `s` begins with `pat`.
pub open spec fn starts_with_spec(s: Seq<char>, pat: Seq<char>) -> bool {
    pat.len() <= s.len() && s.take(pat.len() as int) == pat
}

/// Whether `pat` stands in `s` at position `i`.
pub fn occurs_at_exec(s: &Vec<char>, pat: &Vec<char>, i: usize) -> (r: bool)
    requires
        i + pat.len() <= s.len(),
    ensures
        r == occurs_at(s@, pat@, i as int),
{
    let mut j: usize = 0;
    while j < pat.len()
        invariant
            j <= pat.len(),
            i + pat.len() <= s.len(),
            s@.subrange(i as int, i + j) == pat@.take(j as int),
        decreases pat.len() - j,
    {
        if s[i + j] != pat[j] {
            assert(s@.subrange(i as int, i + pat.len())[j as int] != pat@[j as int]);
            return false;
        }
        assert(s@.subrange(i as int, i + j + 1) =~= s@.subrange(i as int, i + j).push(s@[i + j]));
        assert(pat@.take(j + 1) =~= pat@.take(j as int).push(pat@[j as int]));
        j = j + 1;
    }
    assert(pat@.take(j as int) =~= pat@);
    true
}

/// The first position where `pat` stands in `s`.
pub fn find_chars(s: &Vec<char>, pat: &Vec<char>) -> (r: Option<usize>)
    ensures
        match r {
            Some(i) => find_spec(s@, pat@) == Some(i as int),
            None => find_spec(s@, pat@) is None,
        },
{
    if pat.len() > s.len() {
        return None;
    }
    let last = s.len() - pat.len();
    let mut i: usize = 0;
    while i <= last
        invariant
            pat.len() <= s.len(),
            last == s.len() - pat.len(),
            i <= last + 1,
            find_spec(s@, pat@) == find_from(s@, pat@, i as int),
        decreases last + 1 - i,
    {
        if occurs_at_exec(s, pat, i) {
            assert(find_from(s@, pat@, i as int) == Some(i as int));
            return Some(i);
        }
        assert(find_from(s@, pat@, i as int) == find_from(s@, pat@, i + 1));
        if i == last {
            assert(find_from(s@, pat@, i + 1) is None);
            return None;
        }
        i = i + 1;
    }
    None
}

/// Whether `pat` stands somewhere in `s`.
pub fn contains_chars(s: &Vec<char>, pat: &Vec<char>) -> (r: bool)
    ensures
        r == contains_spec(s@, pat@),
{
    find_chars(s, pat).is_some()
}

/// Whether `s` begins with `pat`.
pub fn starts_with_chars(s: &Vec<char>, pat: &Vec<char>) -> (r: bool)
    ensures
        r == starts_with_spec(s@, pat@),
{
    if pat.len() > s.len() {
        return false;
    }
    let r = occurs_at_exec(s, pat, 0);
    assert(s@.subrange(0, pat.len() as int) =~= s@.take(pat.len() as int));
    r
}

/// Sequences in which `pat` stands.
pub open spec fn containing(pat: Seq<char>) -> spec_fn(Seq<char>) -> bool {
    |l: Seq<char>| contains_spec(l, pat)
}

/// Sequences that begin with `pat`.
pub open spec fn starting_with(pat: Seq<char>) -> spec_fn(Seq<char>) -> bool {
    |l: Seq<char>| starts_with_spec(l, pat)
}

/// The position of the first item in which `pat` stands, or the number of
/// items where none holds it.
pub fn first_containing(items: &Vec<Vec<char>>, pat: &Vec<char>) -> (r: usize)
    ensures
        r == first_index(char_views(items@), containing(pat@)),
{
    let ghost s = char_views(items@);
    let mut i: usize = 0;
    while i < items.len()
        invariant
            i <= items.len(),
            s == char_views(items@),
            forall|j: int| 0 <= j < i ==> !containing(pat@)(#[trigger] s[j]),
        decreases items.len() - i,
    {
        if contains_chars(&items[i], pat) {
            proof {
                lemma_first_index_is(s, containing(pat@), i as int);
            }
            return i;
        }
        i = i + 1;
    }
    proof {
        lemma_first_index_is(s, containing(pat@), i as int);
    }
    i
}

/// The position of the first item that begins with `pat`, or the number of
/// items where none does.
pub fn first_starting_with(items: &Vec<Vec<char>>, pat: &Vec<char>) -> (r: usize)
    ensures
        r == first_index(char_views(items@), starting_with(pat@)),
{
    let ghost s = char_views(items@);
    let mut i: usize = 0;
    while i < items.len()
        invariant
            i <= items.len(),
            s == char_views(items@),
            forall|j: int| 0 <= j < i ==> !starting_with(pat@)(#[trigger] s[j]),
        decreases items.len() - i,
    {
        if starts_with_chars(&items[i], pat) {
            proof {
                lemma_first_index_is(s, starting_with(pat@), i as int);
            }
            return i;
        }
        i = i + 1;
    }
    proof {
        lemma_first_index_is(s, starting_with(pat@), i as int);
    }
    i
}

/// Whether two character sequences are equal.
pub fn chars_eq(a: &Vec<char>, b: &Vec<char>) -> (r: bool)
    ensures
        r == (a@ == b@),
{
    if a.len() != b.len() {
        return false;
    }
    let r = occurs_at_exec(a, b, 0);
    assert(a@.subrange(0, b.len() as int) =~= a@);
    r
}


/// The pieces of `s` between the characters of `class`: what `str::split`
/// gives with such a pattern, empty pieces included.
pub open spec fn split_spec(s: Seq<char>, class: CharClass) -> Seq<Seq<char>>
    decreases s.len(),
{
    let i = first_index(s, inside(class));
    if i < s.len() {
        proof {
            lemma_first_index(s, inside(class));
        }
        seq![s.take(i)] + split_spec(s.skip(i + 1), class)
    } else {
        seq![s]
    }
}

/// The views of a sequence of character vectors.
pub open spec fn char_views(v: Seq<Vec<char>>) -> Seq<Seq<char>> {
    v.map_values(|x: Vec<char>| x@)
}

/// Splitting gives at least one piece.
pub proof fn lemma_split_nonempty(s: Seq<char>, class: CharClass)
    ensures
        split_spec(s, class).len() >= 1,
    decreases s.len(),
{
    lemma_first_index(s, inside(class));
    let i = first_index(s, inside(class));
    if i < s.len() {
        lemma_split_nonempty(s.skip(i + 1), class);
    }
}

/// The pieces of `s` between the characters of `class`.
pub fn split_chars(s: &Vec<char>, class: CharClass) -> (r: Vec<Vec<char>>)
    ensures
        char_views(r@) == split_spec(s@, class),
{
    let mut pieces: Vec<Vec<char>> = Vec::new();
    let mut start: usize = 0;
    let mut i: usize = 0;
    assert(s@.skip(0) =~= s@);
    while i < s.len()
        invariant
            start <= i <= s.len(),
            split_spec(s@, class) == char_views(pieces@) + split_spec(s@.skip(start as int), class),
            forall|j: int| start <= j < i ==> !inside(class)(#[trigger] s@[j]),
        decreases s.len() - i,
    {
        if class_has(class, s[i]) {
            let ghost rest = s@.skip(start as int);
            proof {
                assert forall|j: int| 0 <= j < i - start implies !inside(class)(#[trigger] rest[j]) by {
                    assert(rest[j] == s@[start + j]);
                }
                assert(rest[i - start] == s@[i as int]);
                lemma_first_index_is(rest, inside(class), i - start);
                assert(rest.take(i - start) =~= s@.subrange(start as int, i as int));
                assert(rest.skip(i - start + 1) =~= s@.skip(i + 1));
            }
            let piece = slice_chars(s, start, i);
            let ghost before = pieces@;
            pieces.push(piece);
            proof {
                assert(char_views(pieces@) =~= char_views(before).push(piece@));
                assert(split_spec(rest, class) == seq![rest.take(i - start)] + split_spec(rest.skip(i - start + 1), class));
                assert(char_views(before) + split_spec(rest, class) =~= char_views(pieces@) + split_spec(s@.skip(i + 1), class));
            }
            start = i + 1;
        }
        i = i + 1;
    }
    let ghost rest = s@.skip(start as int);
    proof {
        assert forall|j: int| 0 <= j < rest.len() implies !inside(class)(#[trigger] rest[j]) by {
            assert(rest[j] == s@[start + j]);
        }
        lemma_first_index_is(rest, inside(class), rest.len() as int);
    }
    let piece = slice_chars(s, start, s.len());
    let ghost before = pieces@;
    pieces.push(piece);
    proof {
        assert(piece@ =~= rest);
        assert(char_views(pieces@) =~= char_views(before).push(piece@));
        assert(char_views(before) + seq![rest] =~= char_views(pieces@));
    }
    pieces
}

/// Non-empty sequences.
pub open spec fn non_empty() -> spec_fn(Seq<char>) -> bool {
    |w: Seq<char>| w.len() > 0
}

/// The words of `s`: its runs of non-whitespace characters, as
/// `str::split_whitespace` gives them.
pub open spec fn words_spec(s: Seq<char>) -> Seq<Seq<char>> {
    split_spec(s, CharClass::Whitespace).filter(non_empty())
}

/// The words of `s`.
pub fn words_chars(s: &Vec<char>) -> (r: Vec<Vec<char>>)
    ensures
        char_views(r@) == words_spec(s@),
{
    let pieces = split_chars(s, CharClass::Whitespace);
    let ghost all = char_views(pieces@);
    let mut r: Vec<Vec<char>> = Vec::new();
    let mut i: usize = 0;
    proof {
        reveal(Seq::filter);
        assert(all.take(0).filter(non_empty()) =~= Seq::<Seq<char>>::empty());
    }
    while i < pieces.len()
        invariant
            i <= pieces.len(),
            all == char_views(pieces@),
            char_views(r@) == all.take(i as int).filter(non_empty()),
        decreases pieces.len() - i,
    {
        proof {
            assert(all.take(i + 1) =~= all.take(i as int).push(all[i as int]));
            all.take(i as int).lemma_filter_push(all[i as int], non_empty());
        }
        if pieces[i].len() > 0 {
            let w = slice_chars(&pieces[i], 0, pieces[i].len());
            let ghost before = r@;
            r.push(w);
            assert(w@ =~= all[i as int]);
            assert(char_views(r@) =~= char_views(before).push(w@));
        }
        i = i + 1;
    }
    assert(all.take(i as int) =~= all);
    r
}

/// A line without a final carriage return.
pub open spec fn strip_cr(line: Seq<char>) -> Seq<char> {
    if line.len() > 0 && line.last() == '\r' {
        line.drop_last()
    } else {
        line
    }
}

/// The lines of `s`, as `str::lines` gives them: split at each line feed,
/// a carriage return before it dropped; a final line feed ends the last line
/// and starts none.
pub open spec fn lines_spec(s: Seq<char>) -> Seq<Seq<char>> {
    let pieces = split_spec(s, CharClass::One('\n'));
    let k = pieces.len() - 1;
    pieces.take(k).map_values(|p: Seq<char>| strip_cr(p)) + if pieces[k].len() == 0 {
        Seq::<Seq<char>>::empty()
    } else {
        seq![pieces[k]]
    }
}

/// The lines of `s`.
pub fn lines_chars(s: &Vec<char>) -> (r: Vec<Vec<char>>)
    ensures
        char_views(r@) == lines_spec(s@),
{
    let pieces = split_chars(s, CharClass::One('\n'));
    let ghost all = char_views(pieces@);
    proof {
        lemma_split_nonempty(s@, CharClass::One('\n'));
    }
    let k = pieces.len() - 1;
    let mut r: Vec<Vec<char>> = Vec::new();
    let mut i: usize = 0;
    while i < k
        invariant
            i <= k,
            k == pieces.len() - 1,
            all == char_views(pieces@),
            char_views(r@) == all.take(i as int).map_values(|p: Seq<char>| strip_cr(p)),
        decreases k - i,
    {
        let p = &pieces[i];
        let line = if p.len() > 0 && p[p.len() - 1] == '\r' {
            slice_chars(p, 0, p.len() - 1)
        } else {
            slice_chars(p, 0, p.len())
        };
        assert(line@ =~= strip_cr(all[i as int]));
        let ghost before = r@;
        r.push(line);
        assert(char_views(r@) =~= char_views(before).push(line@));
        assert(all.take(i + 1).map_values(|p: Seq<char>| strip_cr(p)) =~= all.take(i as int).map_values(
            |p: Seq<char>| strip_cr(p),
        ).push(strip_cr(all[i as int])));
        i = i + 1;
    }
    if pieces[k].len() > 0 {
        let last = slice_chars(&pieces[k], 0, pieces[k].len());
        let ghost before = r@;
        r.push(last);
        assert(char_views(r@) =~= char_views(before).push(last@));
        assert(last@ =~= all[k as int]);
    }
    assert(char_views(r@) =~= lines_spec(s@));
    r
}

/// `s` cut at the first place where `pat` stands: what comes before it and
/// what comes after it.
pub open spec fn split_once_spec(s: Seq<char>, pat: Seq<char>) -> Option<(Seq<char>, Seq<char>)> {
    match find_spec(s, pat) {
        Some(i) => Some((s.take(i), s.skip(i + pat.len()))),
        None => None,
    }
}

/// What `find_from` finds.
pub proof fn lemma_find_from(s: Seq<char>, pat: Seq<char>, from: int)
    ensures
        find_from(s, pat, from) matches Some(i) ==> from <= i && occurs_at(s, pat, i),
    decreases s.len() + 1 - from,
{
    if !(from < 0 || from + pat.len() > s.len()) && !occurs_at(s, pat, from) {
        lemma_find_from(s, pat, from + 1);
    }
}

/// `s` cut at the first place where `pat` stands.
pub fn split_once_chars(s: &Vec<char>, pat: &Vec<char>) -> (r: Option<(Vec<char>, Vec<char>)>)
    ensures
        match r {
            Some((a, b)) => split_once_spec(s@, pat@) == Some((a@, b@)),
            None => split_once_spec(s@, pat@) is None,
        },
{
    match find_chars(s, pat) {
        Some(i) => {
            proof {
                lemma_find_from(s@, pat@, 0);
                assert(find_from(s@, pat@, 0) == Some(i as int));
                assert(occurs_at(s@, pat@, i as int));
                assert(i + pat@.len() <= s@.len());
            }
            assert(i + pat.len() <= s.len());
            let a = slice_chars(s, 0, i);
            let b = slice_chars(s, i + pat.len(), s.len());
            assert(a@ =~= s@.take(i as int));
            assert(b@ =~= s@.skip(i + pat.len()));
            Some((a, b))
        },
        None => None,
    }
}

/// Whether `c` is an ASCII decimal digit.
pub open spec fn is_digit(c: char) -> bool {
    '0' <= c && c <= '9'
}

/// Whether every character of `s` is a decimal digit.
pub open spec fn all_digits(s: Seq<char>) -> bool {
    forall|i: int| 0 <= i < s.len() ==> is_digit(#[trigger] s[i])
}

/// The number that a run of decimal digits writes.
pub open spec fn digits_value(s: Seq<char>) -> int
    decreases s.len(),
{
    if s.len() == 0 {
        0
    } else {
        digits_value(s.drop_last()) * 10 + (s.last() as int - '0' as int)
    }
}

/// What `str::parse` gives for an unsigned integer type whose largest value
/// is `max`: an optional `+`, then one or more decimal digits, naming a
/// number no larger than `max`.
pub open spec fn parse_unsigned_spec(s: Seq<char>, max: int) -> Option<int> {
    let d = if s.len() > 0 && s[0] == '+' { s.drop_first() } else { s };
    if d.len() > 0 && all_digits(d) && digits_value(d) <= max {
        Some(digits_value(d))
    } else {
        None
    }
}

/// What `str::parse` gives for a signed integer type from `min` to `max`:
/// an optional `+` or `-`, then one or more decimal digits, naming a number
/// in range.
pub open spec fn parse_signed_spec(s: Seq<char>, min: int, max: int) -> Option<int> {
    if s.len() > 0 && s[0] == '-' {
        let d = s.drop_first();
        if d.len() > 0 && all_digits(d) && -digits_value(d) >= min {
            Some(-digits_value(d))
        } else {
            None
        }
    } else {
        parse_unsigned_spec(s, max)
    }
}

/// A run of digits names a number that is not negative.
pub proof fn lemma_digits_value_nonneg(s: Seq<char>)
    requires
        all_digits(s),
    ensures
        digits_value(s) >= 0,
    decreases s.len(),
{
    if s.len() > 0 {
        lemma_digits_value_nonneg(s.drop_last());
    }
}

/// The number that the digits of `s` from `from` on write, capped at `cap`;
/// `None` where one of them is not a digit.
pub fn capped_digits_value(s: &Vec<char>, from: usize, cap: u64) -> (r: Option<u64>)
    requires
        from <= s.len(),
        cap < 0x1000_0000_0000,
    ensures
        match r {
            Some(v) => all_digits(s@.skip(from as int)) && v == if digits_value(s@.skip(from as int)) < cap {
                digits_value(s@.skip(from as int))
            } else {
                cap as int
            },
            None => !all_digits(s@.skip(from as int)),
        },
{
    let mut v: u64 = 0;
    let mut i = from;
    assert(s@.subrange(from as int, from as int) =~= Seq::<char>::empty());
    while i < s.len()
        invariant
            from <= i <= s.len(),
            cap < 0x1000_0000_0000,
            all_digits(s@.subrange(from as int, i as int)),
            v as int == if digits_value(s@.subrange(from as int, i as int)) < cap {
                digits_value(s@.subrange(from as int, i as int))
            } else {
                cap as int
            },
        decreases s.len() - i,
    {
        let c = s[i];
        let ghost prefix = s@.subrange(from as int, i as int);
        let ghost next = s@.subrange(from as int, i + 1);
        assert(next.drop_last() =~= prefix);
        assert(next.last() == c);
        if !('0' <= c && c <= '9') {
            assert(!is_digit(s@.skip(from as int)[i - from]));
            return None;
        }
        let d = (c as u32 - '0' as u32) as u64;
        assert(d as int == c as int - '0' as int);
        proof {
            lemma_digits_value_nonneg(prefix);
        }
        let w = v * 10 + d;
        v = if w < cap { w } else { cap };
        assert(all_digits(next)) by {
            assert forall|k: int| 0 <= k < next.len() implies is_digit(#[trigger] next[k]) by {
                if k < prefix.len() {
                    assert(next[k] == prefix[k]);
                }
            }
        }
        i = i + 1;
    }
    assert(s@.subrange(from as int, i as int) =~= s@.skip(from as int));
    Some(v)
}

/// Reads a `u8` written in decimal, as `str::parse::<u8>` does.
pub fn parse_u8_chars(s: &Vec<char>) -> (r: Option<u8>)
    ensures
        match r {
            Some(v) => parse_unsigned_spec(s@, 255) == Some(v as int),
            None => parse_unsigned_spec(s@, 255) is None,
        },
{
    let from: usize = if s.len() > 0 && s[0] == '+' { 1 } else { 0 };
    assert(from == 1 ==> s@.skip(1) =~= s@.drop_first());
    assert(from == 0 ==> s@.skip(0) =~= s@);
    if from >= s.len() {
        return None;
    }
    match capped_digits_value(s, from, 256) {
        Some(v) => {
            if v < 256 {
                Some(v as u8)
            } else {
                None
            }
        },
        None => None,
    }
}

/// Reads an `i32` written in decimal, as `str::parse::<i32>` does.
pub fn parse_i32_chars(s: &Vec<char>) -> (r: Option<i32>)
    ensures
        match r {
            Some(v) => parse_signed_spec(s@, i32::MIN as int, i32::MAX as int) == Some(v as int),
            None => parse_signed_spec(s@, i32::MIN as int, i32::MAX as int) is None,
        },
{
    let negative = s.len() > 0 && s[0] == '-';
    let from: usize = if s.len() > 0 && (s[0] == '+' || s[0] == '-') { 1 } else { 0 };
    assert(from == 1 ==> s@.skip(1) =~= s@.drop_first());
    assert(from == 0 ==> s@.skip(0) =~= s@);
    if from >= s.len() {
        return None;
    }
    match capped_digits_value(s, from, 0x1_0000_0000) {
        Some(v) => {
            if negative {
                if v <= 0x8000_0000 {
                    Some((0 - (v as i64)) as i32)
                } else {
                    None
                }
            } else {
                if v <= 0x7fff_ffff {
                    Some(v as i32)
                } else {
                    None
                }
            }
        },
        None => None,
    }
}


/// Calls `String::push`, which appends `c` to the end of the string (its
/// documentation says no more, and nothing more is claimed).
#[verifier::external_body]
fn push_char(s: &mut String, c: char)
    ensures
        final(s)@ == old(s)@.push(c),
{
    s.push(c);
}

/// The character of a decimal digit.
pub open spec fn digit_char(d: int) -> char {
    (d + '0' as int) as char
}

/// The decimal writing of `n`, without leading zeros.
pub open spec fn decimal_spec(n: nat) -> Seq<char>
    decreases n,
{
    if n < 10 {
        seq![digit_char(n as int)]
    } else {
        decimal_spec(n / 10).push(digit_char((n % 10) as int))
    }
}

/// The character of the decimal digit `d`.
fn digit(d: u8) -> (r: char)
    requires
        d < 10,
    ensures
        r == digit_char(d as int),
{
    ((d + 48) as u8) as char
}

/// `v` written in decimal, as `format!("{}", v)` writes it.
pub fn u8_decimal(v: u8) -> (r: String)
    ensures
        r@ == decimal_spec(v as nat),
{
    let mut r = String::new();
    if v >= 100 {
        push_char(&mut r, digit(v / 100));
        push_char(&mut r, digit((v / 10) % 10));
        push_char(&mut r, digit(v % 10));
        assert(decimal_spec((v / 100) as nat) == seq![digit_char((v / 100) as int)]);
        assert(decimal_spec((v / 10) as nat) =~= decimal_spec((v / 100) as nat).push(digit_char(((v / 10) % 10) as int)));
        assert(r@ =~= decimal_spec((v / 10) as nat).push(digit_char((v % 10) as int)));
    } else if v >= 10 {
        push_char(&mut r, digit(v / 10));
        push_char(&mut r, digit(v % 10));
        assert(decimal_spec((v / 10) as nat) == seq![digit_char((v / 10) as int)]);
        assert(r@ =~= decimal_spec((v / 10) as nat).push(digit_char((v % 10) as int)));
    } else {
        push_char(&mut r, digit(v));
        assert(r@ =~= seq![digit_char(v as int)]);
    }
    r
}

/// A string of the characters of `v`.
pub fn string_from_chars(v: &Vec<char>) -> (r: String)
    ensures
        r@ == v@,
{
    let mut r = String::new();
    let mut i: usize = 0;
    while i < v.len()
        invariant
            i <= v.len(),
            r@ == v@.take(i as int),
        decreases v.len() - i,
    {
        push_char(&mut r, v[i]);
        assert(v@.take(i + 1) =~= v@.take(i as int).push(v@[i as int]));
        i = i + 1;
    }
    assert(v@.take(i as int) =~= v@);
    r
}

/// The first value present in `s`, if any.
pub open spec fn first_some<A>(s: Seq<Option<A>>) -> Option<A>
    decreases s.len(),
{
    if s.len() == 0 {
        None
    } else if s[0] is Some {
        s[0]
    } else {
        first_some(s.drop_first())
    }
}

/// Stepping over an absent value does not change the first value present.
pub proof fn lemma_first_some_step<A>(s: Seq<Option<A>>, i: int)
    requires
        0 <= i < s.len(),
    ensures
        first_some(s.skip(i)) == if s[i] is Some {
            s[i]
        } else {
            first_some(s.skip(i + 1))
        },
{
    assert(s.skip(i).drop_first() =~= s.skip(i + 1));
    assert(s.skip(i)[0] == s[i]);
}

/// The first value present is that at the first index that holds one.
pub proof fn lemma_first_some_is<A>(s: Seq<Option<A>>, i: int)
    requires
        0 <= i < s.len(),
        s[i] is Some,
        forall|j: int| 0 <= j < i ==> s[j] is None,
    ensures
        first_some(s) == s[i],
    decreases i,
{
    if i > 0 {
        assert(s[0] is None);
        assert forall|j: int| 0 <= j < i - 1 implies s.drop_first()[j] is None by {
            assert(s.drop_first()[j] == s[j + 1]);
        }
        lemma_first_some_is(s.drop_first(), i - 1);
    }
}

/// Where no index holds a value, none is present.
pub proof fn lemma_first_some_none<A>(s: Seq<Option<A>>)
    requires
        forall|j: int| 0 <= j < s.len() ==> s[j] is None,
    ensures
        first_some(s) is None,
    decreases s.len(),
{
    if s.len() > 0 {
        assert(s[0] is None);
        assert forall|j: int| 0 <= j < s.drop_first().len() implies s.drop_first()[j] is None by {
            assert(s.drop_first()[j] == s[j + 1]);
        }
        lemma_first_some_none(s.drop_first());
    }
}

/// Nothing is present in an empty sequence.
pub proof fn lemma_first_some_end<A>(s: Seq<Option<A>>)
    ensures
        first_some(s.skip(s.len() as int)) is None,
{
    assert(s.skip(s.len() as int).len() == 0);
}

} // verus!
