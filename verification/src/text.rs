//! Text over characters: trimming, searching, splitting and replacing.
//!
//! A text is modelled by the sequence of its characters. Every operation comes as a
//! specification function on such sequences and as an executable function on strings whose
//! contract equates the two.

use vstd::prelude::*;
use vstd::string::*;

verus! {

/// `String::push` of the standard library appends the given character to the end of the string.
pub assume_specification[ String::push ](s: &mut String, ch: char)
    ensures
        final(s)@ == old(s)@.push(ch),
;

// ---------------------------------------------------------------------------
// Characters
// ---------------------------------------------------------------------------
/// The characters with the Unicode `White_Space` property.
pub open spec fn is_white(c: char) -> bool {
    ||| 0x9 <= c as u32 <= 0xd
    ||| c as u32 == 0x20
    ||| c as u32 == 0x85
    ||| c as u32 == 0xa0
    ||| c as u32 == 0x1680
    ||| 0x2000 <= c as u32 <= 0x200a
    ||| c as u32 == 0x2028
    ||| c as u32 == 0x2029
    ||| c as u32 == 0x202f
    ||| c as u32 == 0x205f
    ||| c as u32 == 0x3000
}

/// Space, tab, line feed, form feed and carriage return.
pub open spec fn is_ascii_white(c: char) -> bool {
    c as u32 == 0x20 || c as u32 == 0x9 || c as u32 == 0xa || c as u32 == 0xc || c as u32 == 0xd
}

pub open spec fn is_digit(c: char) -> bool {
    '0' <= c <= '9'
}

pub open spec fn is_alnum(c: char) -> bool {
    is_digit(c) || 'a' <= c <= 'z' || 'A' <= c <= 'Z'
}

/// The punctuation that may enclose a link in running text.
pub open spec fn is_link_punctuation(c: char) -> bool {
    c == '(' || c == ')' || c == '[' || c == ']' || c == '{' || c == '}' || c == '<' || c == '>'
        || c == '"' || c == '\'' || c == ',' || c == '.' || c == '!' || c == '?' || c == ';' || c
        == ':'
}

/// ASCII lower case of one character.
pub open spec fn lower_char(c: char) -> char {
    if 'A' <= c <= 'Z' {
        ((c as u32 + 32) as u32) as char
    } else {
        c
    }
}

pub fn is_white_char(c: char) -> (r: bool)
    ensures
        r == is_white(c),
{
    let n: u32 = c as u32;
    (0x9 <= n && n <= 0xd) || n == 0x20 || n == 0x85 || n == 0xa0 || n == 0x1680 || (0x2000 <= n
        && n <= 0x200a) || n == 0x2028 || n == 0x2029 || n == 0x202f || n == 0x205f || n == 0x3000
}

pub fn is_digit_char(c: char) -> (r: bool)
    ensures
        r == is_digit(c),
{
    let n: u32 = c as u32;
    48 <= n && n <= 57
}

pub fn is_alnum_char(c: char) -> (r: bool)
    ensures
        r == is_alnum(c),
{
    let n: u32 = c as u32;
    (48 <= n && n <= 57) || (97 <= n && n <= 122) || (65 <= n && n <= 90)
}

pub fn lower_of_char(c: char) -> (r: char)
    ensures
        r == lower_char(c),
{
    let n: u32 = c as u32;
    if 65 <= n && n <= 90 {
        let b: u8 = (n as u8) + 32;
        b as char
    } else {
        c
    }
}

/// A class of characters that trimming and searching look for.
#[derive(Clone, Copy)]
pub enum CharClass {
    /// Unicode white space.
    White,
    /// ASCII white space and the closing bracket of a tag.
    TagEnd,
    /// The punctuation that may enclose a link.
    LinkPunctuation,
    /// One character.
    Only(char),
}

pub open spec fn in_class(k: CharClass, c: char) -> bool {
    match k {
        CharClass::White => is_white(c),
        CharClass::TagEnd => is_ascii_white(c) || c == '>',
        CharClass::LinkPunctuation => is_link_punctuation(c),
        CharClass::Only(d) => c == d,
    }
}

pub fn class_has(k: CharClass, c: char) -> (r: bool)
    ensures
        r == in_class(k, c),
{
    match k {
        CharClass::White => is_white_char(c),
        CharClass::TagEnd => {
            let n: u32 = c as u32;
            n == 0x20 || n == 0x9 || n == 0xa || n == 0xc || n == 0xd || c == '>'
        },
        CharClass::LinkPunctuation => {
            c == '(' || c == ')' || c == '[' || c == ']' || c == '{' || c == '}' || c == '<' || c
                == '>' || c == '"' || c == '\'' || c == ',' || c == '.' || c == '!' || c == '?' || c
                == ';' || c == ':'
        },
        CharClass::Only(d) => c == d,
    }
}

// ---------------------------------------------------------------------------
// Strings and character vectors
// ---------------------------------------------------------------------------
/// The views of a sequence of strings.
pub open spec fn views(v: Seq<String>) -> Seq<Seq<char>> {
    Seq::new(v.len(), |i: int| v[i]@)
}

/// The view of a string that may be missing.
pub open spec fn opt_view(o: Option<String>) -> Option<Seq<char>> {
    match o {
        Some(s) => Some(s@),
        None => None,
    }
}

/// The view of a string slice that may be missing.
pub open spec fn opt_str(o: Option<&str>) -> Option<Seq<char>> {
    match o {
        Some(s) => Some(s@),
        None => None,
    }
}

/// The number of bytes of the UTF-8 encoding.
pub open spec fn byte_len(s: Seq<char>) -> nat {
    vstd::utf8::encode_utf8(s).len()
}

pub fn byte_len_of(s: &str) -> (r: usize)
    ensures
        r == byte_len(s@),
{
    s.as_bytes().len()
}

pub fn chars_of(s: &str) -> (r: Vec<char>)
    ensures
        r@ == s@,
{
    let mut out: Vec<char> = Vec::new();
    for c in it: s.chars()
        invariant
            out@ == it.seq().take(it.index()),
            it.seq() == s@,
    {
        out.push(c);
    }
    out
}

/// The string of the characters from `from` up to `to`.
pub fn string_of(v: &Vec<char>, from: usize, to: usize) -> (r: String)
    requires
        from <= to <= v.len(),
    ensures
        r@ == v@.subrange(from as int, to as int),
{
    let mut out: String = String::new();
    let mut i: usize = from;
    while i < to
        invariant
            from <= i <= to <= v.len(),
            out@ == v@.subrange(from as int, i as int),
        decreases to - i,
    {
        out.push(v[i]);
        i = i + 1;
    }
    out
}

pub fn str_eq(a: &str, b: &str) -> (r: bool)
    ensures
        r == (a@ == b@),
{
    let x: Vec<char> = chars_of(a);
    let y: Vec<char> = chars_of(b);
    if x.len() != y.len() {
        return false;
    }
    let mut i: usize = 0;
    while i < x.len()
        invariant
            x.len() == y.len(),
            i <= x.len(),
            x@ == a@,
            y@ == b@,
            forall|j: int| 0 <= j < i ==> x@[j] == y@[j],
        decreases x.len() - i,
    {
        if x[i] != y[i] {
            return false;
        }
        i = i + 1;
    }
    assert(a@ =~= b@);
    true
}

// ---------------------------------------------------------------------------
// Lower case
// ---------------------------------------------------------------------------
/// ASCII lower case.
pub open spec fn lower(s: Seq<char>) -> Seq<char> {
    Seq::new(s.len(), |i: int| lower_char(s[i]))
}

pub fn to_lower(s: &str) -> (r: String)
    ensures
        r@ == lower(s@),
{
    let mut out: String = String::new();
    for c in it: s.chars()
        invariant
            out@ =~= lower(s@.take(it.index())),
            it.seq() == s@,
    {
        out.push(lower_of_char(c));
    }
    out
}

pub fn lower_chars(v: &Vec<char>) -> (r: Vec<char>)
    ensures
        r@ == lower(v@),
{
    let mut out: Vec<char> = Vec::new();
    let mut i: usize = 0;
    while i < v.len()
        invariant
            i <= v.len(),
            out@ =~= lower(v@.take(i as int)),
        decreases v.len() - i,
    {
        out.push(lower_of_char(v[i]));
        i = i + 1;
    }
    assert(v@.take(v.len() as int) =~= v@);
    out
}

pub fn eq_ignore_case(a: &str, b: &str) -> (r: bool)
    ensures
        r == (lower(a@) == lower(b@)),
{
    str_eq(to_lower(a).as_str(), to_lower(b).as_str())
}

/// Lower-casing twice is lower-casing once.
pub proof fn law_lower_idempotent(s: Seq<char>)
    ensures
        lower(lower(s)) == lower(s),
{
    assert(lower(lower(s)) =~= lower(s));
}

// ---------------------------------------------------------------------------
// Runs of characters
// ---------------------------------------------------------------------------
/// The first position from `i` on whose character is outside the class, or the end.
pub open spec fn run_end(s: Seq<char>, k: CharClass, i: int) -> int
    decreases s.len() - i,
{
    if 0 <= i < s.len() && in_class(k, s[i]) {
        run_end(s, k, i + 1)
    } else {
        i
    }
}

/// The first position from `i` on whose character is in the class, or the end.
pub open spec fn run_until(s: Seq<char>, k: CharClass, i: int) -> int
    decreases s.len() - i,
{
    if 0 <= i < s.len() && !in_class(k, s[i]) {
        run_until(s, k, i + 1)
    } else {
        i
    }
}

/// The position behind the last character before `j` that is outside the class, or the start.
pub open spec fn run_start(s: Seq<char>, k: CharClass, j: int) -> int
    decreases j,
{
    if 0 < j <= s.len() && in_class(k, s[j - 1]) {
        run_start(s, k, j - 1)
    } else {
        j
    }
}

pub proof fn lemma_run_end(s: Seq<char>, k: CharClass, i: int)
    requires
        0 <= i <= s.len(),
    ensures
        i <= run_end(s, k, i) <= s.len(),
        forall|j: int| i <= j < run_end(s, k, i) ==> in_class(k, #[trigger] s[j]),
        run_end(s, k, i) < s.len() ==> !in_class(k, s[run_end(s, k, i)]),
    decreases s.len() - i,
{
    if i < s.len() && in_class(k, s[i]) {
        lemma_run_end(s, k, i + 1);
    }
}

pub proof fn lemma_run_until(s: Seq<char>, k: CharClass, i: int)
    requires
        0 <= i <= s.len(),
    ensures
        i <= run_until(s, k, i) <= s.len(),
        forall|j: int| i <= j < run_until(s, k, i) ==> !in_class(k, #[trigger] s[j]),
        run_until(s, k, i) < s.len() ==> in_class(k, s[run_until(s, k, i)]),
    decreases s.len() - i,
{
    if i < s.len() && !in_class(k, s[i]) {
        lemma_run_until(s, k, i + 1);
    }
}

pub proof fn lemma_run_start(s: Seq<char>, k: CharClass, j: int)
    requires
        0 <= j <= s.len(),
    ensures
        0 <= run_start(s, k, j) <= j,
        forall|i: int| run_start(s, k, j) <= i < j ==> in_class(k, #[trigger] s[i]),
        run_start(s, k, j) > 0 ==> !in_class(k, s[run_start(s, k, j) - 1]),
    decreases j,
{
    if 0 < j && in_class(k, s[j - 1]) {
        lemma_run_start(s, k, j - 1);
    }
}

pub fn skip_run(v: &Vec<char>, k: CharClass, from: usize) -> (r: usize)
    requires
        from <= v.len(),
    ensures
        r == run_end(v@, k, from as int),
        from <= r <= v.len(),
{
    let mut i: usize = from;
    while i < v.len() && class_has(k, v[i])
        invariant
            from <= i <= v.len(),
            run_end(v@, k, i as int) == run_end(v@, k, from as int),
        decreases v.len() - i,
    {
        i = i + 1;
    }
    i
}

pub fn seek_run(v: &Vec<char>, k: CharClass, from: usize) -> (r: usize)
    requires
        from <= v.len(),
    ensures
        r == run_until(v@, k, from as int),
        from <= r <= v.len(),
{
    let mut i: usize = from;
    while i < v.len() && !class_has(k, v[i])
        invariant
            from <= i <= v.len(),
            run_until(v@, k, i as int) == run_until(v@, k, from as int),
        decreases v.len() - i,
    {
        i = i + 1;
    }
    i
}

fn skip_run_back(v: &Vec<char>, k: CharClass, from: usize, until: usize) -> (r: usize)
    requires
        from <= until <= v.len(),
    ensures
        r as int == (if run_start(v@, k, until as int) < from {
            from as int
        } else {
            run_start(v@, k, until as int)
        }),
        from <= r <= until,
{
    let mut j: usize = until;
    while j > from && class_has(k, v[j - 1])
        invariant
            from <= j <= until <= v.len(),
            run_start(v@, k, j as int) == run_start(v@, k, until as int),
        decreases j,
    {
        j = j - 1;
    }
    proof {
        lemma_run_start(v@, k, j as int);
    }
    j
}

// ---------------------------------------------------------------------------
// Trimming
// ---------------------------------------------------------------------------
pub open spec fn trim_start_of(s: Seq<char>, k: CharClass) -> Seq<char> {
    s.subrange(run_end(s, k, 0), s.len() as int)
}

pub open spec fn trim_end_of(s: Seq<char>, k: CharClass) -> Seq<char> {
    s.subrange(0, run_start(s, k, s.len() as int))
}

/// The text without the characters of the class at its two ends.
pub open spec fn trim_of(s: Seq<char>, k: CharClass) -> Seq<char> {
    trim_end_of(trim_start_of(s, k), k)
}

/// The text without white space at its two ends.
pub open spec fn trim(s: Seq<char>) -> Seq<char> {
    trim_of(s, CharClass::White)
}

proof fn lemma_run_start_suffix(s: Seq<char>, k: CharClass, from: int, j: int)
    requires
        0 <= from <= j <= s.len(),
    ensures
        run_start(s.subrange(from, s.len() as int), k, j - from) == (if run_start(s, k, j) < from {
            0
        } else {
            run_start(s, k, j) - from
        }),
    decreases j,
{
    let t = s.subrange(from, s.len() as int);
    if from < j && in_class(k, s[j - 1]) {
        assert(t[j - from - 1] == s[j - 1]);
        lemma_run_start_suffix(s, k, from, j - 1);
    } else if from == j {
        lemma_run_start(s, k, j);
    } else {
        assert(t[j - from - 1] == s[j - 1]);
    }
}

pub fn trim_chars(v: &Vec<char>, k: CharClass) -> (r: String)
    ensures
        r@ == trim_of(v@, k),
{
    let a: usize = skip_run(v, k, 0);
    let b: usize = skip_run_back(v, k, a, v.len());
    proof {
        lemma_run_start_suffix(v@, k, a as int, v.len() as int);
        let t = trim_start_of(v@, k);
        assert(t.len() == v.len() - a);
        assert(v@.subrange(a as int, b as int) =~= trim_of(v@, k));
    }
    string_of(v, a, b)
}

pub fn trim_matches(s: &str, k: CharClass) -> (r: String)
    ensures
        r@ == trim_of(s@, k),
{
    let v: Vec<char> = chars_of(s);
    trim_chars(&v, k)
}

pub fn trim_text(s: &str) -> (r: String)
    ensures
        r@ == trim(s@),
{
    trim_matches(s, CharClass::White)
}

pub fn trim_start_matches(s: &str, k: CharClass) -> (r: String)
    ensures
        r@ == trim_start_of(s@, k),
{
    let v: Vec<char> = chars_of(s);
    let a: usize = skip_run(&v, k, 0);
    string_of(&v, a, v.len())
}

pub fn trim_end_matches(s: &str, k: CharClass) -> (r: String)
    ensures
        r@ == trim_end_of(s@, k),
{
    let v: Vec<char> = chars_of(s);
    let b: usize = skip_run_back(&v, k, 0, v.len());
    proof {
        lemma_run_start(v@, k, v.len() as int);
    }
    string_of(&v, 0, b)
}

/// What trimming leaves: a part of the text that does not begin or end in the class.
pub proof fn law_trim(s: Seq<char>, k: CharClass)
    ensures
        trim_of(s, k).len() > 0 ==> !in_class(k, trim_of(s, k)[0]) && !in_class(
            k,
            trim_of(s, k).last(),
        ),
        exists|i: int, j: int|
            #![trigger s.subrange(i, j)]
            {
                &&& 0 <= i <= j <= s.len()
                &&& trim_of(s, k) == s.subrange(i, j)
                &&& forall|x: int| 0 <= x < i ==> in_class(k, #[trigger] s[x])
                &&& forall|x: int| j <= x < s.len() ==> in_class(k, #[trigger] s[x])
            },
{
    lemma_run_end(s, k, 0);
    let a = run_end(s, k, 0);
    let t = trim_start_of(s, k);
    lemma_run_start(t, k, t.len() as int);
    let b = run_start(t, k, t.len() as int);
    assert(trim_of(s, k) =~= s.subrange(a, a + b));
    assert forall|x: int| a + b <= x < s.len() implies in_class(k, #[trigger] s[x]) by {
        assert(t[x - a] == s[x]);
    }
    if trim_of(s, k).len() > 0 {
        assert(trim_of(s, k)[0] == s[a]);
        assert(trim_of(s, k).last() == t[b - 1]);
    }
}

/// A text that neither begins nor ends in the class is left as it is.
pub proof fn law_trim_fixed(s: Seq<char>, k: CharClass)
    requires
        s.len() > 0 ==> !in_class(k, s[0]) && !in_class(k, s.last()),
    ensures
        trim_of(s, k) == s,
{
    assert(trim_start_of(s, k) =~= s);
    assert(trim_of(s, k) =~= s);
}

/// Trimming twice is trimming once.
pub proof fn law_trim_idempotent(s: Seq<char>, k: CharClass)
    ensures
        trim_of(trim_of(s, k), k) == trim_of(s, k),
{
    law_trim(s, k);
    law_trim_fixed(trim_of(s, k), k);
}

/// White space around a text is trimmed away with that of the text.
pub proof fn lemma_trim_around(before: Seq<char>, s: Seq<char>, after: Seq<char>)
    requires
        trim(s) == s,
        forall|i: int| 0 <= i < before.len() ==> is_white(#[trigger] before[i]),
        forall|i: int| 0 <= i < after.len() ==> is_white(#[trigger] after[i]),
    ensures
        trim(before + s + after) == s,
{
    law_trim_takes_the_class_away(before, s, after, CharClass::White);
}

/// Trimming takes away all characters of the class around a text that neither begins nor ends in it.
pub proof fn law_trim_takes_the_class_away(
    before: Seq<char>,
    s: Seq<char>,
    after: Seq<char>,
    k: CharClass,
)
    requires
        trim_of(s, k) == s,
        forall|i: int| 0 <= i < before.len() ==> in_class(k, #[trigger] before[i]),
        forall|i: int| 0 <= i < after.len() ==> in_class(k, #[trigger] after[i]),
    ensures
        trim_of(before + s + after, k) == s,
{
    let all = before + s + after;
    assert(s.len() > 0 ==> !in_class(k, s[0]) && !in_class(k, s.last())) by {
        law_trim(s, k);
    }
    lemma_run_end(all, k, 0);
    let a = run_end(all, k, 0);
    let rest = trim_start_of(all, k);
    lemma_run_start(rest, k, rest.len() as int);
    let b = run_start(rest, k, rest.len() as int);
    if s.len() > 0 {
        assert(a == before.len()) by {
            if a < before.len() {
                assert(all[a] == before[a]);
            }
            if a > before.len() {
                assert(all[before.len() as int] == s[0]);
                assert(in_class(k, all[before.len() as int]));
            }
        }
        assert(rest =~= s + after);
        assert(b == s.len()) by {
            if b > s.len() {
                assert(rest[b - 1] == after[b - 1 - s.len()]);
            }
            if b < s.len() {
                assert(rest[s.len() - 1] == s.last());
                assert(in_class(k, rest[s.len() - 1]));
            }
        }
        assert(rest.subrange(0, b) =~= s);
    } else {
        if a < all.len() {
            if a < before.len() {
                assert(all[a] == before[a]);
            } else {
                assert(all[a] == after[a - before.len()]);
            }
        }
        assert(rest.len() == 0);
        assert(trim_of(all, k) =~= s);
    }
}

/// Lower-casing and trimming white space may be done in either order.
pub proof fn law_trim_lower(s: Seq<char>)
    ensures
        trim(lower(s)) == lower(trim(s)),
{
    lemma_trim_lower(s, CharClass::White);
}

/// Whether a class has both or neither of a letter's two cases.
pub open spec fn is_caseless(k: CharClass) -> bool {
    forall|c: char| in_class(k, #[trigger] lower_char(c)) == in_class(k, c)
}

pub proof fn lemma_trim_lower(s: Seq<char>, k: CharClass)
    requires
        is_caseless(k),
    ensures
        trim_of(lower(s), k) == lower(trim_of(s, k)),
{
    lemma_run_end_lower(s, k, 0);
    lemma_run_end(s, k, 0);
    assert(trim_start_of(lower(s), k) =~= lower(trim_start_of(s, k)));
    let t = trim_start_of(s, k);
    lemma_run_start_lower(t, k, t.len() as int);
    lemma_run_start(t, k, t.len() as int);
    assert(trim_end_of(lower(t), k) =~= lower(trim_end_of(t, k)));
}

pub proof fn lemma_run_end_lower(s: Seq<char>, k: CharClass, i: int)
    requires
        is_caseless(k),
    ensures
        run_end(lower(s), k, i) == run_end(s, k, i),
    decreases s.len() - i,
{
    if 0 <= i < s.len() {
        assert(in_class(k, lower_char(s[i])) == in_class(k, s[i]));
        lemma_run_end_lower(s, k, i + 1);
    }
}

pub proof fn lemma_run_until_lower(s: Seq<char>, k: CharClass, i: int)
    requires
        is_caseless(k),
    ensures
        run_until(lower(s), k, i) == run_until(s, k, i),
    decreases s.len() - i,
{
    if 0 <= i < s.len() {
        assert(in_class(k, lower_char(s[i])) == in_class(k, s[i]));
        lemma_run_until_lower(s, k, i + 1);
    }
}

proof fn lemma_run_start_lower(s: Seq<char>, k: CharClass, j: int)
    requires
        is_caseless(k),
    ensures
        run_start(lower(s), k, j) == run_start(s, k, j),
    decreases j,
{
    if 0 < j <= s.len() {
        assert(in_class(k, lower_char(s[j - 1])) == in_class(k, s[j - 1]));
        lemma_run_start_lower(s, k, j - 1);
    }
}

// ---------------------------------------------------------------------------
// Searching
// ---------------------------------------------------------------------------
/// Whether `pat` stands in `s` at position `i`.
pub open spec fn matches_at(s: Seq<char>, pat: Seq<char>, i: int) -> bool {
    0 <= i && i + pat.len() <= s.len() && s.subrange(i, i + pat.len()) == pat
}

/// The first position from `i` on at which `pat` stands.
pub open spec fn find_from(s: Seq<char>, pat: Seq<char>, i: int) -> Option<int>
    decreases s.len() + 1 - i,
{
    if i < 0 || i + pat.len() > s.len() {
        None
    } else if matches_at(s, pat, i) {
        Some(i)
    } else {
        find_from(s, pat, i + 1)
    }
}

pub open spec fn contains_text(s: Seq<char>, pat: Seq<char>) -> bool {
    exists|i: int| matches_at(s, pat, i)
}

pub open spec fn starts_with_text(s: Seq<char>, pat: Seq<char>) -> bool {
    matches_at(s, pat, 0)
}

pub open spec fn ends_with_text(s: Seq<char>, pat: Seq<char>) -> bool {
    matches_at(s, pat, s.len() - pat.len())
}

/// What the first position means: `pat` stands there and nowhere before it.
pub proof fn law_find_from(s: Seq<char>, pat: Seq<char>, i: int)
    requires
        0 <= i,
    ensures
        find_from(s, pat, i) matches Some(j) ==> i <= j && matches_at(s, pat, j) && (forall|x: int|
            i <= x < j ==> !#[trigger] matches_at(s, pat, x)),
        find_from(s, pat, i) is None ==> (forall|x: int|
            i <= x ==> !#[trigger] matches_at(s, pat, x)),
    decreases s.len() + 1 - i,
{
    if i + pat.len() <= s.len() && !matches_at(s, pat, i) {
        law_find_from(s, pat, i + 1);
        assert forall|x: int| i <= x && x < i + 1 implies !#[trigger] matches_at(s, pat, x) by {
            assert(x == i);
        }
    }
}

fn chars_match_at(v: &Vec<char>, p: &Vec<char>, i: usize) -> (r: bool)
    requires
        i <= v.len(),
    ensures
        r == matches_at(v@, p@, i as int),
{
    if p.len() > v.len() - i {
        return false;
    }
    let mut k: usize = 0;
    while k < p.len()
        invariant
            k <= p.len(),
            i + p.len() <= v.len(),
            forall|x: int| 0 <= x < k ==> v@[i + x] == p@[x],
        decreases p.len() - k,
    {
        if v[i + k] != p[k] {
            proof {
                if v@.subrange(i as int, i + p.len()) == p@ {
                    assert(v@.subrange(i as int, i + p.len())[k as int] == p@[k as int]);
                }
            }
            return false;
        }
        k = k + 1;
    }
    assert(v@.subrange(i as int, i + p.len()) =~= p@);
    true
}

pub fn find_chars(v: &Vec<char>, p: &Vec<char>, from: usize) -> (r: Option<usize>)
    requires
        from <= v.len(),
    ensures
        r is None == find_from(v@, p@, from as int) is None,
        r matches Some(j) ==> find_from(v@, p@, from as int) == Some(j as int) && from <= j && j
            + p.len() <= v.len(),
{
    let mut i: usize = from;
    while i <= v.len() && p.len() <= v.len() - i
        invariant
            from <= i <= v.len() + 1,
            find_from(v@, p@, i as int) == find_from(v@, p@, from as int),
        decreases v.len() + 1 - i,
    {
        if chars_match_at(v, p, i) {
            return Some(i);
        }
        if i == v.len() {
            assert(find_from(v@, p@, i + 1) is None);
            return None;
        }
        i = i + 1;
    }
    None
}

pub fn contains(s: &str, pat: &str) -> (r: bool)
    ensures
        r == contains_text(s@, pat@),
{
    let v: Vec<char> = chars_of(s);
    let p: Vec<char> = chars_of(pat);
    let found: Option<usize> = find_chars(&v, &p, 0);
    proof {
        law_find_from(s@, pat@, 0);
        if found is None {
            assert forall|i: int| !matches_at(s@, pat@, i) by {}
        } else {
            assert(matches_at(s@, pat@, found->0 as int));
        }
    }
    found.is_some()
}

pub fn starts_with(s: &str, pat: &str) -> (r: bool)
    ensures
        r == starts_with_text(s@, pat@),
{
    let v: Vec<char> = chars_of(s);
    let p: Vec<char> = chars_of(pat);
    chars_match_at(&v, &p, 0)
}

pub fn ends_with(s: &str, pat: &str) -> (r: bool)
    ensures
        r == ends_with_text(s@, pat@),
{
    let v: Vec<char> = chars_of(s);
    let p: Vec<char> = chars_of(pat);
    if p.len() > v.len() {
        return false;
    }
    chars_match_at(&v, &p, v.len() - p.len())
}

/// Whether a character of the class stands in the text.
pub open spec fn has_class(s: Seq<char>, k: CharClass) -> bool {
    exists|i: int| 0 <= i < s.len() && in_class(k, #[trigger] s[i])
}

pub fn contains_class(s: &str, k: CharClass) -> (r: bool)
    ensures
        r == has_class(s@, k),
{
    let v: Vec<char> = chars_of(s);
    let i: usize = seek_run(&v, k, 0);
    proof {
        lemma_run_until(s@, k, 0);
    }
    i < v.len()
}

/// The rest of the text behind `prefix`, if it begins with it.
pub open spec fn strip_prefix_of(s: Seq<char>, prefix: Seq<char>) -> Option<Seq<char>> {
    if starts_with_text(s, prefix) {
        Some(s.skip(prefix.len() as int))
    } else {
        None
    }
}

pub fn strip_prefix(s: &str, prefix: &str) -> (r: Option<String>)
    ensures
        r is Some == strip_prefix_of(s@, prefix@) is Some,
        r matches Some(t) ==> strip_prefix_of(s@, prefix@) == Some(t@),
{
    let v: Vec<char> = chars_of(s);
    let p: Vec<char> = chars_of(prefix);
    if chars_match_at(&v, &p, 0) {
        let t: String = string_of(&v, p.len(), v.len());
        assert(t@ =~= s@.skip(prefix@.len() as int));
        Some(t)
    } else {
        None
    }
}

/// The first `n` characters, or all of them.
pub open spec fn take_chars(s: Seq<char>, n: nat) -> Seq<char> {
    if s.len() <= n {
        s
    } else {
        s.take(n as int)
    }
}

/// The first `max_chars` characters of `value`.
pub fn truncate_chars(value: &str, max_chars: usize) -> (r: String)
    ensures
        r@ == take_chars(value@, max_chars as nat),
{
    let v: Vec<char> = chars_of(value);
    if v.len() <= max_chars {
        let t: String = string_of(&v, 0, v.len());
        assert(t@ =~= value@);
        t
    } else {
        let t: String = string_of(&v, 0, max_chars);
        assert(t@ =~= value@.take(max_chars as int));
        t
    }
}

// ---------------------------------------------------------------------------
// Replacing and filtering
// ---------------------------------------------------------------------------
/// The text from position `i` on, with each occurrence of `pat`, taken from the left,
/// replaced by `by`.
pub open spec fn replace_from(s: Seq<char>, pat: Seq<char>, by: Seq<char>, i: int) -> Seq<char>
    decreases s.len() - i,
{
    if i < 0 || i >= s.len() || pat.len() == 0 {
        Seq::empty()
    } else if matches_at(s, pat, i) {
        by + replace_from(s, pat, by, i + pat.len())
    } else {
        seq![s[i]] + replace_from(s, pat, by, i + 1)
    }
}

/// The text with each occurrence of the non-empty `pat` replaced by `by`.
pub open spec fn replace_text(s: Seq<char>, pat: Seq<char>, by: Seq<char>) -> Seq<char> {
    replace_from(s, pat, by, 0)
}

/// What comes before the first occurrence stays.
pub proof fn lemma_replace_skips(s: Seq<char>, pat: Seq<char>, by: Seq<char>, i: int, n: int)
    requires
        0 <= i <= n <= s.len(),
        pat.len() > 0,
        forall|j: int| i <= j < n ==> !#[trigger] matches_at(s, pat, j),
    ensures
        replace_from(s, pat, by, i) == s.subrange(i, n) + replace_from(s, pat, by, n),
    decreases n - i,
{
    let rest = replace_from(s, pat, by, n);
    if i < n {
        lemma_replace_skips(s, pat, by, i + 1, n);
        assert(!matches_at(s, pat, i));
        assert(seq![s[i]] + (s.subrange(i + 1, n) + rest) =~= s.subrange(i, n) + rest);
    } else {
        assert(s.subrange(i, n) + rest =~= rest);
    }
}

/// Replacing behind a first part is replacing in what follows it.
pub proof fn lemma_replace_behind(
    a: Seq<char>,
    b: Seq<char>,
    pat: Seq<char>,
    by: Seq<char>,
    i: int,
)
    requires
        0 <= i,
    ensures
        replace_from(a + b, pat, by, a.len() + i) == replace_from(b, pat, by, i),
    decreases b.len() - i,
{
    let s = a + b;
    if i < b.len() && pat.len() > 0 {
        if a.len() + i + pat.len() <= s.len() {
            assert(s.subrange(a.len() + i, a.len() + i + pat.len()) =~= b.subrange(
                i,
                i + pat.len(),
            ));
        }
        assert(matches_at(s, pat, a.len() + i) == matches_at(b, pat, i));
        if matches_at(b, pat, i) {
            lemma_replace_behind(a, b, pat, by, i + pat.len());
        } else {
            lemma_replace_behind(a, b, pat, by, i + 1);
        }
    }
}

pub fn replace(s: &str, pat: &str, by: &str) -> (r: String)
    requires
        pat@.len() > 0,
    ensures
        r@ == replace_text(s@, pat@, by@),
{
    let v: Vec<char> = chars_of(s);
    let p: Vec<char> = chars_of(pat);
    let mut out: String = String::new();
    let mut i: usize = 0;
    assert(out@ + replace_from(s@, pat@, by@, 0) =~= replace_text(s@, pat@, by@));
    while i < v.len()
        invariant
            i <= v.len(),
            v@ == s@,
            p@ == pat@,
            p.len() > 0,
            out@ + replace_from(s@, pat@, by@, i as int) == replace_text(s@, pat@, by@),
        decreases v.len() - i,
    {
        let ghost before = out@;
        if chars_match_at(&v, &p, i) {
            out.append(by);
            proof {
                let rest = replace_from(s@, pat@, by@, i + p.len());
                assert(before + (by@ + rest) =~= (before + by@) + rest);
            }
            i = i + p.len();
        } else {
            out.push(v[i]);
            proof {
                let rest = replace_from(s@, pat@, by@, i + 1);
                assert(before + (seq![v@[i as int]] + rest) =~= before.push(v@[i as int]) + rest);
            }
            i = i + 1;
        }
    }
    assert(out@ + Seq::<char>::empty() =~= out@);
    out
}

// ---------------------------------------------------------------------------
// Splitting
// ---------------------------------------------------------------------------
/// The words of the text from position `i` on: the longest runs without white space.
pub open spec fn words_from(s: Seq<char>, i: int) -> Seq<Seq<char>>
    decreases s.len() - i,
{
    let a = run_end(s, CharClass::White, i);
    let b = run_until(s, CharClass::White, a);
    if i < 0 || a < i || a >= s.len() || b <= a || b > s.len() {
        Seq::empty()
    } else {
        seq![s.subrange(a, b)] + words_from(s, b)
    }
}

pub open spec fn words(s: Seq<char>) -> Seq<Seq<char>> {
    words_from(s, 0)
}

proof fn lemma_runs_behind(a: Seq<char>, b: Seq<char>, k: CharClass, i: int)
    requires
        0 <= i,
    ensures
        run_end(a + b, k, a.len() + i) == a.len() + run_end(b, k, i),
        run_until(a + b, k, a.len() + i) == a.len() + run_until(b, k, i),
    decreases b.len() - i,
{
    if i < b.len() {
        assert((a + b)[a.len() + i] == b[i]);
        lemma_runs_behind(a, b, k, i + 1);
    }
}

/// The words behind a first part are those of what follows it.
pub proof fn lemma_words_behind(a: Seq<char>, b: Seq<char>, i: int)
    requires
        0 <= i <= b.len(),
    ensures
        words_from(a + b, a.len() + i) == words_from(b, i),
    decreases b.len() - i,
{
    let k = CharClass::White;
    let from = run_end(b, k, i);
    let to = run_until(b, k, from);
    lemma_run_end(b, k, i);
    lemma_run_until(b, k, from);
    lemma_runs_behind(a, b, k, i);
    lemma_runs_behind(a, b, k, from);
    if from < b.len() {
        assert(to > from);
        lemma_words_behind(a, b, to);
        assert((a + b).subrange(a.len() + from, a.len() + to) =~= b.subrange(from, to));
    }
}

/// The words of a text that begins with one: a run without white space up to a space or the end.
pub proof fn lemma_first_word(s: Seq<char>, n: int)
    requires
        0 < n <= s.len(),
        forall|i: int| 0 <= i < n ==> !is_white(#[trigger] s[i]),
        n < s.len() ==> is_white(s[n]),
    ensures
        words(s) == seq![s.take(n)] + words_from(s, if n < s.len() {
            n + 1
        } else {
            n
        }),
{
    let k = CharClass::White;
    assert(run_end(s, k, 0) == 0);
    lemma_run_until(s, k, 0);
    let b = run_until(s, k, 0);
    if b < n {
        assert(in_class(k, s[b]));
    }
    if b > n {
        assert(!in_class(k, s[n]));
    }
    assert(b == n);
    assert(s.subrange(0, n) =~= s.take(n));
    if n < s.len() {
        assert(run_end(s, k, n) == run_end(s, k, n + 1));
        lemma_run_end(s, k, n + 1);
        assert(words_from(s, n) == words_from(s, n + 1));
    }
}

/// Words are not empty and hold no white space, and their characters are of the text.
pub proof fn lemma_words_from(s: Seq<char>, i: int)
    requires
        0 <= i <= s.len(),
    ensures
        forall|w: int|
            0 <= w < words_from(s, i).len() ==> (#[trigger] words_from(s, i)[w]).len() > 0,
        forall|w: int, j: int|
            #![trigger words_from(s, i)[w][j]]
            0 <= w < words_from(s, i).len() && 0 <= j < words_from(s, i)[w].len() ==> !is_white(
                words_from(s, i)[w][j],
            ) && s.contains(words_from(s, i)[w][j]),
    decreases s.len() - i,
{
    let k = CharClass::White;
    let a = run_end(s, k, i);
    let b = run_until(s, k, a);
    lemma_run_end(s, k, i);
    lemma_run_until(s, k, a);
    if a < s.len() {
        lemma_words_from(s, b);
        let rest = words_from(s, b);
        let all = words_from(s, i);
        assert forall|w: int| 0 <= w < all.len() implies (#[trigger] all[w]).len() > 0 by {
            if w > 0 {
                assert(all[w] == rest[w - 1]);
            }
        }
        assert forall|w: int, j: int|
            #![trigger all[w][j]]
            0 <= w < all.len() && 0 <= j < all[w].len() implies !is_white(all[w][j]) && s.contains(
            all[w][j],
        ) by {
            if w > 0 {
                assert(all[w] == rest[w - 1]);
                assert(!is_white(rest[w - 1][j]));
            } else {
                assert(all[w][j] == s[a + j]);
                assert(!in_class(k, s[a + j]));
            }
        }
    }
}

pub fn split_words(s: &str) -> (r: Vec<String>)
    ensures
        views(r@) == words(s@),
{
    let v: Vec<char> = chars_of(s);
    let mut out: Vec<String> = Vec::new();
    let mut i: usize = 0;
    assert(views(out@) + words_from(s@, 0) =~= words(s@));
    loop
        invariant
            i <= v.len(),
            v@ == s@,
            views(out@) + words_from(s@, i as int) == words(s@),
        ensures
            views(out@) == words(s@),
        decreases v.len() - i,
    {
        let a: usize = skip_run(&v, CharClass::White, i);
        let ghost before = views(out@);
        if a >= v.len() {
            assert(before + Seq::<Seq<char>>::empty() =~= before);
            break;
        }
        let b: usize = seek_run(&v, CharClass::White, a);
        proof {
            lemma_run_end(s@, CharClass::White, i as int);
            lemma_run_until(s@, CharClass::White, a as int);
        }
        let word: String = string_of(&v, a, b);
        out.push(word);
        proof {
            let rest = words_from(s@, b as int);
            let w = s@.subrange(a as int, b as int);
            assert(views(out@) =~= before.push(w));
            assert(before + (seq![w] + rest) =~= before.push(w) + rest);
        }
        i = b;
    }
    out
}

/// The pieces of the text from position `i` on that the separator divides it into.
pub open spec fn pieces_from(s: Seq<char>, sep: char, i: int) -> Seq<Seq<char>>
    decreases s.len() - i,
{
    let b = run_until(s, CharClass::Only(sep), i);
    if i < 0 || b < i || b >= s.len() {
        seq![s.subrange(i, s.len() as int)]
    } else {
        seq![s.subrange(i, b)] + pieces_from(s, sep, b + 1)
    }
}

pub open spec fn pieces(s: Seq<char>, sep: char) -> Seq<Seq<char>> {
    pieces_from(s, sep, 0)
}

pub fn split_pieces(s: &str, sep: char) -> (r: Vec<String>)
    ensures
        views(r@) == pieces(s@, sep),
{
    let v: Vec<char> = chars_of(s);
    let mut out: Vec<String> = Vec::new();
    let mut i: usize = 0;
    assert(views(out@) + pieces_from(s@, sep, 0) =~= pieces(s@, sep));
    loop
        invariant_except_break
            views(out@) + pieces_from(s@, sep, i as int) == pieces(s@, sep),
        invariant
            i <= v.len(),
            v@ == s@,
        ensures
            views(out@) == pieces(s@, sep),
        decreases v.len() - i,
    {
        let b: usize = seek_run(&v, CharClass::Only(sep), i);
        let ghost before = views(out@);
        let piece: String = string_of(&v, i, b);
        out.push(piece);
        proof {
            assert(views(out@) =~= before.push(s@.subrange(i as int, b as int)));
        }
        if b >= v.len() {
            proof {
                assert(before + seq![s@.subrange(i as int, s@.len() as int)] =~= before.push(
                    s@.subrange(i as int, b as int),
                ));
            }
            break;
        }
        proof {
            let rest = pieces_from(s@, sep, b + 1);
            let w = s@.subrange(i as int, b as int);
            assert(before + (seq![w] + rest) =~= before.push(w) + rest);
        }
        i = b + 1;
    }
    out
}

/// The text up to the first separator, and the text behind it.
pub open spec fn split_once_of(s: Seq<char>, sep: char) -> Option<(Seq<char>, Seq<char>)> {
    let b = run_until(s, CharClass::Only(sep), 0);
    if b >= s.len() {
        None
    } else {
        Some((s.take(b), s.skip(b + 1)))
    }
}

pub fn split_once(s: &str, sep: char) -> (r: Option<(String, String)>)
    ensures
        r is Some == split_once_of(s@, sep) is Some,
        r matches Some(p) ==> split_once_of(s@, sep) == Some((p.0@, p.1@)),
{
    let v: Vec<char> = chars_of(s);
    let b: usize = seek_run(&v, CharClass::Only(sep), 0);
    if b >= v.len() {
        None
    } else {
        let left: String = string_of(&v, 0, b);
        let right: String = string_of(&v, b + 1, v.len());
        assert(left@ =~= s@.take(b as int));
        assert(right@ =~= s@.skip(b + 1));
        Some((left, right))
    }
}

/// The text up to the first separator, or all of it.
pub open spec fn before_first(s: Seq<char>, sep: char) -> Seq<char> {
    s.take(run_until(s, CharClass::Only(sep), 0))
}

pub fn before_separator(s: &str, sep: char) -> (r: String)
    ensures
        r@ == before_first(s@, sep),
{
    let v: Vec<char> = chars_of(s);
    let b: usize = seek_run(&v, CharClass::Only(sep), 0);
    let left: String = string_of(&v, 0, b);
    assert(left@ =~= before_first(s@, sep));
    left
}

/// The position behind the last separator before `j`, or the start.
pub open spec fn after_last_from(s: Seq<char>, sep: char, j: int) -> int
    decreases j,
{
    if 0 < j <= s.len() && s[j - 1] != sep {
        after_last_from(s, sep, j - 1)
    } else {
        j
    }
}

/// The text behind the last separator, or all of it.
pub open spec fn after_last(s: Seq<char>, sep: char) -> Seq<char> {
    s.skip(after_last_from(s, sep, s.len() as int))
}

/// The text before the last separator, or all of it.
pub open spec fn before_last(s: Seq<char>, sep: char) -> Seq<char> {
    let j = after_last_from(s, sep, s.len() as int);
    if j == 0 {
        s
    } else {
        s.take(j - 1)
    }
}

fn last_separator(v: &Vec<char>, sep: char) -> (r: usize)
    ensures
        r == after_last_from(v@, sep, v.len() as int),
        r <= v.len(),
{
    let mut j: usize = v.len();
    while j > 0 && v[j - 1] != sep
        invariant
            j <= v.len(),
            after_last_from(v@, sep, j as int) == after_last_from(v@, sep, v.len() as int),
        decreases j,
    {
        j = j - 1;
    }
    j
}

pub fn after_last_separator(s: &str, sep: char) -> (r: String)
    ensures
        r@ == after_last(s@, sep),
{
    let v: Vec<char> = chars_of(s);
    let j: usize = last_separator(&v, sep);
    let t: String = string_of(&v, j, v.len());
    assert(t@ =~= after_last(s@, sep));
    t
}

pub fn before_last_separator(s: &str, sep: char) -> (r: String)
    ensures
        r@ == before_last(s@, sep),
{
    let v: Vec<char> = chars_of(s);
    let j: usize = last_separator(&v, sep);
    let end: usize = if j == 0 {
        v.len()
    } else {
        j - 1
    };
    let t: String = string_of(&v, 0, end);
    assert(t@ =~= before_last(s@, sep));
    t
}

// ---------------------------------------------------------------------------
// Order
// ---------------------------------------------------------------------------
/// Whether `a` stands strictly before `b` in the order by character codes.
pub open spec fn text_before(a: Seq<char>, b: Seq<char>) -> bool
    decreases a.len(),
{
    if b.len() == 0 {
        false
    } else if a.len() == 0 {
        true
    } else if a[0] != b[0] {
        a[0] < b[0]
    } else {
        text_before(a.drop_first(), b.drop_first())
    }
}

fn char_before(c: char, d: char) -> (r: bool)
    ensures
        r == (c < d),
{
    (c as u32) < (d as u32)
}

pub fn is_before(a: &str, b: &str) -> (r: bool)
    ensures
        r == text_before(a@, b@),
{
    let x: Vec<char> = chars_of(a);
    let y: Vec<char> = chars_of(b);
    let mut i: usize = 0;
    assert(x@.skip(0) =~= a@);
    assert(y@.skip(0) =~= b@);
    while i < x.len() && i < y.len() && x[i] == y[i]
        invariant
            i <= x.len(),
            i <= y.len(),
            text_before(x@.skip(i as int), y@.skip(i as int)) == text_before(a@, b@),
        decreases x.len() - i,
    {
        assert(x@.skip(i as int).drop_first() =~= x@.skip(i + 1));
        assert(y@.skip(i as int).drop_first() =~= y@.skip(i + 1));
        i = i + 1;
    }
    proof {
        let p = x@.skip(i as int);
        let q = y@.skip(i as int);
        assert(p.len() == x.len() - i && q.len() == y.len() - i);
        if p.len() > 0 && q.len() > 0 {
            assert(p[0] == x@[i as int] && q[0] == y@[i as int]);
        }
    }
    if i >= y.len() {
        false
    } else if i >= x.len() {
        true
    } else {
        char_before(x[i], y[i])
    }
}

/// The order of texts is strict and total.
pub proof fn law_text_order(a: Seq<char>, b: Seq<char>)
    ensures
        !(text_before(a, b) && text_before(b, a)),
        text_before(a, b) || text_before(b, a) || a == b,
        a == b ==> !text_before(a, b),
    decreases a.len(),
{
    if a.len() > 0 && b.len() > 0 {
        law_text_order(a.drop_first(), b.drop_first());
        if a[0] == b[0] && a.drop_first() == b.drop_first() {
            assert(a =~= seq![a[0]] + a.drop_first());
            assert(b =~= seq![b[0]] + b.drop_first());
        }
    } else if a.len() == 0 && b.len() == 0 {
        assert(a =~= b);
    }
}

/// The order of texts is transitive.
pub proof fn law_text_order_transitive(a: Seq<char>, b: Seq<char>, c: Seq<char>)
    requires
        text_before(a, b),
        text_before(b, c),
    ensures
        text_before(a, c),
    decreases a.len(),
{
    if a.len() > 0 && b.len() > 0 && c.len() > 0 && a[0] == b[0] && b[0] == c[0] {
        law_text_order_transitive(a.drop_first(), b.drop_first(), c.drop_first());
    }
}

// ---------------------------------------------------------------------------
// How texts come apart
// ---------------------------------------------------------------------------
/// Space, tabs and line breaks are white; letters, digits and signs of the keyboard are not.
pub proof fn law_white_characters(c: char)
    ensures
        c == ' ' || c == '\t' || c == '\n' || c == '\r' ==> is_white(c),
        0x21 <= c as u32 <= 0x7e ==> !is_white(c),
{
}

/// Lower case turns capital letters into the small ones, and nothing else.
pub proof fn law_lower_letters(s: Seq<char>, i: int)
    requires
        0 <= i < s.len(),
    ensures
        lower(s).len() == s.len(),
        'A' <= s[i] <= 'Z' ==> lower(s)[i] as u32 == s[i] as u32 + 32,
        !('A' <= s[i] <= 'Z') ==> lower(s)[i] == s[i],
{
}

/// What is cut off at a length is the beginning of the text, as long as the limit or the text is.
pub proof fn law_cut_off_texts(s: Seq<char>, n: nat)
    ensures
        take_chars(s, n).is_prefix_of(s),
        s.len() <= n ==> take_chars(s, n) == s,
        s.len() > n ==> take_chars(s, n).len() == n,
{
}

proof fn lemma_until_here(a: Seq<char>, c: char, b: Seq<char>, k: CharClass)
    requires
        forall|i: int| 0 <= i < a.len() ==> !in_class(k, #[trigger] a[i]),
        in_class(k, c),
    ensures
        run_until(a.push(c) + b, k, 0) == a.len(),
{
    let s = a.push(c) + b;
    lemma_run_until(s, k, 0);
    let u = run_until(s, k, 0);
    assert(s[a.len() as int] == c);
    if u < a.len() {
        assert(s[u] == a[u]);
    }
    if u > a.len() {
        assert(!in_class(k, s[a.len() as int]));
    }
}

proof fn lemma_until_end(a: Seq<char>, k: CharClass)
    requires
        forall|i: int| 0 <= i < a.len() ==> !in_class(k, #[trigger] a[i]),
    ensures
        run_until(a, k, 0) == a.len(),
{
    lemma_run_until(a, k, 0);
}

proof fn lemma_pieces_behind(a: Seq<char>, b: Seq<char>, sep: char, i: int)
    requires
        0 <= i <= b.len(),
    ensures
        pieces_from(a + b, sep, a.len() + i) == pieces_from(b, sep, i),
    decreases b.len() - i,
{
    let k = CharClass::Only(sep);
    lemma_runs_behind(a, b, k, i);
    lemma_run_until(b, k, i);
    let u = run_until(b, k, i);
    if u < b.len() {
        lemma_pieces_behind(a, b, sep, u + 1);
        assert((a + b).subrange(a.len() + i, a.len() + u) =~= b.subrange(i, u));
    } else {
        assert((a + b).subrange(a.len() + i, (a + b).len() as int) =~= b.subrange(
            i,
            b.len() as int,
        ));
    }
}

/// A separator parts what comes before it from the pieces of what follows; a text without one is a
/// single piece.
pub proof fn law_pieces(a: Seq<char>, sep: char, b: Seq<char>)
    requires
        !a.contains(sep),
    ensures
        pieces(a, sep) == seq![a],
        pieces(a.push(sep) + b, sep) == seq![a] + pieces(b, sep),
        split_once_of(a, sep) is None,
        split_once_of(a.push(sep) + b, sep) == Some((a, b)),
        before_first(a, sep) == a,
        before_first(a.push(sep) + b, sep) == a,
{
    let k = CharClass::Only(sep);
    let s = a.push(sep) + b;
    assert forall|i: int| 0 <= i < a.len() implies !in_class(k, #[trigger] a[i]) by {
        assert(a.contains(a[i]));
    }
    lemma_until_here(a, sep, b, k);
    lemma_until_end(a, k);
    lemma_pieces_behind(a.push(sep), b, sep, 0);
    assert(a.subrange(0, a.len() as int) =~= a);
    assert(a.take(a.len() as int) =~= a);
    assert(s.subrange(0, a.len() as int) =~= a);
    assert(s.take(a.len() as int) =~= a);
    assert(s.skip(a.len() as int + 1) =~= b);
}

proof fn lemma_after_last_from(s: Seq<char>, sep: char, j: int, at: int)
    requires
        0 <= at <= j <= s.len(),
        forall|i: int| at <= i < j ==> #[trigger] s[i] != sep,
        at > 0 ==> s[at - 1] == sep,
    ensures
        after_last_from(s, sep, j) == at,
    decreases j,
{
    if j > at {
        assert(s[j - 1] != sep);
        lemma_after_last_from(s, sep, j - 1, at);
    }
}

/// The last separator parts what comes before it from what follows; a text without one is whole.
pub proof fn law_last_separator(a: Seq<char>, sep: char, b: Seq<char>)
    requires
        !b.contains(sep),
    ensures
        after_last(a.push(sep) + b, sep) == b,
        before_last(a.push(sep) + b, sep) == a,
        after_last(b, sep) == b,
        before_last(b, sep) == b,
        after_last_from(a.push(sep) + b, sep, (a.push(sep) + b).len() as int) == a.len() + 1,
        after_last_from(b, sep, b.len() as int) == 0,
{
    let s = a.push(sep) + b;
    assert forall|i: int| a.len() + 1 <= i < s.len() implies #[trigger] s[i] != sep by {
        assert(s[i] == b[i - a.len() - 1]);
        assert(b.contains(b[i - a.len() - 1]));
    }
    assert forall|i: int| 0 <= i < b.len() implies #[trigger] b[i] != sep by {
        assert(b.contains(b[i]));
    }
    assert(s[a.len() as int] == sep);
    lemma_after_last_from(s, sep, s.len() as int, a.len() as int + 1);
    lemma_after_last_from(b, sep, b.len() as int, 0);
    assert(s.skip(a.len() as int + 1) =~= b);
    assert(s.take(a.len() as int) =~= a);
    assert(b.skip(0) =~= b);
}

/// White space parts a first word from the words of what follows, and counts for nothing before
/// them.
pub proof fn law_words(a: Seq<char>, white: char, b: Seq<char>)
    requires
        a.len() > 0,
        forall|i: int| 0 <= i < a.len() ==> !is_white(#[trigger] a[i]),
        is_white(white),
    ensures
        words(a) == seq![a],
        words(a.push(white) + b) == seq![a] + words(b),
        words(seq![white] + b) == words(b),
        words(Seq::empty()).len() == 0,
{
    let s = a.push(white) + b;
    lemma_first_word(a, a.len() as int);
    assert(a.take(a.len() as int) =~= a);
    assert(words_from(a, a.len() as int) =~= Seq::empty());
    assert(words(a) =~= seq![a]);
    assert forall|i: int| 0 <= i < a.len() implies !is_white(#[trigger] s[i]) by {
        assert(s[i] == a[i]);
    }
    assert(s[a.len() as int] == white);
    lemma_first_word(s, a.len() as int);
    assert(s.take(a.len() as int) =~= a);
    lemma_words_behind(a.push(white), b, 0);
    lemma_words_behind(seq![white], b, 0);
    let t = seq![white] + b;
    assert(t[0] == white);
    assert(run_end(t, CharClass::White, 0) == run_end(t, CharClass::White, 1));
    lemma_run_end(t, CharClass::White, 1);
}

/// Each occurrence of a text is replaced: the first one, and those in what follows it.
pub proof fn law_replacing(a: Seq<char>, pat: Seq<char>, by: Seq<char>, b: Seq<char>)
    requires
        pat.len() > 0,
        forall|j: int| 0 <= j < a.len() ==> !#[trigger] matches_at(a + pat + b, pat, j),
    ensures
        replace_text(a + pat + b, pat, by) == a + by + replace_text(b, pat, by),
{
    let s = a + pat + b;
    let n = a.len() as int;
    lemma_replace_skips(s, pat, by, 0, n);
    assert(s.subrange(0, n) =~= a);
    assert(s.subrange(n, n + pat.len()) =~= pat);
    assert(matches_at(s, pat, n));
    lemma_replace_behind(a + pat, b, pat, by, 0);
    assert(replace_from(s, pat, by, n) == by + replace_from(s, pat, by, n + pat.len()));
    assert(a + (by + replace_text(b, pat, by)) =~= a + by + replace_text(b, pat, by));
}

/// A text that another does not hold is not replaced in it.
pub proof fn law_nothing_to_replace(s: Seq<char>, pat: Seq<char>, by: Seq<char>)
    requires
        pat.len() > 0,
        !contains_text(s, pat),
    ensures
        replace_text(s, pat, by) == s,
{
    lemma_replace_skips(s, pat, by, 0, s.len() as int);
    assert(s.subrange(0, s.len() as int) + Seq::<char>::empty() =~= s);
}

/// Texts are ordered by the first character in which they differ, and one stands before those that
/// it begins.
pub proof fn law_text_order_by_characters(
    head: Seq<char>,
    c: char,
    a: Seq<char>,
    d: char,
    b: Seq<char>,
)
    ensures
        c != d ==> (text_before(head.push(c) + a, head.push(d) + b) <==> c < d),
        text_before(head, head.push(c) + a),
        !text_before(head.push(c) + a, head),
    decreases head.len(),
{
    let x = head.push(c) + a;
    let y = head.push(d) + b;
    if head.len() > 0 {
        let rest = head.drop_first();
        law_text_order_by_characters(rest, c, a, d, b);
        assert(x.drop_first() =~= rest.push(c) + a);
        assert(y.drop_first() =~= rest.push(d) + b);
        assert(x[0] == head[0] && y[0] == head[0]);
    } else {
        assert(x[0] == c && y[0] == d);
    }
}

/// The characters of each class: white space by its codes, what ends a bare value in a tag, and the
/// punctuation around links.
pub proof fn law_character_classes(c: char)
    ensures
        ({
            let n = c as u32;
            &&& in_class(CharClass::White, c) <==> 9 <= n <= 13 || n == 32 || n == 133 || n == 160
                || n == 5760 || 8192 <= n <= 8202 || n == 8232 || n == 8233 || n == 8239 || n == 8287
                || n == 12288
            &&& in_class(CharClass::TagEnd, c) <==> n == 9 || n == 10 || n == 12 || n == 13 || n
                == 32 || c == '>'
            &&& in_class(CharClass::LinkPunctuation, c) <==> "()[]{}<>\"',.!?;:"@.contains(c)
        }),
{
    reveal_strlit("()[]{}<>\"',.!?;:");
    let p = "()[]{}<>\"',.!?;:"@;
    assert(p.len() == 16);
    assert(p[0] == '(' && p[1] == ')' && p[2] == '[' && p[3] == ']' && p[4] == '{' && p[5] == '}'
        && p[6] == '<' && p[7] == '>' && p[8] == '"' && p[9] == '\'' && p[10] == ',' && p[11] == '.'
        && p[12] == '!' && p[13] == '?' && p[14] == ';' && p[15] == ':');
    if p.contains(c) {
        let i = choose|i: int| 0 <= i < p.len() && p[i] == c;
        assert(is_link_punctuation(p[i]));
    }
}

} // verus!
