//! Markup: character entities, tags and their attributes.

use vstd::prelude::*;
use vstd::string::*;

use crate::text::{
    chars_of, contains_text, find_chars, find_from, in_class, is_caseless, is_white, law_find_from,
    law_lower_idempotent, lemma_first_word, lemma_replace_behind, lemma_replace_skips,
    lemma_run_until, lemma_run_until_lower, lemma_trim_lower, lemma_words_behind, lemma_words_from,
    lower, lower_chars, matches_at, replace, replace_text, run_until, seek_run, split_words,
    string_of, trim_matches, trim_of, views, words, CharClass,
};

verus! {

// ---------------------------------------------------------------------------
// Character entities
// ---------------------------------------------------------------------------
/// The text with the entities of the ampersand, the quotes and the angle brackets decoded, in
/// that order.
pub open spec fn decoded_entities(s: Seq<char>) -> Seq<char> {
    let a = replace_text(s, "&amp;"@, "&"@);
    let b = replace_text(a, "&quot;"@, "\""@);
    let c = replace_text(b, "&#39;"@, "'"@);
    let d = replace_text(c, "&lt;"@, "<"@);
    replace_text(d, "&gt;"@, ">"@)
}

pub fn decode_html_entities(value: &str) -> (r: String)
    ensures
        r@ == decoded_entities(value@),
{
    proof {
        reveal_strlit("&amp;");
        reveal_strlit("&quot;");
        reveal_strlit("&#39;");
        reveal_strlit("&lt;");
        reveal_strlit("&gt;");
    }
    let a: String = replace(value, "&amp;", "&");
    let b: String = replace(a.as_str(), "&quot;", "\"");
    let c: String = replace(b.as_str(), "&#39;", "'");
    let d: String = replace(c.as_str(), "&lt;", "<");
    replace(d.as_str(), "&gt;", ">")
}

/// The entity that stands for a character in markup, or the character itself.
pub open spec fn entity(c: char) -> Seq<char> {
    if c == '&' {
        "&amp;"@
    } else if c == '<' {
        "&lt;"@
    } else if c == '>' {
        "&gt;"@
    } else if c == '"' {
        "&quot;"@
    } else if c == '\'' {
        "&#39;"@
    } else {
        seq![c]
    }
}

/// The text with each of the five special characters replaced by its entity.
pub open spec fn escaped(s: Seq<char>) -> Seq<char>
    decreases s.len(),
{
    if s.len() == 0 {
        Seq::empty()
    } else {
        escaped(s.drop_last()) + entity(s.last())
    }
}

/// Escapes text for markup: one entity for each special character.
pub fn escape_html_text(value: &str) -> (r: String)
    ensures
        r@ == escaped(value@),
{
    let v: Vec<char> = chars_of(value);
    let mut out: String = String::new();
    let mut i: usize = 0;
    assert(v@.take(0) =~= Seq::<char>::empty());
    while i < v.len()
        invariant
            i <= v.len(),
            out@ == escaped(v@.take(i as int)),
        decreases v.len() - i,
    {
        assert(v@.take(i + 1).drop_last() =~= v@.take(i as int));
        let c: char = v[i];
        if c == '&' {
            out.append("&amp;");
        } else if c == '<' {
            out.append("&lt;");
        } else if c == '>' {
            out.append("&gt;");
        } else if c == '"' {
            out.append("&quot;");
        } else if c == '\'' {
            out.append("&#39;");
        } else {
            let ghost before = out@;
            out.push(c);
            assert(out@ =~= before + seq![c]);
        }
        i = i + 1;
    }
    assert(v@.take(v.len() as int) =~= value@);
    out
}

/// The characters that begin or end a tag or an attribute value.
pub open spec fn is_special(c: char) -> bool {
    c == '<' || c == '>' || c == '"' || c == '\''
}

/// Escaped text holds no angle bracket and no quote.
pub proof fn law_escaped_is_inert(s: Seq<char>, i: int)
    requires
        0 <= i < escaped(s).len(),
    ensures
        !is_special(escaped(s)[i]),
    decreases s.len(),
{
    let head = escaped(s.drop_last());
    if i < head.len() {
        law_escaped_is_inert(s.drop_last(), i);
    } else {
        reveal_strlit("&amp;");
        reveal_strlit("&lt;");
        reveal_strlit("&gt;");
        reveal_strlit("&quot;");
        reveal_strlit("&#39;");
        assert(escaped(s)[i] == entity(s.last())[i - head.len()]);
    }
}

/// A character, or its entity where it is one of those that are kept as entities.
spec fn piece(c: char, kept: Set<char>) -> Seq<char> {
    if kept.contains(c) {
        entity(c)
    } else {
        seq![c]
    }
}

/// A text with an entity for each of its characters that is kept as one.
spec fn pieces_of(s: Seq<char>, kept: Set<char>) -> Seq<char>
    decreases s.len(),
{
    if s.len() == 0 {
        Seq::empty()
    } else {
        piece(s[0], kept) + pieces_of(s.drop_first(), kept)
    }
}

spec fn entity_chars() -> Set<char> {
    set!['&', '"', '\'', '<', '>']
}

proof fn lemma_pieces_push(s: Seq<char>, c: char, kept: Set<char>)
    ensures
        pieces_of(s.push(c), kept) == pieces_of(s, kept) + piece(c, kept),
    decreases s.len(),
{
    let more = s.push(c);
    if s.len() == 0 {
        assert(more.drop_first() =~= Seq::<char>::empty());
        assert(pieces_of(more.drop_first(), kept) =~= Seq::<char>::empty());
        assert(pieces_of(more, kept) =~= piece(c, kept));
        assert(pieces_of(s, kept) + piece(c, kept) =~= piece(c, kept));
    } else {
        assert(more.drop_first() =~= s.drop_first().push(c));
        lemma_pieces_push(s.drop_first(), c, kept);
        let rest = pieces_of(s.drop_first(), kept);
        assert(piece(s[0], kept) + (rest + piece(c, kept)) =~= (piece(s[0], kept) + rest) + piece(
            c,
            kept,
        ));
    }
}

proof fn lemma_escaped_pieces(s: Seq<char>)
    ensures
        escaped(s) == pieces_of(s, entity_chars()),
    decreases s.len(),
{
    if s.len() > 0 {
        lemma_escaped_pieces(s.drop_last());
        lemma_pieces_push(s.drop_last(), s.last(), entity_chars());
        assert(s.drop_last().push(s.last()) =~= s);
    }
}

proof fn lemma_no_pieces(s: Seq<char>)
    ensures
        pieces_of(s, Set::empty()) == s,
    decreases s.len(),
{
    if s.len() > 0 {
        lemma_no_pieces(s.drop_first());
        assert(seq![s[0]] + s.drop_first() =~= s);
    }
}

/// The entities begin with an ampersand, hold no other, and differ in what follows it.
proof fn lemma_entities(x: char, y: char)
    requires
        entity_chars().contains(x),
        entity_chars().contains(y),
    ensures
        entity(x).len() > 1,
        entity(x)[0] == '&',
        forall|i: int| 0 < i < entity(x).len() ==> #[trigger] entity(x)[i] != '&',
        x != y ==> entity(x)[1] != entity(y)[1],
{
    reveal_strlit("&amp;");
    reveal_strlit("&lt;");
    reveal_strlit("&gt;");
    reveal_strlit("&quot;");
    reveal_strlit("&#39;");
}

/// Replacing the entity of one character takes that character out of those kept as entities.
proof fn lemma_decode_one(s: Seq<char>, kept: Set<char>, x: char)
    requires
        !s.contains('&'),
        kept.subset_of(entity_chars()),
        kept.contains(x),
    ensures
        replace_text(pieces_of(s, kept), entity(x), seq![x]) == pieces_of(s, kept.remove(x)),
    decreases s.len(),
{
    if s.len() > 0 {
        let c = s[0];
        let e = entity(x);
        let by = seq![x];
        let p = piece(c, kept);
        let rest = pieces_of(s.drop_first(), kept);
        let t = pieces_of(s, kept);
        assert(entity_chars().contains(x));
        lemma_entities(x, x);
        assert(c != '&' && !s.drop_first().contains('&')) by {
            if s.drop_first().contains('&') {
                let k = choose|k: int|
                    0 <= k < s.drop_first().len() && s.drop_first()[k] == '&';
                assert(s[k + 1] == '&');
            }
            assert(s.contains(s[0]));
        }
        lemma_decode_one(s.drop_first(), kept, x);
        lemma_replace_behind(p, rest, e, by, 0);
        if c == x {
            assert(t.subrange(0, e.len() as int) =~= e);
            assert(matches_at(t, e, 0));
        } else {
            if kept.contains(c) {
                assert(entity_chars().contains(c));
                lemma_entities(c, x);
            }
            assert forall|j: int| 0 <= j < p.len() implies !#[trigger] matches_at(t, e, j) by {
                if matches_at(t, e, j) {
                    assert(t.subrange(j, j + e.len())[0] == t[j]);
                    assert(t.subrange(j, j + e.len())[1] == t[j + 1]);
                    assert(t[j] == p[j]);
                    if j == 0 && kept.contains(c) {
                        assert(t[1] == p[1]);
                    }
                }
            }
            lemma_replace_skips(t, e, by, 0, p.len() as int);
            assert(t.subrange(0, p.len() as int) =~= p);
        }
    }
}

/// Decoding undoes escaping where the text holds no ampersand.
pub proof fn law_decoding_undoes_escaping(s: Seq<char>)
    requires
        !s.contains('&'),
    ensures
        decoded_entities(escaped(s)) == s,
{
    reveal_strlit("&");
    reveal_strlit("\"");
    reveal_strlit("'");
    reveal_strlit("<");
    reveal_strlit(">");
    assert("&"@ =~= seq!['&']);
    assert("\""@ =~= seq!['"']);
    assert("'"@ =~= seq!['\'']);
    assert("<"@ =~= seq!['<']);
    assert(">"@ =~= seq!['>']);
    let a = entity_chars();
    let b = a.remove('&');
    let c = b.remove('"');
    let d = c.remove('\'');
    let e = d.remove('<');
    lemma_escaped_pieces(s);
    lemma_decode_one(s, a, '&');
    lemma_decode_one(s, b, '"');
    lemma_decode_one(s, c, '\'');
    lemma_decode_one(s, d, '<');
    lemma_decode_one(s, e, '>');
    assert(e.remove('>') =~= Set::empty());
    lemma_no_pieces(s);
}

// ---------------------------------------------------------------------------
// Tags
// ---------------------------------------------------------------------------
/// The text outside of tags, with a space in place of each closing bracket. `in_tag` says
/// whether position `i` lies inside of a tag.
pub open spec fn outside_tags(s: Seq<char>, i: int, in_tag: bool) -> Seq<char>
    decreases s.len() - i,
{
    if i < 0 || i >= s.len() {
        Seq::empty()
    } else if s[i] == '<' {
        outside_tags(s, i + 1, true)
    } else if s[i] == '>' {
        seq![' '] + outside_tags(s, i + 1, false)
    } else if in_tag {
        outside_tags(s, i + 1, true)
    } else {
        seq![s[i]] + outside_tags(s, i + 1, false)
    }
}

/// Words joined by single spaces.
pub open spec fn join_words(w: Seq<Seq<char>>) -> Seq<char>
    decreases w.len(),
{
    if w.len() == 0 {
        Seq::empty()
    } else if w.len() == 1 {
        w[0]
    } else {
        join_words(w.drop_last()) + " "@ + w.last()
    }
}

/// The words of the text outside of tags.
pub open spec fn stripped(s: Seq<char>) -> Seq<char> {
    join_words(words(outside_tags(s, 0, false)))
}

/// Whether a text holds an angle bracket.
pub open spec fn has_bracket(s: Seq<char>) -> bool {
    s.contains('<') || s.contains('>')
}

/// Whether the white space of a text is single spaces between other characters.
pub open spec fn is_single_spaced(s: Seq<char>) -> bool {
    forall|i: int|
        0 <= i < s.len() && is_white(#[trigger] s[i]) ==> s[i] == ' ' && 0 < i < s.len() - 1
            && !is_white(s[i - 1]) && !is_white(s[i + 1])
}

proof fn lemma_outside_tags(s: Seq<char>, i: int, in_tag: bool)
    ensures
        !has_bracket(outside_tags(s, i, in_tag)),
    decreases s.len() - i,
{
    if 0 <= i < s.len() {
        lemma_outside_tags(s, i + 1, true);
        lemma_outside_tags(s, i + 1, false);
        let rest = outside_tags(s, i + 1, false);
        let c = if s[i] == '>' {
            ' '
        } else {
            s[i]
        };
        let all = seq![c] + rest;
        if c != '<' && c != '>' {
            assert forall|b: char| all.contains(b) && !rest.contains(b) implies b == c by {
                let k = choose|k: int| 0 <= k < all.len() && all[k] == b;
                if k > 0 {
                    assert(rest[k - 1] == b);
                }
            }
        }
    }
}

proof fn lemma_no_tags(s: Seq<char>, i: int)
    requires
        !has_bracket(s),
        0 <= i <= s.len(),
    ensures
        outside_tags(s, i, false) == s.skip(i),
    decreases s.len() - i,
{
    if i < s.len() {
        assert(s.contains(s[i]));
        lemma_no_tags(s, i + 1);
        assert(seq![s[i]] + s.skip(i + 1) =~= s.skip(i));
    } else {
        assert(s.skip(i) =~= Seq::<char>::empty());
    }
}

/// Whether texts are words without brackets.
spec fn are_plain_words(w: Seq<Seq<char>>) -> bool {
    &&& forall|i: int| 0 <= i < w.len() ==> (#[trigger] w[i]).len() > 0
    &&& forall|i: int, j: int|
        #![trigger w[i][j]]
        0 <= i < w.len() && 0 <= j < w[i].len() ==> !is_white(w[i][j]) && w[i][j] != '<' && w[i][j]
            != '>'
}

proof fn lemma_join_first(w: Seq<Seq<char>>)
    requires
        w.len() > 1,
    ensures
        join_words(w) == w[0] + " "@ + join_words(w.drop_first()),
    decreases w.len(),
{
    let rest = w.drop_first();
    if w.len() == 2 {
        assert(join_words(w.drop_last()) == w[0]);
        assert(join_words(rest) == w[1]);
    } else {
        lemma_join_first(w.drop_last());
        assert(w.drop_last().drop_first() =~= rest.drop_last());
        let middle = join_words(rest.drop_last());
        assert((w[0] + " "@ + middle) + " "@ + w.last() =~= w[0] + " "@ + (middle + " "@
            + w.last()));
    }
}

proof fn lemma_join_words(w: Seq<Seq<char>>)
    requires
        are_plain_words(w),
    ensures
        !has_bracket(join_words(w)),
        is_single_spaced(join_words(w)),
        words(join_words(w)) == w,
        w.len() > 0 ==> join_words(w).len() > 0 && !is_white(join_words(w)[0]),
    decreases w.len(),
{
    reveal_strlit(" ");
    let t = join_words(w);
    if w.len() == 0 {
        assert(words(t) =~= w);
    } else if w.len() == 1 {
        assert(t == w[0]);
        assert forall|i: int| 0 <= i < t.len() implies !is_white(#[trigger] t[i]) && t[i] != '<'
            && t[i] != '>' by {
            assert(t[i] == w[0][i]);
        }
        lemma_first_word(t, t.len() as int);
        assert(t.take(t.len() as int) =~= t);
        assert(words(t) =~= w);
    } else {
        let n = w[0].len() as int;
        let rest = w.drop_first();
        let more = join_words(rest);
        assert forall|i: int| 0 <= i < rest.len() implies (#[trigger] rest[i]).len() > 0 by {
            assert(rest[i] == w[i + 1]);
        }
        assert forall|i: int, j: int|
            #![trigger rest[i][j]]
            0 <= i < rest.len() && 0 <= j < rest[i].len() implies !is_white(rest[i][j])
            && rest[i][j] != '<' && rest[i][j] != '>' by {
            assert(rest[i][j] == w[i + 1][j]);
        }
        lemma_join_words(rest);
        lemma_join_first(w);
        let head = w[0] + " "@;
        assert(t == head + more);
        assert forall|i: int| 0 <= i < n implies !is_white(#[trigger] t[i]) && t[i] != '<' && t[i]
            != '>' by {
            assert(t[i] == w[0][i]);
        }
        assert(t[n] == ' ');
        assert forall|i: int| 0 <= i < more.len() implies #[trigger] more[i] == t[n + 1 + i] by {}
        assert forall|b: char| t.contains(b) && (b == '<' || b == '>') implies false by {
            let k = choose|k: int| 0 <= k < t.len() && t[k] == b;
            if k > n {
                assert(more[k - n - 1] == b);
                assert(more.contains(b));
            }
        }
        assert forall|i: int| 0 <= i < t.len() && is_white(#[trigger] t[i]) implies t[i] == ' ' && 0
            < i < t.len() - 1 && !is_white(t[i - 1]) && !is_white(t[i + 1]) by {
            if i == n {
                assert(more[0] == t[n + 1]);
                assert(t[n - 1] == w[0][n - 1]);
            } else if i > n {
                let x = i - n - 1;
                assert(more[x] == t[i]);
                assert(is_white(more[x]));
                assert(more[x - 1] == t[i - 1]);
                assert(more[x + 1] == t[i + 1]);
            }
        }
        lemma_first_word(t, n);
        assert(t.take(n) =~= w[0]);
        lemma_words_behind(head, more, 0);
        assert(words(t) =~= seq![w[0]] + rest);
        assert(seq![w[0]] + rest =~= w);
    }
}

/// Stripped text holds no angle bracket and no white space but single spaces between words, and
/// stays as it is when it is stripped again.
pub proof fn law_stripped_is_plain(s: Seq<char>)
    ensures
        !has_bracket(stripped(s)),
        is_single_spaced(stripped(s)),
        stripped(stripped(s)) == stripped(s),
{
    let text = outside_tags(s, 0, false);
    let w = words(text);
    lemma_outside_tags(s, 0, false);
    lemma_words_from(text, 0);
    assert(are_plain_words(w)) by {
        assert forall|i: int, j: int|
            #![trigger w[i][j]]
            0 <= i < w.len() && 0 <= j < w[i].len() implies !is_white(w[i][j]) && w[i][j] != '<'
            && w[i][j] != '>' by {
            assert(text.contains(w[i][j]));
        }
    }
    lemma_join_words(w);
    let t = stripped(s);
    lemma_no_tags(t, 0);
    assert(t.skip(0) =~= t);
}

pub fn join_with_spaces(parts: &Vec<String>) -> (r: String)
    ensures
        r@ == join_words(views(parts@)),
{
    let mut out: String = String::new();
    let mut i: usize = 0;
    assert(views(parts@).take(0) =~= Seq::<Seq<char>>::empty());
    while i < parts.len()
        invariant
            i <= parts.len(),
            out@ == join_words(views(parts@).take(i as int)),
        decreases parts.len() - i,
    {
        let ghost w = views(parts@);
        assert(w.take(i + 1).drop_last() =~= w.take(i as int));
        assert(w.take(i + 1).last() == parts@[i as int]@);
        if i > 0 {
            out.append(" ");
            out.append(parts[i].as_str());
        } else {
            out.append(parts[i].as_str());
            assert(out@ =~= parts@[0]@);
        }
        i = i + 1;
    }
    assert(views(parts@).take(i as int) =~= views(parts@));
    out
}

/// Removes the tags of a text and reduces its white space to single spaces.
pub fn strip_html_tags(value: &str) -> (r: String)
    ensures
        r@ == stripped(value@),
{
    let v: Vec<char> = chars_of(value);
    let mut out: String = String::new();
    let mut in_tag: bool = false;
    let mut i: usize = 0;
    assert(out@ + outside_tags(value@, 0, false) =~= outside_tags(value@, 0, false));
    while i < v.len()
        invariant
            i <= v.len(),
            v@ == value@,
            out@ + outside_tags(value@, i as int, in_tag) == outside_tags(value@, 0, false),
        decreases v.len() - i,
    {
        let ghost before = out@;
        let c: char = v[i];
        if c == '<' {
            in_tag = true;
        } else if c == '>' {
            in_tag = false;
            out.push(' ');
            proof {
                let rest = outside_tags(value@, i + 1, false);
                assert(before + (seq![' '] + rest) =~= before.push(' ') + rest);
            }
        } else if !in_tag {
            out.push(c);
            proof {
                let rest = outside_tags(value@, i + 1, false);
                assert(before + (seq![c] + rest) =~= before.push(c) + rest);
            }
        }
        i = i + 1;
    }
    assert(out@ + Seq::<char>::empty() =~= out@);
    join_with_spaces(&split_words(out.as_str()))
}

// ---------------------------------------------------------------------------
// Attributes
// ---------------------------------------------------------------------------
/// The text from behind the first occurrence of `opening` in the lower-cased tag up to the next
/// `quote`.
pub open spec fn quoted_value(tag: Seq<char>, opening: Seq<char>, quote: char) -> Option<
    Seq<char>,
> {
    match find_from(lower(tag), opening, 0) {
        Some(start) => {
            let from = start + opening.len();
            let end = run_until(tag, CharClass::Only(quote), from);
            if end < tag.len() {
                Some(tag.subrange(from, end))
            } else {
                None
            }
        },
        None => None,
    }
}

/// The text from behind the first occurrence of `opening` in the lower-cased tag up to white
/// space or the end of the tag, without quotes around it and not empty.
pub open spec fn bare_value(tag: Seq<char>, opening: Seq<char>) -> Option<Seq<char>> {
    match find_from(lower(tag), opening, 0) {
        Some(start) => {
            let from = start + opening.len();
            let end = run_until(tag, CharClass::TagEnd, from);
            let value = trim_of(
                trim_of(tag.subrange(from, end), CharClass::Only('"')),
                CharClass::Only('\''),
            );
            if value.len() > 0 {
                Some(value)
            } else {
                None
            }
        },
        None => None,
    }
}

/// The value of an attribute: in double quotes, else in single quotes, else bare.
pub open spec fn attribute(tag: Seq<char>, attr: Seq<char>) -> Option<Seq<char>> {
    match quoted_value(tag, attr + "=\""@, '"') {
        Some(v) => Some(v),
        None => match quoted_value(tag, attr + "='"@, '\'') {
            Some(v) => Some(v),
            None => bare_value(tag, attr + "="@),
        },
    }
}

/// A value in lower case.
pub open spec fn opt_lower(value: Option<Seq<char>>) -> Option<Seq<char>> {
    match value {
        Some(v) => Some(lower(v)),
        None => None,
    }
}

proof fn lemma_quoted_value_lower(tag: Seq<char>, opening: Seq<char>, quote: char)
    requires
        quote == '"' || quote == '\'',
    ensures
        quoted_value(lower(tag), opening, quote) == opt_lower(quoted_value(tag, opening, quote)),
{
    law_lower_idempotent(tag);
    law_find_from(lower(tag), opening, 0);
    if let Some(start) = find_from(lower(tag), opening, 0) {
        let from = start + opening.len();
        let k = CharClass::Only(quote);
        assert(is_caseless(k));
        lemma_run_until_lower(tag, k, from);
        lemma_run_until(tag, k, from);
        let end = run_until(tag, k, from);
        if end < tag.len() {
            assert(lower(tag).subrange(from, end) =~= lower(tag.subrange(from, end)));
        }
    }
}

proof fn lemma_bare_value_lower(tag: Seq<char>, opening: Seq<char>)
    ensures
        bare_value(lower(tag), opening) == opt_lower(bare_value(tag, opening)),
{
    law_lower_idempotent(tag);
    law_find_from(lower(tag), opening, 0);
    if let Some(start) = find_from(lower(tag), opening, 0) {
        let from = start + opening.len();
        let k = CharClass::TagEnd;
        assert(is_caseless(k));
        lemma_run_until_lower(tag, k, from);
        lemma_run_until(tag, k, from);
        let end = run_until(tag, k, from);
        let raw = tag.subrange(from, end);
        assert(lower(tag).subrange(from, end) =~= lower(raw));
        assert(is_caseless(CharClass::Only('"')));
        assert(is_caseless(CharClass::Only('\'')));
        lemma_trim_lower(raw, CharClass::Only('"'));
        lemma_trim_lower(trim_of(raw, CharClass::Only('"')), CharClass::Only('\''));
    }
}

/// The value of an attribute of a tag in lower case is the value in lower case.
pub proof fn law_attribute_of_lower(tag: Seq<char>, attr: Seq<char>)
    ensures
        attribute(lower(tag), attr) == opt_lower(attribute(tag, attr)),
{
    lemma_quoted_value_lower(tag, attr + "=\""@, '"');
    lemma_quoted_value_lower(tag, attr + "='"@, '\'');
    lemma_bare_value_lower(tag, attr + "="@);
}

fn quoted_value_of(tag: &Vec<char>, lowered: &Vec<char>, opening: &str, quote: char) -> (r: Option<
    String,
>)
    requires
        lowered@ == lower(tag@),
    ensures
        r is Some == quoted_value(tag@, opening@, quote) is Some,
        r matches Some(v) ==> quoted_value(tag@, opening@, quote) == Some(v@),
{
    let p: Vec<char> = chars_of(opening);
    match find_chars(lowered, &p, 0) {
        Some(start) => {
            let from: usize = start + p.len();
            let end: usize = seek_run(tag, CharClass::Only(quote), from);
            if end < tag.len() {
                Some(string_of(tag, from, end))
            } else {
                None
            }
        },
        None => None,
    }
}

fn bare_value_of(tag: &Vec<char>, lowered: &Vec<char>, opening: &str) -> (r: Option<String>)
    requires
        lowered@ == lower(tag@),
    ensures
        r is Some == bare_value(tag@, opening@) is Some,
        r matches Some(v) ==> bare_value(tag@, opening@) == Some(v@),
{
    let p: Vec<char> = chars_of(opening);
    match find_chars(lowered, &p, 0) {
        Some(start) => {
            let from: usize = start + p.len();
            let end: usize = seek_run(tag, CharClass::TagEnd, from);
            let raw: String = string_of(tag, from, end);
            let once: String = trim_matches(raw.as_str(), CharClass::Only('"'));
            let value: String = trim_matches(once.as_str(), CharClass::Only('\''));
            if value.as_str().is_empty() {
                None
            } else {
                Some(value)
            }
        },
        None => None,
    }
}

/// The value of the attribute `attr` of a tag.
pub fn extract_attribute_value(tag: &str, attr: &str) -> (r: Option<String>)
    ensures
        r is Some == attribute(tag@, attr@) is Some,
        r matches Some(v) ==> attribute(tag@, attr@) == Some(v@),
{
    let chars: Vec<char> = chars_of(tag);
    let lowered: Vec<char> = lower_chars(&chars);
    let double: String = attr.to_owned().concat("=\"");
    if let Some(v) = quoted_value_of(&chars, &lowered, double.as_str(), '"') {
        return Some(v);
    }
    let single: String = attr.to_owned().concat("='");
    if let Some(v) = quoted_value_of(&chars, &lowered, single.as_str(), '\'') {
        return Some(v);
    }
    let bare: String = attr.to_owned().concat("=");
    bare_value_of(&chars, &lowered, bare.as_str())
}

// ---------------------------------------------------------------------------
// Scanning
// ---------------------------------------------------------------------------
/// The tags from position `i` on that begin with `opening`, each up to its closing bracket.
pub open spec fn tags_from(html: Seq<char>, opening: Seq<char>, i: int) -> Seq<Seq<char>>
    decreases html.len() - i,
{
    match find_from(lower(html), opening, i) {
        Some(start) => {
            let end = run_until(html, CharClass::Only('>'), start);
            if i < 0 || start < i || end < start || end >= html.len() {
                Seq::empty()
            } else {
                seq![html.subrange(start, end + 1)] + tags_from(html, opening, end + 1)
            }
        },
        None => Seq::empty(),
    }
}

pub open spec fn tags(html: Seq<char>, opening: Seq<char>) -> Seq<Seq<char>> {
    tags_from(html, opening, 0)
}

/// The tags of a text that begin with `opening`.
pub fn scan_tags(html: &str, opening: &str) -> (r: Vec<String>)
    ensures
        views(r@) == tags(html@, opening@),
{
    let v: Vec<char> = chars_of(html);
    let lowered: Vec<char> = lower_chars(&v);
    let p: Vec<char> = chars_of(opening);
    let mut out: Vec<String> = Vec::new();
    let mut cursor: usize = 0;
    assert(views(out@) + tags_from(html@, opening@, 0) =~= tags(html@, opening@));
    loop
        invariant
            cursor <= v.len(),
            v@ == html@,
            lowered@ == lower(html@),
            p@ == opening@,
            views(out@) + tags_from(html@, opening@, cursor as int) == tags(html@, opening@),
        ensures
            views(out@) == tags(html@, opening@),
        decreases v.len() - cursor,
    {
        let ghost before = views(out@);
        assert(before + Seq::<Seq<char>>::empty() =~= before);
        match find_chars(&lowered, &p, cursor) {
            None => {
                break;
            },
            Some(start) => {
                let end: usize = seek_run(&v, CharClass::Only('>'), start);
                if end >= v.len() {
                    break;
                }
                let tag: String = string_of(&v, start, end + 1);
                out.push(tag);
                proof {
                    let w = html@.subrange(start as int, end + 1);
                    let rest = tags_from(html@, opening@, end + 1);
                    assert(views(out@) =~= before.push(w));
                    assert(before + (seq![w] + rest) =~= before.push(w) + rest);
                }
                cursor = end + 1;
            },
        }
    }
    out
}

/// What stands between an opening tag that begins with `opening` and the next `closing`, from
/// position `i` on.
pub open spec fn sections_from(
    html: Seq<char>,
    opening: Seq<char>,
    closing: Seq<char>,
    i: int,
) -> Seq<Seq<char>>
    decreases html.len() - i,
{
    match find_from(lower(html), opening, i) {
        Some(start) => {
            let tag_end = run_until(html, CharClass::Only('>'), start);
            match find_from(lower(html), closing, tag_end + 1) {
                Some(end) => if i < 0 || start < i || tag_end < start || tag_end >= html.len()
                    || end <= tag_end || end + closing.len() > html.len() {
                    Seq::empty()
                } else {
                    seq![html.subrange(tag_end + 1, end)] + sections_from(
                        html,
                        opening,
                        closing,
                        end + closing.len(),
                    )
                },
                None => Seq::empty(),
            }
        },
        None => Seq::empty(),
    }
}

pub open spec fn sections(html: Seq<char>, section_tag: Seq<char>) -> Seq<Seq<char>> {
    sections_from(html, "<"@ + section_tag, "</"@ + section_tag + ">"@, 0)
}

/// The contents of the elements with the given tag.
pub fn extract_section_html_fragments(html: &str, section_tag: &str) -> (r: Vec<String>)
    ensures
        views(r@) == sections(html@, section_tag@),
{
    let v: Vec<char> = chars_of(html);
    let lowered: Vec<char> = lower_chars(&v);
    let open_token: String = "<".to_owned().concat(section_tag);
    let close_token: String = "</".to_owned().concat(section_tag).concat(">");
    let opening: Vec<char> = chars_of(open_token.as_str());
    let closing: Vec<char> = chars_of(close_token.as_str());
    let mut out: Vec<String> = Vec::new();
    let mut cursor: usize = 0;
    assert(views(out@) + sections_from(html@, opening@, closing@, 0) =~= sections(
        html@,
        section_tag@,
    ));
    loop
        invariant
            cursor <= v.len(),
            v@ == html@,
            lowered@ == lower(html@),
            views(out@) + sections_from(html@, opening@, closing@, cursor as int) == sections(
                html@,
                section_tag@,
            ),
        ensures
            views(out@) == sections(html@, section_tag@),
        decreases v.len() - cursor,
    {
        let ghost before = views(out@);
        assert(before + Seq::<Seq<char>>::empty() =~= before);
        let start: usize = match find_chars(&lowered, &opening, cursor) {
            Some(start) => start,
            None => {
                break;
            },
        };
        let tag_end: usize = seek_run(&v, CharClass::Only('>'), start);
        proof {
            lemma_run_until(html@, CharClass::Only('>'), start as int);
        }
        if tag_end >= v.len() {
            proof {
                law_find_from(lower(html@), closing@, tag_end + 1);
            }
            break;
        }
        let end: usize = match find_chars(&lowered, &closing, tag_end + 1) {
            Some(end) => end,
            None => {
                break;
            },
        };
        let section: String = string_of(&v, tag_end + 1, end);
        out.push(section);
        proof {
            let w = html@.subrange(tag_end + 1, end as int);
            let rest = sections_from(html@, opening@, closing@, end + closing.len());
            assert(views(out@) =~= before.push(w));
            assert(before + (seq![w] + rest) =~= before.push(w) + rest);
        }
        cursor = end + closing.len();
    }
    out
}

// ---------------------------------------------------------------------------
// How markup comes apart
// ---------------------------------------------------------------------------
proof fn lemma_outside_tags_behind(a: Seq<char>, b: Seq<char>, i: int, in_tag: bool)
    requires
        0 <= i,
    ensures
        outside_tags(a + b, a.len() + i, in_tag) == outside_tags(b, i, in_tag),
    decreases b.len() - i,
{
    if i < b.len() {
        lemma_outside_tags_behind(a, b, i + 1, true);
        lemma_outside_tags_behind(a, b, i + 1, false);
        assert((a + b)[a.len() + i] == b[i]);
    }
}

proof fn lemma_outside_tags_text(a: Seq<char>, b: Seq<char>, i: int)
    requires
        !has_bracket(a),
        0 <= i <= a.len(),
    ensures
        outside_tags(a + b, i, false) == a.skip(i) + outside_tags(b, 0, false),
    decreases a.len() - i,
{
    if i < a.len() {
        assert((a + b)[i] == a[i]);
        assert(a.contains(a[i]));
        lemma_outside_tags_text(a, b, i + 1);
        assert(seq![a[i]] + (a.skip(i + 1) + outside_tags(b, 0, false)) =~= a.skip(i)
            + outside_tags(b, 0, false));
    } else {
        lemma_outside_tags_behind(a, b, 0, false);
        assert(a.skip(i) + outside_tags(b, 0, false) =~= outside_tags(b, 0, false));
    }
}

proof fn lemma_inside_tag(t: Seq<char>, b: Seq<char>, i: int)
    requires
        !has_bracket(t),
        0 <= i <= t.len(),
    ensures
        outside_tags(t.push('>') + b, i, true) == seq![' '] + outside_tags(b, 0, false),
    decreases t.len() - i,
{
    let s = t.push('>') + b;
    if i < t.len() {
        assert(s[i] == t[i]);
        assert(t.contains(t[i]));
        lemma_inside_tag(t, b, i + 1);
    } else {
        assert(s[i] == '>');
        lemma_outside_tags_behind(t.push('>'), b, 0, false);
    }
}

/// Text outside of tags is kept, and a tag leaves a space.
pub proof fn law_tags_leave_spaces(text: Seq<char>, tag: Seq<char>, rest: Seq<char>)
    requires
        !has_bracket(text),
        !has_bracket(tag),
    ensures
        outside_tags(text, 0, false) == text,
        outside_tags(text + (seq!['<'] + (tag.push('>') + rest)), 0, false) == text + (seq![' ']
            + outside_tags(rest, 0, false)),
{
    let inner = tag.push('>') + rest;
    let s = seq!['<'] + inner;
    lemma_outside_tags_text(text, s, 0);
    lemma_no_tags(text, 0);
    assert(text.skip(0) =~= text);
    assert(s[0] == '<');
    lemma_outside_tags_behind(seq!['<'], inner, 0, true);
    lemma_inside_tag(tag, rest, 0);
}

/// Stripping keeps all the words outside of tags.
pub proof fn law_stripping_keeps_words(s: Seq<char>)
    ensures
        words(stripped(s)) == words(outside_tags(s, 0, false)),
{
    let text = outside_tags(s, 0, false);
    let w = words(text);
    lemma_outside_tags(s, 0, false);
    lemma_words_from(text, 0);
    assert(are_plain_words(w)) by {
        assert forall|i: int, j: int|
            #![trigger w[i][j]]
            0 <= i < w.len() && 0 <= j < w[i].len() implies !is_white(w[i][j]) && w[i][j] != '<'
            && w[i][j] != '>' by {
            assert(text.contains(w[i][j]));
        }
    }
    lemma_join_words(w);
}

proof fn lemma_find_first(s: Seq<char>, pat: Seq<char>, from: int, at: int)
    requires
        0 <= from <= at,
        matches_at(s, pat, at),
        forall|j: int| from <= j < at ==> !#[trigger] matches_at(s, pat, j),
    ensures
        find_from(s, pat, from) == Some(at),
{
    law_find_from(s, pat, from);
}

proof fn lemma_find_behind(a: Seq<char>, b: Seq<char>, pat: Seq<char>, i: int)
    requires
        0 <= i,
    ensures
        find_from(a + b, pat, a.len() + i) == match find_from(b, pat, i) {
            Some(j) => Some(a.len() + j),
            None => None,
        },
{
    let s = a + b;
    let n = a.len() as int;
    assert forall|j: int| 0 <= j implies #[trigger] matches_at(b, pat, j) == matches_at(
        s,
        pat,
        n + j,
    ) by {
        if j + pat.len() <= b.len() {
            assert(s.subrange(n + j, n + j + pat.len()) =~= b.subrange(j, j + pat.len()));
        }
    }
    law_find_from(b, pat, i);
    law_find_from(s, pat, n + i);
    if let Some(x) = find_from(s, pat, n + i) {
        assert(matches_at(b, pat, x - n));
    }
    if let Some(y) = find_from(b, pat, i) {
        assert(matches_at(s, pat, n + y));
        if let Some(x) = find_from(s, pat, n + i) {
            if x < n + y {
                assert(matches_at(b, pat, x - n));
            }
        }
    }
}

proof fn lemma_until_behind(a: Seq<char>, b: Seq<char>, c: char, i: int)
    requires
        0 <= i <= b.len(),
    ensures
        run_until(a + b, CharClass::Only(c), a.len() + i) == a.len() + run_until(
            b,
            CharClass::Only(c),
            i,
        ),
    decreases b.len() - i,
{
    if i < b.len() {
        assert((a + b)[a.len() + i] == b[i]);
        lemma_until_behind(a, b, c, i + 1);
    }
}

proof fn lemma_tags_behind(a: Seq<char>, b: Seq<char>, opening: Seq<char>, i: int)
    requires
        0 <= i <= b.len(),
        opening.len() > 0,
    ensures
        tags_from(a + b, opening, a.len() + i) == tags_from(b, opening, i),
    decreases b.len() - i,
{
    let s = a + b;
    assert(lower(s) =~= lower(a) + lower(b));
    lemma_find_behind(lower(a), lower(b), opening, i);
    law_find_from(lower(b), opening, i);
    if let Some(start) = find_from(lower(b), opening, i) {
        lemma_until_behind(a, b, '>', start);
        lemma_run_until(b, CharClass::Only('>'), start);
        let end = run_until(b, CharClass::Only('>'), start);
        if end < b.len() {
            assert(s.subrange(a.len() + start, a.len() + end + 1) =~= b.subrange(start, end + 1));
            lemma_tags_behind(a, b, opening, end + 1);
        }
    }
}

/// The first tag of a page comes before the tags of what follows it; a page without one has none.
pub proof fn law_tags(before: Seq<char>, tag: Seq<char>, after: Seq<char>, opening: Seq<char>)
    requires
        opening.len() > 0,
        tag.len() > 0,
        tag.last() == '>',
        forall|j: int| 0 <= j < tag.len() - 1 ==> #[trigger] tag[j] != '>',
        matches_at(lower(tag), opening, 0),
        forall|j: int|
            0 <= j < before.len() ==> !#[trigger] matches_at(
                lower(before + tag + after),
                opening,
                j,
            ),
    ensures
        tags(before + tag + after, opening) == seq![tag] + tags(after, opening),
{
    let s = before + tag + after;
    let n = before.len() as int;
    let k = CharClass::Only('>');
    assert(lower(s).subrange(n, n + opening.len()) =~= lower(tag).subrange(0, opening.len() as int));
    lemma_find_first(lower(s), opening, 0, n);
    lemma_run_until(s, k, n);
    let end = run_until(s, k, n);
    let last = n + tag.len() - 1;
    assert(s[last] == tag.last());
    if end < last {
        assert(s[end] == tag[end - n]);
    }
    if end > last {
        assert(!in_class(k, s[last]));
    }
    assert(s.subrange(n, end + 1) =~= tag);
    lemma_tags_behind(before + tag, after, opening, 0);
}

/// A page that a tag does not open in has no such tags.
pub proof fn law_no_tags(html: Seq<char>, opening: Seq<char>)
    requires
        !contains_text(lower(html), opening),
    ensures
        tags(html, opening).len() == 0,
{
    law_find_from(lower(html), opening, 0);
}

proof fn lemma_sections_behind(
    a: Seq<char>,
    b: Seq<char>,
    opening: Seq<char>,
    closing: Seq<char>,
    i: int,
)
    requires
        0 <= i <= b.len(),
        opening.len() > 0,
        closing.len() > 0,
    ensures
        sections_from(a + b, opening, closing, a.len() + i) == sections_from(b, opening, closing, i),
    decreases b.len() - i,
{
    let s = a + b;
    let n = a.len() as int;
    assert(lower(s) =~= lower(a) + lower(b));
    lemma_find_behind(lower(a), lower(b), opening, i);
    law_find_from(lower(b), opening, i);
    if let Some(start) = find_from(lower(b), opening, i) {
        lemma_until_behind(a, b, '>', start);
        lemma_run_until(b, CharClass::Only('>'), start);
        let tag_end = run_until(b, CharClass::Only('>'), start);
        lemma_find_behind(lower(a), lower(b), closing, tag_end + 1);
        law_find_from(lower(b), closing, tag_end + 1);
        if let Some(end) = find_from(lower(b), closing, tag_end + 1) {
            assert(s.subrange(n + tag_end + 1, n + end) =~= b.subrange(tag_end + 1, end));
            lemma_sections_behind(a, b, opening, closing, end + closing.len());
        }
    }
}

/// The first element of a page with a tag gives what it holds, before the elements of what follows
/// it.
pub proof fn law_sections(
    before: Seq<char>,
    tag: Seq<char>,
    inner: Seq<char>,
    closing: Seq<char>,
    after: Seq<char>,
    name: Seq<char>,
)
    requires
        tag.len() > 0,
        tag.last() == '>',
        forall|j: int| 0 <= j < tag.len() - 1 ==> #[trigger] tag[j] != '>',
        matches_at(lower(tag), "<"@ + name, 0),
        lower(closing) == "</"@ + name + ">"@,
        forall|j: int|
            0 <= j < before.len() ==> !#[trigger] matches_at(
                lower(before + tag + inner + closing + after),
                "<"@ + name,
                j,
            ),
        forall|j: int|
            0 <= j < inner.len() ==> !#[trigger] matches_at(
                lower(inner + closing + after),
                "</"@ + name + ">"@,
                j,
            ),
    ensures
        sections(before + tag + inner + closing + after, name) == seq![inner] + sections(
            after,
            name,
        ),
{
    reveal_strlit("<");
    reveal_strlit("</");
    reveal_strlit(">");
    let open = "<"@ + name;
    let shut = "</"@ + name + ">"@;
    let s = before + tag + inner + closing + after;
    let n = before.len() as int;
    let k = CharClass::Only('>');
    assert(lower(s).subrange(n, n + open.len()) =~= lower(tag).subrange(0, open.len() as int));
    lemma_find_first(lower(s), open, 0, n);
    lemma_run_until(s, k, n);
    let tag_end = run_until(s, k, n);
    let last = n + tag.len() - 1;
    assert(s[last] == tag.last());
    if tag_end < last {
        assert(s[tag_end] == tag[tag_end - n]);
    }
    if tag_end > last {
        assert(!in_class(k, s[last]));
    }
    let head = before + tag;
    let rest = inner + closing + after;
    assert(s =~= head + rest);
    assert(lower(s) =~= lower(head) + lower(rest));
    let m = inner.len() as int;
    assert(lower(rest).subrange(m, m + shut.len()) =~= lower(closing));
    lemma_find_first(lower(rest), shut, 0, inner.len() as int);
    lemma_find_behind(lower(head), lower(rest), shut, 0);
    let end = head.len() + inner.len();
    assert(find_from(lower(s), shut, tag_end + 1) == Some(end as int));
    assert(s.subrange(tag_end + 1, end as int) =~= inner);
    lemma_sections_behind(head + inner + closing, after, open, shut, 0);
    assert(head + inner + closing + after =~= s);
}

/// An attribute in double quotes has the value between them, as it is written.
pub proof fn law_quoted_attributes(
    before: Seq<char>,
    name: Seq<char>,
    value: Seq<char>,
    after: Seq<char>,
)
    requires
        lower(name) == name,
        !value.contains('"'),
        forall|j: int|
            0 <= j < before.len() ==> !#[trigger] matches_at(
                lower(before + name + "=\""@ + value + "\""@ + after),
                name + "=\""@,
                j,
            ),
    ensures
        attribute(before + name + "=\""@ + value + "\""@ + after, name) == Some(value),
{
    reveal_strlit("=\"");
    reveal_strlit("\"");
    let opening = name + "=\""@;
    let tag = before + name + "=\""@ + value + "\""@ + after;
    let n = before.len() as int;
    let k = CharClass::Only('"');
    assert(lower("=\""@) =~= "=\""@);
    assert(lower(tag).subrange(n, n + opening.len()) =~= lower(name) + lower("=\""@));
    lemma_find_first(lower(tag), opening, 0, n);
    let from = n + opening.len();
    lemma_run_until(tag, k, from);
    let end = run_until(tag, k, from);
    let last = from + value.len();
    assert(tag[last] == '"');
    if end < last {
        assert(tag[end] == value[end - from]);
    }
    if end > last {
        assert(!in_class(k, tag[last]));
    }
    assert(tag.subrange(from, end) =~= value);
}

proof fn lemma_shorter_text(s: Seq<char>, a: Seq<char>, b: Seq<char>)
    requires
        !contains_text(s, a),
    ensures
        !contains_text(s, a + b),
{
    if contains_text(s, a + b) {
        let j = choose|j: int| matches_at(s, a + b, j);
        assert(s.subrange(j, j + a.len()) =~= (a + b).subrange(0, a.len() as int)) by {
            assert(s.subrange(j, j + a.len()) =~= s.subrange(j, j + (a + b).len()).subrange(
                0,
                a.len() as int,
            ));
        }
        assert((a + b).subrange(0, a.len() as int) =~= a);
        assert(matches_at(s, a, j));
    }
}

/// A tag that does not hold the name of an attribute before an equals sign does not have it.
pub proof fn law_missing_attributes(tag: Seq<char>, name: Seq<char>)
    requires
        !contains_text(lower(tag), name + "="@),
    ensures
        attribute(tag, name) is None,
{
    reveal_strlit("=");
    reveal_strlit("=\"");
    reveal_strlit("='");
    reveal_strlit("\"");
    reveal_strlit("'");
    let t = lower(tag);
    lemma_shorter_text(t, name + "="@, "\""@);
    lemma_shorter_text(t, name + "="@, "'"@);
    assert(name + "="@ + "\""@ =~= name + "=\""@);
    assert(name + "="@ + "'"@ =~= name + "='"@);
    law_find_from(t, name + "=\""@, 0);
    law_find_from(t, name + "='"@, 0);
    law_find_from(t, name + "="@, 0);
}

/// Escaping turns the five special characters into their entities and keeps the others.
pub proof fn law_escaping(s: Seq<char>, c: char)
    ensures
        escaped(Seq::empty()).len() == 0,
        c == '&' ==> escaped(s.push(c)) == escaped(s) + "&amp;"@,
        c == '<' ==> escaped(s.push(c)) == escaped(s) + "&lt;"@,
        c == '>' ==> escaped(s.push(c)) == escaped(s) + "&gt;"@,
        c == '"' ==> escaped(s.push(c)) == escaped(s) + "&quot;"@,
        c == '\'' ==> escaped(s.push(c)) == escaped(s) + "&#39;"@,
        !(c == '&' || c == '<' || c == '>' || c == '"' || c == '\'') ==> escaped(s.push(c))
            == escaped(s).push(c),
{
    assert(s.push(c).drop_last() =~= s);
    assert(escaped(s) + seq![c] =~= escaped(s).push(c));
}

} // verus!
