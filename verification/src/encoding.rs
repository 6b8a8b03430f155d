//! Text inside web addresses: percent-encoding.

use vstd::prelude::*;
use vstd::string::*;
use vstd::utf8::{encode_utf8, encode_utf8_decode_utf8};

verus! {

pub open spec fn is_alnum_byte(b: u8) -> bool {
    48 <= b <= 57 || 65 <= b <= 90 || 97 <= b <= 122
}

/// The bytes that a component of an address may hold as they are: letters, digits and `-._~`.
pub open spec fn is_component_byte(b: u8) -> bool {
    is_alnum_byte(b) || b == 45 || b == 46 || b == 95 || b == 126
}

/// The bytes that a form field may hold as they are: letters, digits and `*-._`.
pub open spec fn is_form_byte(b: u8) -> bool {
    is_alnum_byte(b) || b == 42 || b == 45 || b == 46 || b == 95
}

/// The upper-case hexadecimal digit for a value below sixteen.
pub open spec fn upper_hex(d: int) -> char {
    if d < 10 {
        ((48 + d) as u32) as char
    } else {
        ((55 + d) as u32) as char
    }
}

/// A byte written with a percent sign and two digits.
pub open spec fn percent_byte(b: u8) -> Seq<char> {
    seq!['%', upper_hex(b as int / 16), upper_hex(b as int % 16)]
}

pub open spec fn component_byte(b: u8) -> Seq<char> {
    if is_component_byte(b) {
        seq![b as char]
    } else {
        percent_byte(b)
    }
}

pub open spec fn form_byte(b: u8) -> Seq<char> {
    if is_form_byte(b) {
        seq![b as char]
    } else if b == 32 {
        seq!['+']
    } else {
        percent_byte(b)
    }
}

/// Bytes as a component of an address.
pub open spec fn component_bytes(bytes: Seq<u8>) -> Seq<char>
    decreases bytes.len(),
{
    if bytes.len() == 0 {
        Seq::empty()
    } else {
        component_byte(bytes[0]) + component_bytes(bytes.drop_first())
    }
}

/// Bytes as a form field.
pub open spec fn form_bytes(bytes: Seq<u8>) -> Seq<char>
    decreases bytes.len(),
{
    if bytes.len() == 0 {
        Seq::empty()
    } else {
        form_byte(bytes[0]) + form_bytes(bytes.drop_first())
    }
}

/// A text as a component of an address: its UTF-8 bytes, all but the plain ones percent-encoded.
pub open spec fn component_encoded(text: Seq<char>) -> Seq<char> {
    component_bytes(encode_utf8(text))
}

/// A text as a form field: its UTF-8 bytes, spaces as plus signs, others percent-encoded.
pub open spec fn form_encoded(text: Seq<char>) -> Seq<char> {
    form_bytes(encode_utf8(text))
}

/// `urlencoding::encode`: letters, digits and `-._~` stay, every other byte of the UTF-8 text is
/// written as a percent sign and two upper-case hexadecimal digits.
#[verifier::external_body]
pub(crate) fn encode_component(text: &str) -> (r: String)
    ensures
        r@ == component_encoded(text@),
{
    urlencoding::encode(text).into_owned()
}

/// `url::form_urlencoded::byte_serialize` on the UTF-8 bytes of a text, its slices joined:
/// letters, digits and `*-._` stay, a space becomes a plus sign, every other byte is written as a
/// percent sign and two upper-case hexadecimal digits.
#[verifier::external_body]
pub(crate) fn encode_form_text(text: &str) -> (r: String)
    ensures
        r@ == form_encoded(text@),
{
    url::form_urlencoded::byte_serialize(text.as_bytes()).collect()
}

proof fn lemma_percent_byte(a: u8, b: u8)
    requires
        percent_byte(a) == percent_byte(b),
    ensures
        a == b,
{
    let x = percent_byte(a);
    let y = percent_byte(b);
    assert(x[1] == y[1] && x[2] == y[2]);
    lemma_upper_hex(a as int / 16, b as int / 16);
    lemma_upper_hex(a as int % 16, b as int % 16);
}

proof fn lemma_upper_hex(d: int, e: int)
    requires
        0 <= d < 16,
        0 <= e < 16,
        upper_hex(d) == upper_hex(e),
    ensures
        d == e,
{
}

proof fn lemma_form_bytes_injective(a: Seq<u8>, b: Seq<u8>)
    requires
        form_bytes(a) == form_bytes(b),
    ensures
        a == b,
    decreases a.len(),
{
    if a.len() == 0 {
        if b.len() > 0 {
            assert(form_bytes(b).len() > 0);
        }
        assert(a =~= b);
    } else if b.len() == 0 {
        assert(form_bytes(a).len() > 0);
    } else {
        let x = form_byte(a[0]);
        let y = form_byte(b[0]);
        let s = form_bytes(a);
        assert(s[0] == x[0] && s[0] == y[0]);
        assert(x.len() == y.len());
        assert(x =~= s.take(x.len() as int));
        assert(y =~= s.take(y.len() as int));
        if !is_form_byte(a[0]) && a[0] != 32 {
            lemma_percent_byte(a[0], b[0]);
        }
        assert(a[0] == b[0]);
        assert(form_bytes(a.drop_first()) =~= s.skip(x.len() as int));
        assert(form_bytes(b.drop_first()) =~= s.skip(y.len() as int));
        lemma_form_bytes_injective(a.drop_first(), b.drop_first());
        assert(a =~= seq![a[0]] + a.drop_first());
        assert(b =~= seq![b[0]] + b.drop_first());
    }
}

proof fn lemma_component_bytes_injective(a: Seq<u8>, b: Seq<u8>)
    requires
        component_bytes(a) == component_bytes(b),
    ensures
        a == b,
    decreases a.len(),
{
    if a.len() == 0 {
        if b.len() > 0 {
            assert(component_bytes(b).len() > 0);
        }
        assert(a =~= b);
    } else if b.len() == 0 {
        assert(component_bytes(a).len() > 0);
    } else {
        let x = component_byte(a[0]);
        let y = component_byte(b[0]);
        let s = component_bytes(a);
        assert(s[0] == x[0] && s[0] == y[0]);
        assert(x.len() == y.len());
        assert(x =~= s.take(x.len() as int));
        assert(y =~= s.take(y.len() as int));
        if !is_component_byte(a[0]) {
            lemma_percent_byte(a[0], b[0]);
        }
        assert(a[0] == b[0]);
        assert(component_bytes(a.drop_first()) =~= s.skip(x.len() as int));
        assert(component_bytes(b.drop_first()) =~= s.skip(y.len() as int));
        lemma_component_bytes_injective(a.drop_first(), b.drop_first());
        assert(a =~= seq![a[0]] + a.drop_first());
        assert(b =~= seq![b[0]] + b.drop_first());
    }
}

/// Texts that differ are encoded differently.
pub proof fn law_encoding_is_injective(a: Seq<char>, b: Seq<char>)
    ensures
        component_encoded(a) == component_encoded(b) ==> a == b,
        form_encoded(a) == form_encoded(b) ==> a == b,
{
    encode_utf8_decode_utf8(a);
    encode_utf8_decode_utf8(b);
    if component_encoded(a) == component_encoded(b) {
        lemma_component_bytes_injective(encode_utf8(a), encode_utf8(b));
    }
    if form_encoded(a) == form_encoded(b) {
        lemma_form_bytes_injective(encode_utf8(a), encode_utf8(b));
    }
}

/// The characters that an encoded text may hold.
pub open spec fn is_encoded_char(c: char) -> bool {
    '0' <= c <= '9' || 'A' <= c <= 'Z' || 'a' <= c <= 'z' || c == '-' || c == '.' || c == '_' || c
        == '~' || c == '*' || c == '+' || c == '%'
}

pub open spec fn is_encoded(s: Seq<char>) -> bool {
    forall|i: int| 0 <= i < s.len() ==> is_encoded_char(#[trigger] s[i])
}

proof fn lemma_bytes_are_encoded(bytes: Seq<u8>)
    ensures
        is_encoded(component_bytes(bytes)),
        is_encoded(form_bytes(bytes)),
    decreases bytes.len(),
{
    if bytes.len() > 0 {
        lemma_bytes_are_encoded(bytes.drop_first());
        assert(is_encoded(component_byte(bytes[0])));
        assert(is_encoded(form_byte(bytes[0])));
    }
}

/// An encoded text holds letters, digits and a few marks, and none that divides an address.
pub proof fn law_encoded_is_plain(text: Seq<char>)
    ensures
        is_encoded(component_encoded(text)),
        is_encoded(form_encoded(text)),
{
    lemma_bytes_are_encoded(encode_utf8(text));
}

/// The value of an upper-case hexadecimal digit.
pub open spec fn hex_value(c: char) -> int {
    if '0' <= c <= '9' {
        c as int - 48
    } else {
        c as int - 55
    }
}

/// The bytes of letters, digits and a few signs stay as they are; another byte is a percent sign and
/// its two hexadecimal digits; in form fields, a space is a plus sign.
pub proof fn law_encoded_bytes(b: u8)
    ensures
        ({
            let plain = 48 <= b <= 57 || 65 <= b <= 90 || 97 <= b <= 122 || b == 45 || b == 46 || b
                == 95;
            let c = component_byte(b);
            let f = form_byte(b);
            &&& plain || b == 126 ==> c == seq![b as char]
            &&& !(plain || b == 126) ==> c.len() == 3 && c[0] == '%' && 16 * hex_value(c[1])
                + hex_value(c[2]) == b
            &&& plain || b == 42 ==> f == seq![b as char]
            &&& b == 32 ==> f == seq!['+']
            &&& !(plain || b == 42 || b == 32) ==> f.len() == 3 && f[0] == '%' && 16 * hex_value(
                f[1],
            ) + hex_value(f[2]) == b
        }),
{
}

/// Each byte of a text is encoded by itself, in its place.
pub proof fn law_bytes_are_encoded_in_order(a: Seq<u8>, b: u8)
    ensures
        component_bytes(a.push(b)) == component_bytes(a) + component_byte(b),
        form_bytes(a.push(b)) == form_bytes(a) + form_byte(b),
    decreases a.len(),
{
    let all = a.push(b);
    if a.len() == 0 {
        let none = Seq::<u8>::empty();
        assert(all.drop_first() =~= none && a =~= none && all[0] == b);
        assert(component_bytes(none) =~= Seq::<char>::empty());
        assert(form_bytes(none) =~= Seq::<char>::empty());
        assert(component_byte(b) + Seq::<char>::empty() =~= Seq::<char>::empty() + component_byte(
            b,
        ));
        assert(form_byte(b) + Seq::<char>::empty() =~= Seq::<char>::empty() + form_byte(b));
    } else {
        law_bytes_are_encoded_in_order(a.drop_first(), b);
        assert(all.drop_first() =~= a.drop_first().push(b) && all[0] == a[0]);
        assert(component_byte(a[0]) + (component_bytes(a.drop_first()) + component_byte(b))
            =~= component_bytes(a) + component_byte(b));
        assert(form_byte(a[0]) + (form_bytes(a.drop_first()) + form_byte(b)) =~= form_bytes(a)
            + form_byte(b));
    }
}

} // verus!
