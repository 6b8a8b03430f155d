//! Passwords, sign-up addresses and keys.

use std::collections::hash_map::DefaultHasher;
use std::hash::{Hash, Hasher};
use vstd::prelude::*;
use vstd::std_specs::hash::*;
use vstd::string::*;

use crate::number::{hexadecimal, hexadecimal_text};
use crate::text::{
    byte_len, byte_len_of, contains_class, has_class, in_class, is_white, str_eq, trim, trim_text,
    CharClass,
};

verus! {

pub struct ActorKeypair {
    pub public_key: String,
    pub private_key: String,
}

/// The byte strings that hashing a text writes to a hasher, one after the other.
pub uninterp spec fn hash_writes(text: Seq<char>) -> Seq<Seq<u8>>;

/// `Hash::hash` of the standard library on a string: it writes to the hasher what the text alone
/// determines, which has a name.
#[verifier::external_body]
fn feed_text(text: &str, hasher: &mut DefaultHasher)
    ensures
        final(hasher)@ == old(hasher)@ + hash_writes(text@),
{
    text.hash(hasher);
}

/// The number that a new default hasher gives for a text.
pub open spec fn default_hash(text: Seq<char>) -> u64 {
    DefaultHasher::spec_finish(hash_writes(text))
}

fn hash_text(text: &str) -> (r: u64)
    ensures
        r == default_hash(text@),
{
    let mut hasher: DefaultHasher = DefaultHasher::new();
    feed_text(text, &mut hasher);
    assert(hasher@ =~= hash_writes(text@));
    hasher.finish()
}

/// The stored form of a password whose hash is the given number.
pub open spec fn stored_form(hash: u64) -> Seq<char> {
    "dev-hash-"@ + hexadecimal(hash as nat)
}

/// Writes the hash of a password in its stored form.
pub fn format_password_hash(hash: u64) -> (r: String)
    ensures
        r@ == stored_form(hash),
{
    "dev-hash-".to_owned().concat(hexadecimal_text(hash).as_str())
}

/// The stored form of a password.
pub open spec fn stored_password(password: Seq<char>) -> Seq<char> {
    stored_form(default_hash(password))
}

/// Whether a password is the one of a stored form.
pub open spec fn verifies(password: Seq<char>, stored: Seq<char>) -> bool {
    stored_password(password) == stored
}

/// Puts a password into its stored form.
pub fn hash_password(password: &str) -> (r: Result<String, String>)
    ensures
        r matches Ok(h) && h@ == stored_password(password@),
{
    Ok(format_password_hash(hash_text(password)))
}

/// Checks a password against a stored form.
pub fn verify_password(password: &str, stored_hash: &str) -> (r: Result<bool, String>)
    ensures
        r matches Ok(b) && b == verifies(password@, stored_hash@),
{
    match hash_password(password) {
        Ok(h) => Ok(str_eq(h.as_str(), stored_hash)),
        Err(e) => Err(e),
    }
}

/// A password verifies against what was stored of it.
pub proof fn law_password_verifies(password: Seq<char>)
    ensures
        verifies(password, stored_password(password)),
{
}

/// Passwords need eight bytes.
pub const MIN_PASSWORD_BYTES: usize = 8;

pub fn validate_secure_password(password: &str) -> (r: Result<(), String>)
    ensures
        r is Ok == (byte_len(password@) >= MIN_PASSWORD_BYTES),
        r matches Err(e) ==> e@ == "password must be at least 8 characters"@,
{
    if byte_len_of(password) >= MIN_PASSWORD_BYTES {
        Ok(())
    } else {
        Err("password must be at least 8 characters".to_owned())
    }
}

pub fn secure_password_requirements_text() -> (r: String)
    ensures
        r@ == "Password must be at least 8 characters."@,
{
    "Password must be at least 8 characters.".to_owned()
}

/// Whether a text can be the address of a new account: with an at sign and a dot, and without
/// white space inside.
pub open spec fn valid_email(email: Seq<char>) -> bool {
    let e = trim(email);
    &&& has_class(e, CharClass::Only('@'))
    &&& has_class(e, CharClass::Only('.'))
    &&& !has_class(e, CharClass::White)
}

pub fn is_valid_signup_email(email: &str) -> (r: bool)
    ensures
        r == valid_email(email@),
{
    let trimmed: String = trim_text(email);
    let e: &str = trimmed.as_str();
    contains_class(e, CharClass::Only('@')) && contains_class(e, CharClass::Only('.'))
        && !contains_class(e, CharClass::White)
}

/// The key pair of a development server.
pub fn generate_actor_keypair() -> (r: Result<ActorKeypair, String>)
    ensures
        r matches Ok(k) && k.public_key@ == "dev-public-key"@ && k.private_key@
            == "dev-private-key"@,
{
    Ok(
        ActorKeypair {
            public_key: "dev-public-key".to_owned(),
            private_key: "dev-private-key".to_owned(),
        },
    )
}

/// The cookie that makes a browser forget its remembered session.
pub fn clear_remember_cookie_value() -> (r: String)
    ensures
        r@ == "remember=; Max-Age=0; Path=/; HttpOnly; SameSite=Lax"@,
{
    "remember=; Max-Age=0; Path=/; HttpOnly; SameSite=Lax".to_owned()
}

/// The address of a new account has an at sign and a dot, and no white space within.
pub proof fn law_valid_emails(email: Seq<char>)
    ensures
        valid_email(email) <==> {
            &&& trim(email).contains('@')
            &&& trim(email).contains('.')
            &&& forall|i: int| 0 <= i < trim(email).len() ==> !is_white(#[trigger] trim(email)[i])
        },
{
    let e = trim(email);
    if e.contains('@') {
        let i = choose|i: int| 0 <= i < e.len() && e[i] == '@';
        assert(in_class(CharClass::Only('@'), e[i]));
    }
    if e.contains('.') {
        let i = choose|i: int| 0 <= i < e.len() && e[i] == '.';
        assert(in_class(CharClass::Only('.'), e[i]));
    }
    if has_class(e, CharClass::Only('@')) {
        let i = choose|i: int| 0 <= i < e.len() && in_class(CharClass::Only('@'), #[trigger] e[i]);
        assert(e[i] == '@');
    }
    if has_class(e, CharClass::Only('.')) {
        let i = choose|i: int| 0 <= i < e.len() && in_class(CharClass::Only('.'), #[trigger] e[i]);
        assert(e[i] == '.');
    }
    assert forall|i: int| 0 <= i < e.len() && !has_class(e, CharClass::White) implies !is_white(
        #[trigger] e[i],
    ) by {
        assert(!in_class(CharClass::White, e[i]));
    }
}

/// A password verifies against a stored form exactly where that was made of the same number, which
/// is written behind the mark of this form.
pub proof fn law_stored_passwords(password: Seq<char>, stored: Seq<char>)
    requires
        verifies(password, stored),
    ensures
        stored.len() > 9,
        stored.take(9) == "dev-hash-"@,
        stored.skip(9) == hexadecimal(default_hash(password) as nat),
{
    reveal_strlit("dev-hash-");
    let h = hexadecimal(default_hash(password) as nat);
    assert(stored.take(9) =~= "dev-hash-"@);
    assert(stored.skip(9) =~= h);
    assert(h.len() > 0);
}

} // verus!
