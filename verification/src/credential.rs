//! The credential of a port: a key derived from its name and namespace by a
//! memory-hard hash under the configured salt, written as URL-safe base64
//! and wrapped in bech32 under the prefix `dmtr_ogmios`.

use vstd::prelude::*;
use vstd::string::*;
use argon2::Argon2;
use base64::Engine;
use bech32::ToBase32;
use crate::error::OperatorError;
use crate::hostname::{auth_name, has_key_prefix};
use crate::text::{all_label, is_digit};

verus! {

/// The error of the `argon2` crate.
#[verifier::external_type_specification]
#[verifier::external_body]
pub struct ExArgonError(argon2::Error);

/// The error of the `bech32` crate.
#[verifier::external_type_specification]
#[verifier::external_body]
pub struct ExBech32Error(bech32::Error);

/// The bytes that Argon2id, with the parameters that the `argon2` crate
/// takes by default, derives from a password and a salt for an output of
/// `len` bytes.
pub uninterp spec fn argon2_hash(password: Seq<u8>, salt: Seq<u8>, len: nat) -> Seq<u8>;

/// The URL-safe base64 text of some bytes, without padding.
pub uninterp spec fn base64_url_text(bytes: Seq<u8>) -> Seq<char>;

/// The bech32 text of a prefix and the bytes of a text.
pub uninterp spec fn bech32_text(hrp: Seq<char>, text: Seq<char>) -> Seq<char>;

/// The length of the hash that a key is made of, in bytes.
pub const KEY_HASH_LEN: usize = 16;

/// The prefix of every derived key.
pub open spec fn key_hrp() -> Seq<char> {
    "dmtr_ogmios"@
}

/// A prefix that bech32 accepts: between 1 and 83 characters, each a
/// printable ASCII character, and none of them an upper-case letter.
pub open spec fn lower_hrp(hrp: Seq<char>) -> bool {
    &&& 1 <= hrp.len() <= 83
    &&& forall|i: int| 0 <= i < hrp.len() ==> 33 <= (#[trigger] hrp[i]) as u32 <= 126 && !('A'
        <= hrp[i] && hrp[i] <= 'Z')
}

/// The hash takes the password and the salt: the salt has at least 8
/// bytes, and neither has more than 2^32 - 1.
pub open spec fn hashable(password: Seq<u8>, salt: Seq<u8>) -> bool {
    8 <= salt.len() <= 0xFFFF_FFFF && password.len() <= 0xFFFF_FFFF
}

/// The length of the unpadded base64 text of `n` bytes: four characters
/// for every three bytes, and two or three for one or two bytes left over.
pub open spec fn base64_len(n: nat) -> nat {
    (n / 3) * 4 + if n % 3 == 0 {
        0nat
    } else if n % 3 == 1 {
        2nat
    } else {
        3nat
    }
}

/// A lower-case ASCII letter or a digit.
pub open spec fn lower_or_digit(c: char) -> bool {
    ('a' <= c && c <= 'z') || is_digit(c)
}

/// Calls `Argon2::default().hash_password_into` on a fresh buffer of `len`
/// bytes. It succeeds exactly when the output has at least 4 bytes, the
/// salt has at least 8, and neither salt nor password has more than
/// 2^32 - 1. On success the buffer holds the hash, which depends on the
/// password, the salt and the length alone.
#[verifier::external_body]
fn hash_password(password: &[u8], salt: &[u8], len: usize) -> (r: Result<Vec<u8>, argon2::Error>)
    requires
        len <= 1024,
    ensures
        r matches Ok(out) ==> out@ == argon2_hash(password@, salt@, len as nat) && out@.len()
            == len,
        (r is Ok) == (len >= 4 && hashable(password@, salt@)),
{
    let mut out: Vec<u8> = vec![0u8; len];
    match Argon2::default().hash_password_into(password, salt, &mut out) {
        Ok(()) => Ok(out),
        Err(e) => Err(e),
    }
}

/// Calls `to_string` on an error of the `argon2` crate. Nothing is claimed
/// of the text.
#[verifier::external_body]
fn argon_error_text(e: &argon2::Error) -> (r: String) {
    e.to_string()
}

/// Calls `encode` on the engine `URL_SAFE_NO_PAD` of the `base64` crate.
/// The text depends on the bytes alone. It has four characters for every
/// three bytes and two or three for a rest of one or two, and each is a
/// letter, a digit, `-` or `_`.
#[verifier::external_body]
fn base64_encode(bytes: &[u8]) -> (r: String)
    requires
        bytes@.len() <= 1024,
    ensures
        r@ == base64_url_text(bytes@),
        r@.len() == base64_len(bytes@.len()),
        all_label(r@, 0, r@.len() as int),
{
    base64::engine::general_purpose::URL_SAFE_NO_PAD.encode(bytes)
}

/// Calls `bech32::encode` on a prefix and on the bytes of a text regrouped
/// by `to_base32`, in the variant `Bech32`. The only failures are those of a
/// prefix that is empty, too long, not printable ASCII or of mixed case. A
/// prefix without upper-case letters is written as it is, followed by the
/// separator `1`, one character for every five bits of the text, the last
/// bits filled up, and six characters of checksum; each of these is a
/// lower-case letter or a digit. The whole depends on the prefix and the
/// text alone.
#[verifier::external_body]
fn bech32_encode(hrp: &str, text: &str) -> (r: Result<String, bech32::Error>)
    ensures
        lower_hrp(hrp@) ==> r is Ok,
        r matches Ok(s) ==> s@ == bech32_text(hrp@, text@),
        r matches Ok(s) ==> lower_hrp(hrp@) ==> s@.len() == hrp@.len() + 7 + (8
            * vstd::utf8::encode_utf8(text@).len() + 4) / 5 && s@.subrange(0, hrp@.len() as int)
            == hrp@ && s@[hrp@.len() as int] == '1' && forall|i: int|
            hrp@.len() < i < s@.len() ==> lower_or_digit(#[trigger] s@[i]),
{
    bech32::encode(hrp, text.to_base32(), bech32::Variant::Bech32)
}

/// Calls `to_string` on an error of the `bech32` crate. Nothing is claimed
/// of the text.
#[verifier::external_body]
fn bech32_error_text(e: &bech32::Error) -> (r: String) {
    e.to_string()
}

/// The password that a key is derived from: `ogmios-auth-{name}{namespace}`.
pub open spec fn key_password(name: Seq<char>, namespace: Seq<char>) -> Seq<char> {
    auth_name(name) + namespace
}

/// The key of a hash: its base64 text wrapped in bech32.
pub open spec fn key_of_hash(hash: Seq<u8>) -> Seq<char> {
    bech32_text(key_hrp(), base64_url_text(hash))
}

/// The key of a port under a salt.
pub open spec fn key_text(name: Seq<char>, namespace: Seq<char>, salt: Seq<char>) -> Seq<char> {
    key_of_hash(
        argon2_hash(
            vstd::utf8::encode_utf8(key_password(name, namespace)),
            vstd::utf8::encode_utf8(salt),
            KEY_HASH_LEN as nat,
        ),
    )
}

/// A key can be derived for the port under the salt: the hash takes the
/// bytes of the password and of the salt.
pub open spec fn derivable(name: Seq<char>, namespace: Seq<char>, salt: Seq<char>) -> bool {
    hashable(
        vstd::utf8::encode_utf8(key_password(name, namespace)),
        vstd::utf8::encode_utf8(salt),
    )
}

/// The shape of every derived key: `dmtr_ogmios1` and then 42 lower-case
/// letters and digits, 54 characters in all.
pub open spec fn key_shaped(key: Seq<char>) -> bool {
    &&& key.len() == 54
    &&& key.subrange(0, 11) == key_hrp()
    &&& key[11] == '1'
    &&& forall|i: int| 11 < i < key.len() ==> lower_or_digit(#[trigger] key[i])
}

/// The prefix of every key is one that bech32 accepts.
pub proof fn lemma_key_hrp()
    ensures
        lower_hrp(key_hrp()),
        key_hrp().len() == 11,
{
    reveal_strlit("dmtr_ogmios");
}

/// A key of the derived shape is one label of a hostname that reads as a
/// key: it begins with `dmtr_`, has at most 63 characters, and each is a
/// lower-case letter, a digit or an underscore, so none is a full stop, a
/// hyphen or an upper-case letter.
pub proof fn lemma_key_is_label(key: Seq<char>)
    requires
        key_shaped(key),
    ensures
        has_key_prefix(key),
        5 < key.len() <= 63,
        all_label(key, 5, key.len() as int),
        forall|i: int| 0 <= i < key.len() ==> lower_or_digit(#[trigger] key[i]) || key[i] == '_',
{
    reveal_strlit("dmtr_ogmios");
    let hrp = key_hrp();
    assert forall|i: int| 0 <= i < 11 implies key[i] == hrp[i] by {
        assert(key.subrange(0, 11)[i] == key[i]);
    }
    assert(key.subrange(0, 5) =~= crate::hostname::key_prefix());
    assert forall|i: int| 0 <= i < key.len() implies lower_or_digit(#[trigger] key[i]) || key[i]
        == '_' by {
        if i < 11 {
            assert(key[i] == hrp[i]);
        } else if i == 11 {
        } else {
            assert(lower_or_digit(key[i]));
        }
    }
    assert forall|i: int| 5 <= i < key.len() implies crate::text::is_label(#[trigger] key[i]) by {
        assert(lower_or_digit(key[i]) || key[i] == '_');
    }
}

/// Builds the password that a key is derived from.
pub fn build_password(name: &str, namespace: &str) -> (r: String)
    ensures
        r@ == key_password(name@, namespace@),
{
    let mut out: String = String::from_str("ogmios-auth-");
    out.append(name);
    out.append(namespace);
    out
}

/// Writes a hash of 16 bytes as a key: URL-safe base64 without padding,
/// wrapped in bech32 under `dmtr_ogmios`. It always succeeds, and the key
/// has the shape of every derived key.
pub fn encode_key(hash: &[u8]) -> (r: Result<String, OperatorError>)
    requires
        hash@.len() == KEY_HASH_LEN,
    ensures
        r matches Ok(key) && key@ == key_of_hash(hash@) && key_shaped(key@),
{
    proof {
        lemma_key_hrp();
    }
    let text: String = base64_encode(hash);
    proof {
        assert(vstd::utf8::is_ascii_chars(text@)) by {
            assert forall|i: int| 0 <= i < text@.len() implies '\0' <= #[trigger] text@[i]
                <= '\u{7f}' by {
                assert(crate::text::is_label(text@[i]));
            }
        }
        vstd::utf8::is_ascii_chars_encode_utf8(text@);
    }
    match bech32_encode("dmtr_ogmios", text.as_str()) {
        Ok(key) => Ok(key),
        Err(e) => Err(OperatorError::Bech32Error(bech32_error_text(&e))),
    }
}

/// Derives the key of a port from its name, its namespace and the salt.
/// It succeeds exactly when the hash takes the password and the salt, that
/// is for every salt of 8 bytes or more short of 4 GiB of input. The key is
/// the one that name, namespace and salt determine, and has the shape of
/// every derived key; the error is that of the hash.
pub fn derive_key(name: &str, namespace: &str, salt: &str) -> (r: Result<String, OperatorError>)
    ensures
        match r {
            Ok(key) => key@ == key_text(name@, namespace@, salt@) && key_shaped(key@),
            Err(e) => e is ArgonError,
        },
        r is Ok <==> derivable(name@, namespace@, salt@),
        derive_outcome(
            name@,
            namespace@,
            salt@,
            match r {
                Ok(key) => Some(key@),
                Err(_) => None,
            },
        ),
{
    let password: String = build_password(name, namespace);
    match hash_password(password.as_str().as_bytes(), salt.as_bytes(), KEY_HASH_LEN) {
        Ok(hash) => encode_key(hash.as_slice()),
        Err(e) => Err(OperatorError::ArgonError(argon_error_text(&e))),
    }
}

/// Two derivations from the same name, namespace and salt agree: both
/// succeed or both fail, and where they succeed the key is the same text,
/// of the shape of every derived key. Nothing but the three decides.
pub proof fn lemma_key_stable(
    name: Seq<char>,
    namespace: Seq<char>,
    salt: Seq<char>,
    first: Option<Seq<char>>,
    second: Option<Seq<char>>,
)
    requires
        derive_outcome(name, namespace, salt, first),
        derive_outcome(name, namespace, salt, second),
    ensures
        first == second,
{
}

/// `outcome` is what a derivation gives: the key where one can be derived,
/// and nothing where not.
pub open spec fn derive_outcome(
    name: Seq<char>,
    namespace: Seq<char>,
    salt: Seq<char>,
    outcome: Option<Seq<char>>,
) -> bool {
    outcome == if derivable(name, namespace, salt) {
        Some(key_text(name, namespace, salt))
    } else {
        None
    }
}

/// Two ports whose names and namespaces run together to the same text have
/// the same key under the same salt: the key depends on the text
/// `{name}{namespace}` and on the salt, and on nothing else.
pub proof fn lemma_key_deterministic(
    name1: Seq<char>,
    namespace1: Seq<char>,
    name2: Seq<char>,
    namespace2: Seq<char>,
    salt: Seq<char>,
)
    requires
        name1 + namespace1 == name2 + namespace2,
    ensures
        key_text(name1, namespace1, salt) == key_text(name2, namespace2, salt),
{
    assert(key_password(name1, namespace1) =~= "ogmios-auth-"@ + (name1 + namespace1));
    assert(key_password(name2, namespace2) =~= "ogmios-auth-"@ + (name2 + namespace2));
}

} // verus!
