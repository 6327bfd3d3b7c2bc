//! The key store: the key material of a channel and the opening of
//! messages that were encrypted for it.
//!
//! The encryption scheme itself is not part of the library. It is reached
//! through [`Cryptography`]; the functions here decide what becomes of its
//! answers.

use vstd::prelude::*;
use vstd::string::*;
use crate::base64url;
use crate::channel_id::{fresh_id, make_channel_id, ENTROPY_LENGTH};
use crate::error::{outcome_view, ErrorKind, ErrorView};
use crate::text::same_text;
use crate::types::{KeyInfo, KeyInfoView};

verus! {

/// The length of an authentication secret, in bytes.
pub const AUTH_SECRET_LENGTH: usize = 16;

/// The key pair of a channel and its authentication secret.
#[derive(Debug, Clone, PartialEq, Eq)]
pub struct KeyMaterial {
    pub private_key: Vec<u8>,
    pub public_key: Vec<u8>,
    pub auth_secret: Vec<u8>,
}

/// [`KeyMaterial`] as sequences of bytes.
pub struct KeyMaterialView {
    pub private_key: Seq<u8>,
    pub public_key: Seq<u8>,
    pub auth_secret: Seq<u8>,
}

impl View for KeyMaterial {
    type V = KeyMaterialView;

    open spec fn view(&self) -> KeyMaterialView {
        KeyMaterialView {
            private_key: self.private_key@,
            public_key: self.public_key@,
            auth_secret: self.auth_secret@,
        }
    }
}

/// The content encodings in which messages arrive.
#[derive(Clone, Copy, Debug, PartialEq, Eq, Structural)]
pub enum Encoding {
    /// The scheme that carries its parameters in the body.
    Aes128Gcm,
    /// The older scheme that carries its parameters in the headers `salt`
    /// and `dh`.
    AesGcm,
}

/// The cryptographic operations that the library needs from its host.
/// Nothing is assumed of what an implementation returns; a reason for a
/// failure is reported to the caller as it is.
pub trait Cryptography {
    /// A fresh key pair and a fresh authentication secret.
    fn generate_keys(&mut self) -> Result<KeyMaterial, String>;

    /// `count` bytes of entropy.
    fn random_bytes(&mut self, count: usize) -> Result<Vec<u8>, String>;

    /// The plaintext of `ciphertext`, where it was encrypted in `encoding`
    /// for the given key and secret and is intact.
    fn decrypt(
        &mut self,
        encoding: Encoding,
        ciphertext: &Vec<u8>,
        private_key: &Vec<u8>,
        auth_secret: &Vec<u8>,
        salt: &str,
        dh: &str,
    ) -> Result<Vec<u8>, String>;
}

/// What key generation or the entropy source handed back, as sequences.
pub open spec fn generated_view(generated: Result<KeyMaterial, String>) -> Result<
    KeyMaterialView,
    Seq<char>,
> {
    match generated {
        Ok(material) => Ok(material@),
        Err(reason) => Err(reason@),
    }
}

/// What the host handed back where bytes were asked for, as sequences.
pub open spec fn bytes_view(bytes: Result<Vec<u8>, String>) -> Result<Seq<u8>, Seq<char>> {
    match bytes {
        Ok(b) => Ok(b@),
        Err(reason) => Err(reason@),
    }
}

/// The encoding that a message declares, where it is one of the three
/// names that the library knows.
pub open spec fn encoding_of(name: Seq<char>) -> Option<Encoding> {
    if name == "aes128gcm"@ {
        Some(Encoding::Aes128Gcm)
    } else if name == "aesgcm"@ || name == "aesgcm128"@ {
        Some(Encoding::AesGcm)
    } else {
        None
    }
}

/// The message of the failure to recognise an encoding.
pub open spec fn unknown_encoding_message() -> Seq<char> {
    "unknown content encoding"@
}

/// The message of the failure to read a body as base64.
pub open spec fn undecodable_body_message() -> Seq<char> {
    "the body is not base64url"@
}

/// The message of the failure of key material to have the right form.
pub open spec fn malformed_keys_message() -> Seq<char> {
    "the key material is malformed"@
}

/// The message of the failure of the entropy source to deliver as many
/// bytes as were asked for.
pub open spec fn short_entropy_message() -> Seq<char> {
    "the entropy source delivered a wrong number of bytes"@
}

/// Whether key material has the right form: two keys that are not empty and
/// a secret of sixteen bytes.
pub open spec fn well_formed_keys(material: KeyMaterialView) -> bool {
    &&& material.private_key.len() > 0
    &&& material.public_key.len() > 0
    &&& material.auth_secret.len() == AUTH_SECRET_LENGTH
}

/// The key material of a new channel, from what key generation handed
/// back: the material where it has the right form, and a `CryptoError`
/// otherwise, with the reason that key generation gave where it gave one.
pub open spec fn keys_of(generated: Result<KeyMaterialView, Seq<char>>) -> Result<
    KeyMaterialView,
    ErrorView,
> {
    match generated {
        Err(reason) => Err(ErrorView::CryptoError(reason)),
        Ok(material) => if well_formed_keys(material) {
            Ok(material)
        } else {
            Err(ErrorView::CryptoError(malformed_keys_message()))
        },
    }
}

/// A new channel id, from what the entropy source handed back.
pub open spec fn channel_id_of(entropy: Result<Seq<u8>, Seq<char>>) -> Result<
    Seq<char>,
    ErrorView,
> {
    match entropy {
        Err(reason) => Err(ErrorView::CryptoError(reason)),
        Ok(bytes) => if bytes.len() == ENTROPY_LENGTH {
            Ok(fresh_id(bytes))
        } else {
            Err(ErrorView::CryptoError(short_entropy_message()))
        },
    }
}

/// The plaintext of a message, from what decryption handed back: a
/// failure is a `CryptoError` with the reason that decryption gave.
pub open spec fn plaintext_of(opened: Result<Seq<u8>, Seq<char>>) -> Result<Seq<u8>, ErrorView> {
    match opened {
        Ok(plaintext) => Ok(plaintext),
        Err(reason) => Err(ErrorView::CryptoError(reason)),
    }
}

/// What a sender needs of the key material: the secret and the public key
/// in base64.
pub open spec fn key_info_of(material: KeyMaterialView) -> KeyInfoView {
    KeyInfoView {
        auth: base64url::encode_spec(material.auth_secret),
        p256dh: base64url::encode_spec(material.public_key),
    }
}

/// Reads the encoding that a message declares.
pub fn parse_encoding(name: &str) -> (encoding: Option<Encoding>)
    ensures
        encoding == encoding_of(name@),
{
    if same_text(name, "aes128gcm") {
        Some(Encoding::Aes128Gcm)
    } else if same_text(name, "aesgcm") || same_text(name, "aesgcm128") {
        Some(Encoding::AesGcm)
    } else {
        None
    }
}

/// Accepts what key generation handed back, where it has the right form.
pub fn accept_keys(generated: Result<KeyMaterial, String>) -> (outcome: Result<
    KeyMaterial,
    ErrorKind,
>)
    ensures
        outcome_view(outcome) == keys_of(generated_view(generated)),
{
    match generated {
        Err(reason) => Err(ErrorKind::CryptoError(reason)),
        Ok(material) => {
            if material.private_key.len() > 0 && material.public_key.len() > 0
                && material.auth_secret.len() == AUTH_SECRET_LENGTH {
                Ok(material)
            } else {
                Err(ErrorKind::CryptoError("the key material is malformed".to_owned()))
            }
        },
    }
}

/// Makes a channel id of what the entropy source handed back.
pub fn accept_entropy(entropy: Result<Vec<u8>, String>) -> (outcome: Result<String, ErrorKind>)
    ensures
        outcome_view(outcome) == channel_id_of(bytes_view(entropy)),
{
    match entropy {
        Err(reason) => Err(ErrorKind::CryptoError(reason)),
        Ok(bytes) => match make_channel_id(&bytes) {
            Some(id) => Ok(id),
            None => Err(
                ErrorKind::CryptoError(
                    "the entropy source delivered a wrong number of bytes".to_owned(),
                ),
            ),
        },
    }
}

/// Accepts what decryption handed back.
pub fn accept_plaintext(opened: Result<Vec<u8>, String>) -> (outcome: Result<Vec<u8>, ErrorKind>)
    ensures
        outcome_view(outcome) == plaintext_of(bytes_view(opened)),
{
    match opened {
        Ok(plaintext) => Ok(plaintext),
        Err(reason) => Err(ErrorKind::CryptoError(reason)),
    }
}

/// Writes the public parts of the key material for a sender.
pub fn key_info(material: &KeyMaterial) -> (info: KeyInfo)
    ensures
        info@ == key_info_of(material@),
{
    KeyInfo {
        auth: base64url::encode(&material.auth_secret),
        p256dh: base64url::encode(&material.public_key),
    }
}

/// What opening a message comes to: a `CryptoError` where the encoding is
/// not recognised, and otherwise what decryption handed back.
pub open spec fn opened_of(encoding: Seq<char>, opened: Result<Seq<u8>, Seq<char>>) -> Result<
    Seq<u8>,
    ErrorView,
> {
    match encoding_of(encoding) {
        None => Err(ErrorView::CryptoError(unknown_encoding_message())),
        Some(_) => plaintext_of(opened),
    }
}

} // verus!
