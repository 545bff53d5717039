//! The cipher session: AES-256 keyed from a passphrase, with base64 text
//! as the stored form of every ciphertext.
use magic_crypt::{MagicCrypt256, MagicCryptError, MagicCryptTrait};
use vstd::prelude::*;

verus! {

#[verifier::external_type_specification]
#[verifier::external_body]
pub struct ExMagicCrypt256(MagicCrypt256);

#[verifier::external_type_specification]
#[verifier::external_body]
pub struct ExMagicCryptError(MagicCryptError);

/// The base64 text that encrypting `plain` under the key derived from
/// `passphrase` gives.
pub uninterp spec fn ciphertext_of(passphrase: Seq<char>, plain: Seq<char>) -> Seq<char>;

/// What decrypting the base64 text `text` under the key derived from
/// `passphrase` gives: `None` where the text is not base64, is not a whole
/// number of cipher blocks, has bad padding or does not decode to UTF-8.
pub uninterp spec fn plaintext_of(passphrase: Seq<char>, text: Seq<char>) -> Option<Seq<char>>;

/// Errors of key derivation and decryption.
#[derive(Debug, Clone, Copy, PartialEq, Eq, Structural)]
pub enum CryptError {
    /// The passphrase is empty, or does not open the stored items.
    InvalidCredential,
    /// The ciphertext cannot be read under this session's key.
    Decryption,
}

/// A symmetric cipher derived from one passphrase.
///
/// The key is the SHA-256 digest of the passphrase's UTF-8 bytes and the
/// initialisation vector is all zeros, so equal passphrases give equal
/// sessions. The fields are private: `cipher` is always the cipher built
/// from `passphrase`, which is what the encryption wrappers rely on.
pub struct CipherSession {
    cipher: MagicCrypt256,
    passphrase: Ghost<Seq<char>>,
}

impl View for CipherSession {
    type V = Seq<char>;

    /// The passphrase the session was derived from.
    closed spec fn view(&self) -> Seq<char> {
        self.passphrase@
    }
}

/// Does `text` decrypt to `plain` under the key of `passphrase`?
pub open spec fn decrypts_to(passphrase: Seq<char>, text: Seq<char>, plain: Seq<char>) -> bool {
    plaintext_of(passphrase, text) == Some(plain)
}

/// Relies on `MagicCrypt256::new` (through `MagicCryptTrait`) with no IV:
/// builds the AES-256 cipher keyed by the SHA-256 digest of the passphrase.
#[verifier::external_body]
fn aes256_keyed_by(passphrase: &str) -> (r: MagicCrypt256) {
    MagicCrypt256::new(passphrase, None::<String>)
}

/// Relies on `MagicCryptTrait::encrypt_str_to_base64`: AES-256-CBC with
/// PKCS#7 padding, then standard base64. The result depends on the key and
/// the text alone, and `decrypt_base64_to_string` gives the text back.
#[verifier::external_body]
fn encrypt_str_to_base64(session: &CipherSession, plain: &str) -> (r: String)
    ensures
        r@ == ciphertext_of(session@, plain@),
        decrypts_to(session@, r@, plain@),
{
    session.cipher.encrypt_str_to_base64(plain)
}

/// Relies on `MagicCryptTrait::decrypt_base64_to_string`: base64 decoding,
/// AES-256-CBC decryption with PKCS#7 padding, then UTF-8 decoding; an error
/// where any step fails. The result depends on the key and the text alone.
#[verifier::external_body]
fn decrypt_base64_to_string(session: &CipherSession, text: &str) -> (r: Result<String, MagicCryptError>)
    ensures
        match r {
            Ok(plain) => plaintext_of(session@, text@) == Some(plain@),
            Err(_) => plaintext_of(session@, text@) is None,
        },
{
    session.cipher.decrypt_base64_to_string(text)
}

impl CipherSession {
    /// Derives the session of a passphrase; the empty passphrase is refused.
    pub fn derive(passphrase: &str) -> (r: Result<CipherSession, CryptError>)
        ensures
            match r {
                Ok(s) => passphrase@.len() > 0 && s@ == passphrase@,
                Err(e) => passphrase@.len() == 0 && e == CryptError::InvalidCredential,
            },
    {
        if passphrase.is_empty() {
            return Err(CryptError::InvalidCredential);
        }
        Ok(CipherSession { cipher: aes256_keyed_by(passphrase), passphrase: Ghost(passphrase@) })
    }

    /// Encrypts `plain` to base64 text, which decrypts to `plain` again
    /// under this session.
    pub fn encrypt(&self, plain: &str) -> (r: String)
        ensures
            r@ == ciphertext_of(self@, plain@),
            decrypts_to(self@, r@, plain@),
    {
        encrypt_str_to_base64(self, plain)
    }

    /// Decrypts base64 text produced under this session's key.
    pub fn decrypt(&self, text: &str) -> (r: Result<String, CryptError>)
        ensures
            match r {
                Ok(plain) => decrypts_to(self@, text@, plain@),
                Err(e) => plaintext_of(self@, text@) is None && e == CryptError::Decryption,
            },
    {
        match decrypt_base64_to_string(self, text) {
            Ok(plain) => Ok(plain),
            Err(_) => Err(CryptError::Decryption),
        }
    }
}

} // verus!
