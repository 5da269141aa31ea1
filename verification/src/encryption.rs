//! Preparation of the encryption stage: validating the recipient's public
//! key and naming the encrypted output file.
//!
//! The streaming encryption itself — reading the container, writing the
//! encrypted sibling, removing the plaintext on success — is filesystem
//! work performed by the caller against the recipient validated here.
use crate::paths::{append_to_last, append_to_last_spec, FsPath, PathModel};
use vstd::prelude::*;

verus! {

#[verifier::external_type_specification]
#[verifier::external_body]
pub struct ExRecipient(age::x25519::Recipient);

/// Whether a string parses as an age x25519 recipient (a Bech32 `age1…`
/// public key).
pub uninterp spec fn recipient_parses(s: Seq<char>) -> bool;

/// Relies on the `FromStr` impl of `age::x25519::Recipient`: whether a
/// string decodes as a Bech32 x25519 public key depends on the string
/// alone.
#[verifier::external_body]
fn parse_recipient(s: &str) -> (r: Option<age::x25519::Recipient>)
    ensures
        r is Some <==> recipient_parses(s@),
{
    match <age::x25519::Recipient as core::str::FromStr>::from_str(s) {
        Ok(recipient) => Some(recipient),
        Err(_) => None,
    }
}

/// Rejection of an encryption request before any file is touched.
#[derive(Clone, Copy, PartialEq, Eq, Structural, Debug)]
pub enum EncryptError {
    InvalidRecipient,
}

/// The encrypted file's path: `.age` appended to the container's name, so
/// the encrypted file stands beside the plaintext container.
pub open spec fn encrypted_name_spec(input: PathModel) -> PathModel {
    append_to_last_spec(input, seq!['.', 'a', 'g', 'e'])
}

/// Computes the encrypted file's path for a container file.
pub fn encrypted_file_name(input: &FsPath) -> (r: FsPath)
    ensures
        r@ == encrypted_name_spec(input@),
{
    proof {
        reveal_strlit(".age");
        assert(".age"@ =~= seq!['.', 'a', 'g', 'e']);
    }
    append_to_last(input, ".age")
}

/// Prepares the encryption of `input`: the public key must parse as an
/// age x25519 recipient, and succeeds exactly when it does; the encrypted
/// output's path is named beside the input.  No file is touched here.
pub fn prepare_encrypt(input: &FsPath, public_key: &str) -> (r: Result<
    (age::x25519::Recipient, FsPath),
    EncryptError,
>)
    ensures
        r is Ok <==> recipient_parses(public_key@),
        r matches Err(e) ==> e == EncryptError::InvalidRecipient,
        r matches Ok(p) ==> p.1@ == encrypted_name_spec(input@),
{
    match parse_recipient(public_key) {
        Some(recipient) => Ok((recipient, encrypted_file_name(input))),
        None => Err(EncryptError::InvalidRecipient),
    }
}

} // verus!
