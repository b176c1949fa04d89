//! Requests to and replies from the per-user credential store that keeps API
//! keys.
//!
//! The configuration holds only a target name. A request is validated before
//! the store is touched, and no diagnostic carries a target or a secret.

use crate::text::{
    blank, has_char, is_blank, push_signed_decimal, signed_decimal, string_from_utf8,
};
use crate::utf16::{encode_utf16, utf16_units, wide};
use crate::win32::{hresult_from_win32, result_code, ERROR_NOACCESS, ERROR_NOT_FOUND};
use vstd::prelude::*;
use vstd::utf8::{encode_utf8, valid_utf8};

verus! {

pub const MAX_TARGET_UNITS: usize = 512;

pub const MAX_SECRET_BYTES: usize = 2560;

/// Why a credential could not be stored, read or deleted.
#[derive(Debug, PartialEq, Eq)]
pub enum CredentialError {
    /// The target or the secret is not one that the store takes.
    InvalidInput(&'static str),
    /// A credential exists but its blob is not an API key.
    InvalidStoredValue,
    /// The store failed. Only the operation and the numeric code are kept.
    Platform { operation: &'static str, code: i32 },
}

impl CredentialError {
    pub open spec fn text(self) -> Seq<char> {
        match self {
            CredentialError::InvalidInput(reason) => "invalid credential input: "@ + reason@,
            CredentialError::InvalidStoredValue => "stored credential is not valid UTF-8"@,
            CredentialError::Platform { operation, code } => "credential operation "@ + operation@
                + " failed ("@ + signed_decimal(code as int) + ")"@,
        }
    }

    /// The error in words.
    pub fn message(&self) -> (message: String)
        ensures
            message@ == self.text(),
    {
        let mut message = String::new();
        match self {
            CredentialError::InvalidInput(reason) => {
                message.append("invalid credential input: ");
                message.append(reason);
            },
            CredentialError::InvalidStoredValue => {
                message.append("stored credential is not valid UTF-8");
            },
            CredentialError::Platform { operation, code } => {
                message.append("credential operation ");
                message.append(operation);
                message.append(" failed (");
                push_signed_decimal(&mut message, *code as i64);
                message.append(")");
            },
        }
        proof {
            assert(message@ =~= self.text());
        }
        message
    }
}

/// What is wrong with a target: it is blank, holds a NUL, or has too many
/// UTF-16 units, in this order.
pub open spec fn target_fault(target: Seq<char>) -> Option<CredentialError> {
    if is_blank(target) {
        Some(CredentialError::InvalidInput("target is empty"))
    } else if target.contains('\0') {
        Some(CredentialError::InvalidInput("target contains NUL"))
    } else if encode_utf16(target).len() > MAX_TARGET_UNITS {
        Some(CredentialError::InvalidInput("target is too long"))
    } else {
        None
    }
}

/// What is wrong with a secret: it is empty, holds a NUL, or has too many
/// bytes, in this order.
pub open spec fn secret_fault(secret: Seq<char>) -> Option<CredentialError> {
    if secret.len() == 0 {
        Some(CredentialError::InvalidInput("secret is empty"))
    } else if secret.contains('\0') {
        Some(CredentialError::InvalidInput("secret contains NUL"))
    } else if encode_utf8(secret).len() > MAX_SECRET_BYTES {
        Some(CredentialError::InvalidInput("secret is too long"))
    } else {
        None
    }
}

pub fn validate_target(target: &str) -> (valid: Result<(), CredentialError>)
    ensures
        match valid {
            Ok(()) => target_fault(target@) is None,
            Err(error) => target_fault(target@) == Some(error),
        },
{
    if blank(target) {
        return Err(CredentialError::InvalidInput("target is empty"));
    }
    if has_char(target, '\0') {
        return Err(CredentialError::InvalidInput("target contains NUL"));
    }
    if utf16_units(target).len() > MAX_TARGET_UNITS {
        return Err(CredentialError::InvalidInput("target is too long"));
    }
    Ok(())
}

pub fn validate_secret(secret: &str) -> (valid: Result<(), CredentialError>)
    ensures
        match valid {
            Ok(()) => secret_fault(secret@) is None,
            Err(error) => secret_fault(secret@) == Some(error),
        },
{
    if secret.is_empty() {
        return Err(CredentialError::InvalidInput("secret is empty"));
    }
    if has_char(secret, '\0') {
        return Err(CredentialError::InvalidInput("secret contains NUL"));
    }
    if secret.as_bytes().len() > MAX_SECRET_BYTES {
        return Err(CredentialError::InvalidInput("secret is too long"));
    }
    Ok(())
}

/// A credential to store: the zero-terminated target and the secret's bytes.
#[derive(Debug, PartialEq, Eq)]
pub struct CredentialWrite {
    pub target: Vec<u16>,
    pub blob: Vec<u8>,
}

/// The request that stores `api_key` under `target`. The target is validated
/// before the key.
pub fn write_api_key(target: &str, api_key: &str) -> (request: Result<
    CredentialWrite,
    CredentialError,
>)
    ensures
        match request {
            Ok(request) => {
                &&& target_fault(target@) is None
                &&& secret_fault(api_key@) is None
                &&& request.target@ == encode_utf16(target@).push(0)
                &&& request.blob@ == encode_utf8(api_key@)
            },
            Err(error) => match target_fault(target@) {
                Some(fault) => error == fault,
                None => secret_fault(api_key@) == Some(error),
            },
        },
{
    if let Err(error) = validate_target(target) {
        return Err(error);
    }
    if let Err(error) = validate_secret(api_key) {
        return Err(error);
    }
    Ok(CredentialWrite { target: wide(target), blob: api_key.as_bytes_vec() })
}

/// The zero-terminated target to look up.
pub fn read_api_key(target: &str) -> (lookup: Result<Vec<u16>, CredentialError>)
    ensures
        match lookup {
            Ok(units) => target_fault(target@) is None && units@ == encode_utf16(target@).push(0),
            Err(error) => target_fault(target@) == Some(error),
        },
{
    if let Err(error) = validate_target(target) {
        return Err(error);
    }
    Ok(wide(target))
}

/// The zero-terminated target to delete.
pub fn delete_api_key(target: &str) -> (lookup: Result<Vec<u16>, CredentialError>)
    ensures
        match lookup {
            Ok(units) => target_fault(target@) is None && units@ == encode_utf16(target@).push(0),
            Err(error) => target_fault(target@) == Some(error),
        },
{
    if let Err(error) = validate_target(target) {
        return Err(error);
    }
    Ok(wide(target))
}

/// The code, plain or as a result code, says that the target does not exist.
pub open spec fn says_not_found(code: i32) -> bool {
    code == ERROR_NOT_FOUND || code == result_code(ERROR_NOT_FOUND)
}

fn is_not_found(code: i32) -> (absent: bool)
    ensures
        absent == says_not_found(code),
{
    code == ERROR_NOT_FOUND as i32 || code == hresult_from_win32(ERROR_NOT_FOUND)
}

/// The outcome of storing a credential; a reply carries the store's code where
/// it failed.
pub fn written_api_key(reply: Result<(), i32>) -> (outcome: Result<(), CredentialError>)
    ensures
        outcome == match reply {
            Ok(()) => Ok(()),
            Err(code) => Err(CredentialError::Platform { operation: "write", code }),
        },
{
    match reply {
        Ok(()) => Ok(()),
        Err(code) => Err(CredentialError::Platform { operation: "write", code }),
    }
}

/// The outcome of deleting a credential. Deleting an absent target succeeds.
pub fn deleted_api_key(reply: Result<(), i32>) -> (outcome: Result<(), CredentialError>)
    ensures
        outcome == match reply {
            Ok(()) => Ok(()),
            Err(code) => if says_not_found(code) {
                Ok(())
            } else {
                Err(CredentialError::Platform { operation: "delete", code })
            },
        },
{
    match reply {
        Ok(()) => Ok(()),
        Err(code) => if is_not_found(code) {
            Ok(())
        } else {
            Err(CredentialError::Platform { operation: "delete", code })
        },
    }
}

/// What the store answered to a lookup.
#[derive(Debug, PartialEq, Eq)]
pub enum CredentialReply {
    Failed { code: i32 },
    /// The lookup succeeded without handing over a credential.
    Nothing,
    /// A credential; its blob is missing where the store gave no bytes.
    Found { blob: Option<Vec<u8>> },
}

/// The bytes are those of a nonempty API key within the bound.
pub open spec fn is_stored_key(blob: Seq<u8>) -> bool {
    0 < blob.len() <= MAX_SECRET_BYTES && valid_utf8(blob)
}

/// The API key in a reply. `Ok(None)` means that the target does not exist.
pub fn stored_api_key(reply: CredentialReply) -> (key: Result<Option<String>, CredentialError>)
    ensures
        match reply {
            CredentialReply::Failed { code } => if says_not_found(code) {
                key matches Ok(value) && value is None
            } else {
                key == Err::<Option<String>, _>(
                    CredentialError::Platform { operation: "read", code },
                )
            },
            CredentialReply::Nothing => key == Err::<Option<String>, _>(
                CredentialError::Platform { operation: "read", code: 998 },
            ),
            CredentialReply::Found { blob: Some(blob) } if is_stored_key(blob@) => {
                &&& key matches Ok(Some(secret))
                &&& encode_utf8(secret@) == blob@
            },
            CredentialReply::Found { .. } => key == Err::<Option<String>, _>(
                CredentialError::InvalidStoredValue,
            ),
        },
{
    match reply {
        CredentialReply::Failed { code } => {
            if is_not_found(code) {
                Ok(None)
            } else {
                Err(CredentialError::Platform { operation: "read", code })
            }
        },
        CredentialReply::Nothing => Err(
            CredentialError::Platform { operation: "read", code: ERROR_NOACCESS as i32 },
        ),
        CredentialReply::Found { blob: None } => Err(CredentialError::InvalidStoredValue),
        CredentialReply::Found { blob: Some(bytes) } => {
            if bytes.len() == 0 || bytes.len() > MAX_SECRET_BYTES {
                return Err(CredentialError::InvalidStoredValue);
            }
            match string_from_utf8(bytes) {
                Some(secret) => Ok(Some(secret)),
                None => Err(CredentialError::InvalidStoredValue),
            }
        },
    }
}

/// A key that was accepted for storing is the key that a lookup gives back when
/// the store returns the stored bytes.
pub proof fn lemma_stored_key_reads_back(api_key: Seq<char>, read: Seq<char>)
    requires
        secret_fault(api_key) is None,
        encode_utf8(read) == encode_utf8(api_key),
    ensures
        is_stored_key(encode_utf8(api_key)),
        read == api_key,
{
    vstd::utf8::encode_utf8_valid_utf8(api_key);
    vstd::utf8::encode_utf8_decode_utf8(api_key);
    vstd::utf8::encode_utf8_decode_utf8(read);
    if encode_utf8(api_key).len() == 0 {
        assert(encode_utf8(api_key) =~= Seq::<u8>::empty());
        vstd::utf8::encode_utf8_decode_utf8(Seq::empty());
        assert(encode_utf8(Seq::<char>::empty()) =~= Seq::<u8>::empty());
    }
}

/// No diagnostic depends on the secret: whatever is wrong with one, its
/// message is one of three fixed texts.
pub proof fn lemma_secret_faults_name_no_secret(secret: Seq<char>)
    ensures
        secret_fault(secret) matches Some(error) ==> error.text() == "invalid credential input: "@
            + "secret is empty"@ || error.text() == "invalid credential input: "@
            + "secret contains NUL"@ || error.text() == "invalid credential input: "@
            + "secret is too long"@,
{
}

/// A target is taken exactly when it has a character that is not white space,
/// no NUL and at most 512 units; a key exactly when it is not empty, has no NUL
/// and takes at most 2560 bytes. A blank target is refused as empty.
pub proof fn lemma_what_the_store_takes(target: Seq<char>, secret: Seq<char>)
    ensures
        target_fault(target) is None <==> !is_blank(target) && !target.contains('\0')
            && encode_utf16(target).len() <= 512,
        secret_fault(secret) is None <==> secret.len() > 0 && !secret.contains('\0')
            && encode_utf8(secret).len() <= 2560,
        is_blank(target) ==> target_fault(target) == Some(
            CredentialError::InvalidInput("target is empty"),
        ),
        !is_blank(target) && target.contains('\0') ==> target_fault(target) == Some(
            CredentialError::InvalidInput("target contains NUL"),
        ),
        secret.contains('\0') ==> secret_fault(secret) == Some(
            CredentialError::InvalidInput("secret contains NUL"),
        ),
{
}

/// Only the two codes of a missing target say that it is missing: 1168, and
/// the same as a result code.
pub proof fn lemma_only_a_missing_target_is_absent(code: i32)
    ensures
        says_not_found(code) <==> code == 1168 || code == -2147023728,
{
}

/// A blob of 1 to 2560 bytes of valid text is a key, and nothing else is.
pub proof fn lemma_what_counts_as_a_stored_key(blob: Seq<u8>)
    ensures
        is_stored_key(blob) <==> 1 <= blob.len() && blob.len() <= 2560 && valid_utf8(blob),
{
}

/// A failure of the store is told with its operation and its code.
pub proof fn lemma_a_store_failure_is_told_by_its_code(operation: &'static str, code: i32)
    ensures
        ({
            let text = CredentialError::Platform { operation, code }.text();
            text == "credential operation "@ + operation@ + " failed ("@ + signed_decimal(
                code as int,
            ) + ")"@
        }),
        CredentialError::InvalidStoredValue.text() == "stored credential is not valid UTF-8"@,
{
}

/// Storing, looking up and deleting a target name the same units: its own,
/// closed by a zero. What is refused for one is refused for all, and a target
/// is looked at before the key.
pub proof fn lemma_a_target_is_named_alike(
    target: &str,
    api_key: &str,
    written: Result<CredentialWrite, CredentialError>,
    read: Result<Vec<u16>, CredentialError>,
    deleted: Result<Vec<u16>, CredentialError>,
)
    requires
        call_ensures(write_api_key, (target, api_key), written),
        call_ensures(read_api_key, (target,), read),
        call_ensures(delete_api_key, (target,), deleted),
    ensures
        read is Ok <==> deleted is Ok,
        written is Ok ==> read is Ok,
        read matches Ok(units) ==> units@.len() == encode_utf16(target@).len() + 1
            && units@.drop_last() == encode_utf16(target@) && units@.last() == 0,
        deleted matches Ok(units) ==> (read matches Ok(same) && same@ == units@),
        written matches Ok(request) ==> (read matches Ok(same) && same@ == request.target@)
            && request.blob@ == encode_utf8(api_key@),
        is_blank(target@) ==> written == Err::<CredentialWrite, _>(
            CredentialError::InvalidInput("target is empty"),
        ),
        read is Ok && api_key@.len() == 0 ==> written == Err::<CredentialWrite, _>(
            CredentialError::InvalidInput("secret is empty"),
        ),
{
}

/// Deleting what is not there succeeds; reading it finds nothing, and is no
/// failure. Any other code is a failure under its operation.
pub proof fn lemma_a_missing_credential_is_no_failure(
    code: i32,
    written: Result<(), CredentialError>,
    deleted: Result<(), CredentialError>,
    read: Result<Option<String>, CredentialError>,
)
    requires
        call_ensures(written_api_key, (Err(code),), written),
        call_ensures(deleted_api_key, (Err(code),), deleted),
        call_ensures(stored_api_key, (CredentialReply::Failed { code },), read),
    ensures
        code == 1168 ==> deleted is Ok && (read matches Ok(key) && key is None),
        code != 1168 && code != -2147023728 ==> deleted == Err::<(), _>(
            CredentialError::Platform { operation: "delete", code },
        ) && read == Err::<Option<String>, _>(CredentialError::Platform { operation: "read", code }),
        written == Err::<(), _>(CredentialError::Platform { operation: "write", code }),
{
}

/// The key that was stored is the key that is read from the store's bytes; an
/// empty blob, or a missing one, is no key.
pub proof fn lemma_a_key_is_read_as_it_was_stored(
    target: &str,
    api_key: &str,
    written: CredentialWrite,
    blob: Vec<u8>,
    read: Result<Option<String>, CredentialError>,
    empty: Vec<u8>,
    nothing: Result<Option<String>, CredentialError>,
    missing: Result<Option<String>, CredentialError>,
)
    requires
        call_ensures(write_api_key, (target, api_key), Ok(written)),
        blob@ == written.blob@,
        call_ensures(stored_api_key, (CredentialReply::Found { blob: Some(blob) },), read),
        empty@.len() == 0,
        call_ensures(stored_api_key, (CredentialReply::Found { blob: Some(empty) },), nothing),
        call_ensures(stored_api_key, (CredentialReply::Found { blob: None },), missing),
    ensures
        read matches Ok(Some(key)) && key@ == api_key@,
        nothing == Err::<Option<String>, _>(CredentialError::InvalidStoredValue),
        missing == Err::<Option<String>, _>(CredentialError::InvalidStoredValue),
{
    lemma_stored_key_reads_back(api_key@, api_key@);
    if let Ok(Some(key)) = read {
        lemma_stored_key_reads_back(api_key@, key@);
    }
}

} // verus!
