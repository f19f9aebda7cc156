//! The master password: its record, the database key that is derived from
//! it, and the rules by which the encrypted database is set up.

use vstd::prelude::*;
use vstd::utf8::encode_utf8;

verus! {

/// The SHA-256 digest of a message.
pub uninterp spec fn sha256(message: Seq<u8>) -> Seq<u8>;

/// The character of a hexadecimal digit, in lower case.
pub open spec fn hex_digit(d: nat) -> char {
    if d == 0 {
        '0'
    } else if d == 1 {
        '1'
    } else if d == 2 {
        '2'
    } else if d == 3 {
        '3'
    } else if d == 4 {
        '4'
    } else if d == 5 {
        '5'
    } else if d == 6 {
        '6'
    } else if d == 7 {
        '7'
    } else if d == 8 {
        '8'
    } else if d == 9 {
        '9'
    } else if d == 10 {
        'a'
    } else if d == 11 {
        'b'
    } else if d == 12 {
        'c'
    } else if d == 13 {
        'd'
    } else if d == 14 {
        'e'
    } else {
        'f'
    }
}

/// The bytes written as hexadecimal text: two digits for each byte, the
/// high one first.
pub open spec fn hex_text(bytes: Seq<u8>) -> Seq<char> {
    Seq::new(
        2 * bytes.len(),
        |i: int|
            if i % 2 == 0 {
                hex_digit((bytes[i / 2] / 16) as nat)
            } else {
                hex_digit((bytes[i / 2] % 16) as nat)
            },
    )
}

/// Calls `Sha256::digest` of the sha2 crate. The contract names the digest
/// and says that it has 32 bytes.
#[verifier::external_body]
fn sha256_digest(message: &Vec<u8>) -> (digest: Vec<u8>)
    ensures
        digest@ == sha256(message@),
        digest@.len() == 32,
{
    <sha2::Sha256 as sha2::Digest>::digest(message.as_slice()).to_vec()
}

/// Calls `hex::encode`. The contract says what the crate documents: every
/// byte becomes two hexadecimal digits in lower case, the high one first.
#[verifier::external_body]
fn hex_encode(bytes: &Vec<u8>) -> (text: String)
    ensures
        text@ == hex_text(bytes@),
{
    hex::encode(bytes.as_slice())
}

/// The database key for a master password.
pub open spec fn derived_key(password: Seq<char>) -> Seq<char> {
    hex_text(sha256(encode_utf8(password)))
}

/// Derives the database key from the master password: the SHA-256 digest
/// of the password's bytes, written as 64 hexadecimal digits. Never fails.
pub fn derive_key(password: &str) -> (key: Result<String, String>)
    ensures
        key matches Ok(k) && k@ == derived_key(password@) && k@.len() == 64,
{
    let message = password.as_bytes_vec();
    let digest = sha256_digest(&message);
    let key = hex_encode(&digest);
    Ok(key)
}

/// The database key as the database takes it: between `x'` and `'`.
pub open spec fn quoted_key(key: Seq<char>) -> Seq<char> {
    seq!['x', '\''] + key + seq!['\'']
}

/// Writes a key in the form that the database takes.
pub fn format_key(key: &str) -> (quoted: String)
    ensures
        quoted@ == quoted_key(key@),
{
    proof {
        reveal_strlit("x'");
        reveal_strlit("'");
    }
    let mut quoted = String::from_str("x'");
    quoted.append(key);
    quoted.append("'");
    assert(quoted@ =~= quoted_key(key@));
    quoted
}

/// What is kept of the master password: its salted hash.
#[derive(Debug)]
pub struct SecurityConfig {
    pub password_hash: String,
}

/// The size in bytes above which an existing database file counts as one
/// that holds the user's data.
pub const MIGRATION_THRESHOLD_BYTES: u64 = 102400;

/// How the encryption of the database is set up.
#[derive(Debug, Clone, Copy, PartialEq, Eq, Structural)]
pub enum EncryptionSetup {
    /// There is a database with data in it: encrypt it as it is.
    MigrateExisting,
    /// There is a small database file: try whether it opens with the new
    /// key before anything else; see [`after_key_check`].
    CheckExisting,
    /// There is no database file: create an encrypted one.
    CreateNew,
}

/// How the encryption is set up for a database file that exists or not
/// and has the given size; a size that could not be read counts as a small
/// one.
pub open spec fn encryption_plan(exists: bool, size: Option<u64>) -> EncryptionSetup {
    if !exists {
        EncryptionSetup::CreateNew
    } else {
        match size {
            Some(bytes) => if bytes > MIGRATION_THRESHOLD_BYTES {
                EncryptionSetup::MigrateExisting
            } else {
                EncryptionSetup::CheckExisting
            },
            None => EncryptionSetup::CheckExisting,
        }
    }
}

/// Decides how the encryption is set up, from whether the database file
/// exists and how large it is.
pub fn plan_encryption(exists: bool, size: Option<u64>) -> (plan: EncryptionSetup)
    ensures
        plan == encryption_plan(exists, size),
{
    if !exists {
        EncryptionSetup::CreateNew
    } else {
        match size {
            Some(bytes) => if bytes > MIGRATION_THRESHOLD_BYTES {
                EncryptionSetup::MigrateExisting
            } else {
                EncryptionSetup::CheckExisting
            },
            None => EncryptionSetup::CheckExisting,
        }
    }
}

/// What to do with a small database file once it was tried with the new
/// key.
#[derive(Debug, Clone, Copy, PartialEq, Eq, Structural)]
pub enum ExistingDatabase {
    /// It opens with the key: unlock it and keep it.
    Keep,
    /// It does not: remove it and create an encrypted one.
    Replace,
}

/// Decides what to do with a small database file: it is kept if it could
/// be opened, took the key, and could be read with it.
pub fn after_key_check(opened: bool, key_taken: bool, readable: bool) -> (next: ExistingDatabase)
    ensures
        next == if opened && key_taken && readable {
            ExistingDatabase::Keep
        } else {
            ExistingDatabase::Replace
        },
{
    if opened && key_taken && readable {
        ExistingDatabase::Keep
    } else {
        ExistingDatabase::Replace
    }
}

} // verus!
