//! Digests of content, as lower-case hexadecimal text.

use crate::data::{HashType, Hashed};
use crate::text::{push_str, string_of};
use md5::Digest;
use vstd::prelude::*;

verus! {

/// Why a digest could not be had.
#[derive(Debug)]
pub struct HashError {
    pub kind: String,
    pub message: String,
}

impl Clone for HashError {
    fn clone(&self) -> (copy: Self)
        ensures
            copy == *self,
    {
        HashError { kind: self.kind.clone(), message: self.message.clone() }
    }
}

impl HashError {
    /// The error as one line of text.
    pub open spec fn text(self) -> Seq<char> {
        "HashError(kind: "@ + self.kind@ + ", message: "@ + self.message@ + ")"@
    }

    /// The error as one line of text.
    pub fn to_string(&self) -> (line: String)
        ensures
            line@ == self.text(),
    {
        let mut out: Vec<char> = Vec::new();
        push_str(&mut out, "HashError(kind: ");
        push_str(&mut out, self.kind.as_str());
        push_str(&mut out, ", message: ");
        push_str(&mut out, self.message.as_str());
        push_str(&mut out, ")");
        string_of(out.as_slice())
    }

    /// The error of content that could not be read.
    pub fn io(message: String) -> (error: HashError)
        ensures
            error.kind@ == "IO Error"@,
            error.message == message,
    {
        HashError { kind: "IO Error".to_string(), message }
    }

    /// The error of content that is no valid UTF-8.
    pub fn utf8(message: String) -> (error: HashError)
        ensures
            error.kind@ == "UTF-8 conversion"@,
            error.message == message,
    {
        HashError { kind: "UTF-8 conversion".to_string(), message }
    }

    /// The error that stands in for a digest that nobody asked for.
    pub fn not_computed() -> (error: HashError)
        ensures
            error.kind@ == "Not computed"@,
            error.message@ == "No request names this algorithm"@,
    {
        HashError {
            kind: "Not computed".to_string(),
            message: "No request names this algorithm".to_string(),
        }
    }

    /// The error of a file that could not be opened.
    pub fn cannot_open(file_path: &str, reason: &str) -> (error: HashError)
        ensures
            error.kind@ == "IO Error"@,
            error.message@ == "Cannot open file \""@ + file_path@ + "\": "@ + reason@,
    {
        let mut out: Vec<char> = Vec::new();
        push_str(&mut out, "Cannot open file \"");
        push_str(&mut out, file_path);
        push_str(&mut out, "\": ");
        push_str(&mut out, reason);
        HashError { kind: "IO Error".to_string(), message: string_of(out.as_slice()) }
    }
}

/// The MD5 digest of `data`.
pub uninterp spec fn md5_digest(data: Seq<u8>) -> Seq<u8>;

/// The SHA-1 digest of `data`.
pub uninterp spec fn sha1_digest(data: Seq<u8>) -> Seq<u8>;

/// The SHA-256 digest of `data`.
pub uninterp spec fn sha256_digest(data: Seq<u8>) -> Seq<u8>;

/// `md5::Md5::digest`: the MD5 digest of the data.
#[verifier::external_body]
fn md5_of(data: &[u8]) -> (digest: Vec<u8>)
    ensures
        digest@ == md5_digest(data@),
{
    md5::Md5::digest(data).to_vec()
}

/// `sha1::Sha1::digest`: the SHA-1 digest of the data.
#[verifier::external_body]
fn sha1_of(data: &[u8]) -> (digest: Vec<u8>)
    ensures
        digest@ == sha1_digest(data@),
{
    sha1::Sha1::digest(data).to_vec()
}

/// `sha2::Sha256::digest`: the SHA-256 digest of the data.
#[verifier::external_body]
fn sha256_of(data: &[u8]) -> (digest: Vec<u8>)
    ensures
        digest@ == sha256_digest(data@),
{
    sha2::Sha256::digest(data).to_vec()
}

/// The character of one hexadecimal digit, letters in lower case.
pub open spec fn hex_digit(nibble: int) -> char {
    if nibble < 10 {
        (('0' as u8) + nibble) as char
    } else {
        (('a' as u8) + nibble - 10) as char
    }
}

/// The bytes in hexadecimal: two digits for each, the high one first.
pub open spec fn hex_lower(bytes: Seq<u8>) -> Seq<char> {
    Seq::new(
        2 * bytes.len(),
        |i: int|
            if i % 2 == 0 {
                hex_digit(bytes[i / 2] as int / 16)
            } else {
                hex_digit(bytes[i / 2] as int % 16)
            },
    )
}

/// `hex::encode`: the bytes as hexadecimal text in lower case, two digits
/// for each byte.
#[verifier::external_body]
fn hex_of(bytes: &[u8]) -> (text: String)
    ensures
        text@ == hex_lower(bytes@),
{
    hex::encode(bytes)
}

/// The digest of `data` by the given algorithm.
pub open spec fn digest_of(algorithm: HashType, data: Seq<u8>) -> Seq<u8> {
    match algorithm {
        HashType::Md5 => md5_digest(data),
        HashType::Sha1 => sha1_digest(data),
        HashType::Sha256 => sha256_digest(data),
    }
}

/// Some of the digests is by the given algorithm.
pub open spec fn names_algorithm(wanted: Seq<Option<Hashed>>, algorithm: HashType) -> bool {
    exists|i: int|
        0 <= i < wanted.len() && ((#[trigger] wanted[i]) matches Some(hash) && hash.algorithm
            == algorithm)
}

/// Whether a digest by the given algorithm is of use for a request with
/// this digest, if it has one.
pub fn wants_algorithm(wanted: &Option<Hashed>, algorithm: HashType) -> (named: bool)
    ensures
        named == (*wanted matches Some(hash) && hash.algorithm == algorithm),
{
    match wanted {
        None => false,
        Some(hash) => match (hash.algorithm, algorithm) {
            (HashType::Md5, HashType::Md5) => true,
            (HashType::Sha1, HashType::Sha1) => true,
            (HashType::Sha256, HashType::Sha256) => true,
            _ => false,
        },
    }
}

/// Computes digests by one algorithm.
#[derive(Debug)]
pub struct Hasher {
    algorithm: HashType,
}

impl Hasher {
    /// The algorithm that the hasher computes.
    pub closed spec fn algorithm(self) -> HashType {
        self.algorithm
    }

    /// A hasher for the given algorithm.
    pub fn new(algorithm: HashType) -> (hasher: Hasher)
        ensures
            hasher.algorithm() == algorithm,
    {
        Hasher { algorithm }
    }

    /// The digest of `data`, with the algorithm that made it.
    pub fn hash(&self, data: &[u8]) -> (hashed: Hashed)
        ensures
            hashed.algorithm == self.algorithm(),
            hashed.value@ == hex_lower(digest_of(self.algorithm(), data@)),
    {
        let digest = match self.algorithm {
            HashType::Md5 => md5_of(data),
            HashType::Sha1 => sha1_of(data),
            HashType::Sha256 => sha256_of(data),
        };
        Hashed { algorithm: self.algorithm, value: hex_of(digest.as_slice()) }
    }
}

} // verus!
