use vstd::prelude::*;
use vstd::string::StrSliceExecFns;

use crate::codec::{base64_standard, base64_text, hex_encode, hex_text};
use crate::coerce::{js_type_of, type_text, JsType};
use crate::unicode::str_eq;

verus! {

/// What the hash functions take: a string (hashed as its UTF-8 bytes), the
/// bytes of a byte buffer, or another value, of which only its type matters.
pub enum HashInput {
    Text(String),
    Bytes(Vec<u8>),
    Other(JsType),
}

/// How a digest is handed back.
#[derive(Debug, Clone, Copy, PartialEq, Eq, Structural)]
pub enum Encoding {
    Hex,
    Base64,
    Bytes,
}

/// A digest, encoded: text (hex or base64) or raw bytes.
#[derive(Debug, Clone, PartialEq, Eq)]
pub enum HashOutput {
    Text(String),
    Bytes(Vec<u8>),
}

/// Why a hash function refused its input.
#[derive(Debug, Clone, PartialEq, Eq)]
pub enum HashError {
    /// A `TypeError` with this message.
    InvalidArgType(String),
}

impl HashError {
    /// The message of the error.
    pub open spec fn text(self) -> Seq<char> {
        match self {
            HashError::InvalidArgType(m) => m@,
        }
    }

    /// `the "<arg>" argument must be of type <expected>. Received <received>`.
    pub fn invalid_arg_type(arg_name: &str, expected: &str, received: &str) -> (e: Self)
        ensures
            e.text() == invalid_arg_text(arg_name@, expected@, received@),
    {
        let mut s = String::from_str("the \"");
        s.append(arg_name);
        s.append("\" argument must be of type ");
        s.append(expected);
        s.append(". Received ");
        s.append(received);
        HashError::InvalidArgType(s)
    }
}

pub open spec fn invalid_arg_text(arg: Seq<char>, expected: Seq<char>, received: Seq<char>) -> Seq<char> {
    "the \""@ + arg + "\" argument must be of type "@ + expected + ". Received "@ + received
}

impl Encoding {
    /// `base64` and `bytes` name those encodings; anything else is hex.
    pub open spec fn parse_spec(s: Seq<char>) -> Encoding {
        if s == "base64"@ {
            Encoding::Base64
        } else if s == "bytes"@ {
            Encoding::Bytes
        } else {
            Encoding::Hex
        }
    }

    /// Reads the name of an output encoding.
    pub fn parse(s: &str) -> (e: Self)
        ensures
            e == Self::parse_spec(s@),
    {
        if str_eq(s, "base64") {
            Encoding::Base64
        } else if str_eq(s, "bytes") {
            Encoding::Bytes
        } else {
            Encoding::Hex
        }
    }

    /// The encoding asked for, hex where none was given.
    pub open spec fn from_opt_spec(s: Option<Seq<char>>) -> Encoding {
        match s {
            Some(s) => Self::parse_spec(s),
            None => Encoding::Hex,
        }
    }
}

impl Default for Encoding {
    fn default() -> (e: Self)
        ensures
            e == Encoding::Hex,
    {
        Encoding::Hex
    }
}

/// The error for an argument of the wrong type.
pub fn type_error(name: &str, expected: &str, received: &str) -> (e: HashError)
    ensures
        e.text() == invalid_arg_text(name@, expected@, received@),
{
    HashError::invalid_arg_type(name, expected, received)
}

/// The bytes that are hashed for an input: a string's UTF-8 bytes, a
/// buffer's bytes; `None` for any other value.
pub open spec fn input_bytes(input: HashInput) -> Option<Seq<u8>> {
    match input {
        HashInput::Text(s) => Some(vstd::utf8::encode_utf8(s@)),
        HashInput::Bytes(b) => Some(b@),
        HashInput::Other(_) => None,
    }
}

/// The error for an input that is neither a string nor a byte buffer.
pub open spec fn input_error_text(t: JsType) -> Seq<char> {
    invalid_arg_text("input"@, "string | ByteBuffer"@, type_text(t))
}

/// The bytes to hash, or the error for an input of another type.
pub fn extract_input_bytes(input: &HashInput) -> (r: Result<Vec<u8>, HashError>)
    ensures
        match input_bytes(*input) {
            Some(b) => r matches Ok(v) && v@ == b,
            None => r matches Err(e) && e.text() == input_error_text(input->Other_0),
        },
{
    match input {
        HashInput::Text(s) => Ok(s.as_str().as_bytes_vec()),
        HashInput::Bytes(b) => {
            let mut v: Vec<u8> = Vec::new();
            for i in 0..b.len()
                invariant
                    v@ == b@.take(i as int),
            {
                proof {
                    assert(b@.take(i + 1) =~= b@.take(i as int).push(b@[i as int]));
                }
                v.push(b[i]);
            }
            proof {
                assert(b@.take(b@.len() as int) =~= b@);
            }
            Ok(v)
        },
        HashInput::Other(t) => {
            let received = js_type_of(t);
            Err(type_error("input", "string | ByteBuffer", received.as_str()))
        },
    }
}

/// A digest, encoded as asked.
pub open spec fn encoded(out: HashOutput, data: Seq<u8>, e: Encoding) -> bool {
    match e {
        Encoding::Hex => out matches HashOutput::Text(s) && s@ == hex_text(data),
        Encoding::Base64 => out matches HashOutput::Text(s) && s@ == base64_text(data, false, true),
        Encoding::Bytes => out matches HashOutput::Bytes(b) && b@ == data,
    }
}

/// Encodes a digest: lowercase hex, standard base64, or the bytes.
pub fn encode_output(data: &Vec<u8>, encoding: Encoding) -> (out: HashOutput)
    ensures
        encoded(out, data@, encoding),
{
    match encoding {
        Encoding::Hex => HashOutput::Text(hex_encode(data.as_slice())),
        Encoding::Base64 => HashOutput::Text(base64_standard(data.as_slice())),
        Encoding::Bytes => {
            let mut v: Vec<u8> = Vec::new();
            for i in 0..data.len()
                invariant
                    v@ == data@.take(i as int),
            {
                proof {
                    assert(data@.take(i + 1) =~= data@.take(i as int).push(data@[i as int]));
                }
                v.push(data[i]);
            }
            proof {
                assert(data@.take(data@.len() as int) =~= data@);
            }
            HashOutput::Bytes(v)
        },
    }
}

fn encoding_of(encoding: &Option<String>) -> (e: Encoding)
    ensures
        e == Encoding::from_opt_spec(
            match encoding {
                Some(s) => Some(s@),
                None => None,
            },
        ),
{
    match encoding {
        Some(s) => Encoding::parse(s.as_str()),
        None => Encoding::Hex,
    }
}

/// The MD5 digest of the bytes.
pub uninterp spec fn md5_digest(data: Seq<u8>) -> Seq<u8>;

/// The SHA-1 digest of the bytes.
pub uninterp spec fn sha1_digest(data: Seq<u8>) -> Seq<u8>;

/// The SHA-256 digest of the bytes.
pub uninterp spec fn sha256_digest(data: Seq<u8>) -> Seq<u8>;

/// The SHA-512 digest of the bytes.
pub uninterp spec fn sha512_digest(data: Seq<u8>) -> Seq<u8>;

/// The BLAKE3 hash (32 bytes) of the bytes.
pub uninterp spec fn blake3_digest(data: Seq<u8>) -> Seq<u8>;

/// Calls `Digest::digest` of `md5::Md5`: the 16-byte MD5 digest.
#[verifier::external_body]
fn md5_bytes(data: &[u8]) -> (d: Vec<u8>)
    ensures
        d@ == md5_digest(data@),
        d@.len() == 16,
{
    <md5::Md5 as digest::Digest>::digest(data).to_vec()
}

/// Calls `Digest::digest` of `sha1::Sha1`: the 20-byte SHA-1 digest.
#[verifier::external_body]
fn sha1_bytes(data: &[u8]) -> (d: Vec<u8>)
    ensures
        d@ == sha1_digest(data@),
        d@.len() == 20,
{
    <sha1::Sha1 as digest::Digest>::digest(data).to_vec()
}

/// Calls `Digest::digest` of `sha2::Sha256`: the 32-byte SHA-256 digest.
#[verifier::external_body]
fn sha256_bytes(data: &[u8]) -> (d: Vec<u8>)
    ensures
        d@ == sha256_digest(data@),
        d@.len() == 32,
{
    <sha2::Sha256 as digest::Digest>::digest(data).to_vec()
}

/// Calls `Digest::digest` of `sha2::Sha512`: the 64-byte SHA-512 digest.
#[verifier::external_body]
fn sha512_bytes(data: &[u8]) -> (d: Vec<u8>)
    ensures
        d@ == sha512_digest(data@),
        d@.len() == 64,
{
    <sha2::Sha512 as digest::Digest>::digest(data).to_vec()
}

/// Calls `blake3::hash`: the 32-byte hash, as its bytes.
#[verifier::external_body]
fn blake3_bytes(data: &[u8]) -> (d: Vec<u8>)
    ensures
        d@ == blake3_digest(data@),
        d@.len() == 32,
{
    blake3::hash(data).as_bytes().to_vec()
}

/// The digest algorithms of the hash module.
#[derive(Debug, Clone, Copy, PartialEq, Eq, Structural)]
pub enum Algorithm {
    Md5,
    Sha1,
    Sha256,
    Sha512,
    Blake3,
}

/// The digest of `data` under `alg`.
pub open spec fn digest_of(alg: Algorithm, data: Seq<u8>) -> Seq<u8> {
    match alg {
        Algorithm::Md5 => md5_digest(data),
        Algorithm::Sha1 => sha1_digest(data),
        Algorithm::Sha256 => sha256_digest(data),
        Algorithm::Sha512 => sha512_digest(data),
        Algorithm::Blake3 => blake3_digest(data),
    }
}

/// The length in bytes of a digest under `alg`: 16 for MD5, 20 for SHA-1,
/// 32 for SHA-256 and BLAKE3, 64 for SHA-512.
pub open spec fn digest_len(alg: Algorithm) -> nat {
    match alg {
        Algorithm::Md5 => 16,
        Algorithm::Sha1 => 20,
        Algorithm::Sha256 => 32,
        Algorithm::Sha512 => 64,
        Algorithm::Blake3 => 32,
    }
}

/// What a hash function returns: the digest of the input's bytes (of the
/// algorithm's length), encoded as asked (hex by default), or the error for
/// an input of another type.
pub open spec fn hashed(
    r: Result<HashOutput, HashError>,
    alg: Algorithm,
    input: HashInput,
    encoding: Option<Seq<char>>,
) -> bool {
    match input_bytes(input) {
        Some(b) => r matches Ok(out) && digest_of(alg, b).len() == digest_len(alg) && encoded(
            out,
            digest_of(alg, b),
            Encoding::from_opt_spec(encoding),
        ),
        None => r matches Err(e) && e.text() == input_error_text(input->Other_0),
    }
}

pub open spec fn opt_view(s: Option<String>) -> Option<Seq<char>> {
    match s {
        Some(s) => Some(s@),
        None => None,
    }
}

/// Hashes an input with one of the digest algorithms.
pub fn hash_input(alg: Algorithm, input: &HashInput, encoding: Option<String>) -> (r: Result<HashOutput, HashError>)
    ensures
        hashed(r, alg, *input, opt_view(encoding)),
{
    let bytes = match extract_input_bytes(input) {
        Ok(b) => b,
        Err(e) => return Err(e),
    };
    let e = encoding_of(&encoding);
    let d = match alg {
        Algorithm::Md5 => md5_bytes(bytes.as_slice()),
        Algorithm::Sha1 => sha1_bytes(bytes.as_slice()),
        Algorithm::Sha256 => sha256_bytes(bytes.as_slice()),
        Algorithm::Sha512 => sha512_bytes(bytes.as_slice()),
        Algorithm::Blake3 => blake3_bytes(bytes.as_slice()),
    };
    Ok(encode_output(&d, e))
}

/// `md5(input, encoding)`.
pub fn md5(input: &HashInput, encoding: Option<String>) -> (r: Result<HashOutput, HashError>)
    ensures
        hashed(r, Algorithm::Md5, *input, opt_view(encoding)),
{
    hash_input(Algorithm::Md5, input, encoding)
}

/// `sha1(input, encoding)`.
pub fn sha1(input: &HashInput, encoding: Option<String>) -> (r: Result<HashOutput, HashError>)
    ensures
        hashed(r, Algorithm::Sha1, *input, opt_view(encoding)),
{
    hash_input(Algorithm::Sha1, input, encoding)
}

/// `sha256(input, encoding)`.
pub fn sha256(input: &HashInput, encoding: Option<String>) -> (r: Result<HashOutput, HashError>)
    ensures
        hashed(r, Algorithm::Sha256, *input, opt_view(encoding)),
{
    hash_input(Algorithm::Sha256, input, encoding)
}

/// `sha512(input, encoding)`.
pub fn sha512(input: &HashInput, encoding: Option<String>) -> (r: Result<HashOutput, HashError>)
    ensures
        hashed(r, Algorithm::Sha512, *input, opt_view(encoding)),
{
    hash_input(Algorithm::Sha512, input, encoding)
}

/// `blake3(input, encoding)` (`blake3_input`).
pub fn blake3_input(input: &HashInput, encoding: Option<String>) -> (r: Result<HashOutput, HashError>)
    ensures
        hashed(r, Algorithm::Blake3, *input, opt_view(encoding)),
{
    hash_input(Algorithm::Blake3, input, encoding)
}

/// `blake3(input, encoding)`.
pub fn blake3(input: &HashInput, encoding: Option<String>) -> (r: Result<HashOutput, HashError>)
    ensures
        hashed(r, Algorithm::Blake3, *input, opt_view(encoding)),
{
    blake3_input(input, encoding)
}

/// A string hashes as its UTF-8 bytes: for any algorithm and encoding, the
/// result for the text is the result for a buffer holding those bytes.
pub proof fn lemma_text_hashes_as_its_bytes(
    r: Result<HashOutput, HashError>,
    alg: Algorithm,
    s: String,
    b: Vec<u8>,
    encoding: Option<Seq<char>>,
)
    requires
        b@ == vstd::utf8::encode_utf8(s@),
    ensures
        hashed(r, alg, HashInput::Text(s), encoding) == hashed(r, alg, HashInput::Bytes(b), encoding),
{
}

/// A hex digest has two chars per digest byte: 32 for MD5, 40 for SHA-1,
/// 64 for SHA-256 and BLAKE3, 128 for SHA-512.
pub proof fn lemma_hex_digest_len(out: HashOutput, alg: Algorithm, data: Seq<u8>)
    requires
        encoded(out, digest_of(alg, data), Encoding::Hex),
        digest_of(alg, data).len() == digest_len(alg),
    ensures
        out matches HashOutput::Text(t) && t@.len() == 2 * digest_len(alg),
{
    crate::codec::lemma_hex_text_shape(digest_of(alg, data));
}

} // verus!
