use vstd::prelude::*;
use vstd::utf8::{decode_utf8, valid_utf8};

verus! {

/// The lowercase hexadecimal digit for `d < 16`.
pub open spec fn hex_digit(d: nat) -> char {
    if d < 10 {
        (48 + d) as char
    } else {
        (87 + d) as char
    }
}

/// Each byte as two lowercase hexadecimal digits, high nibble first.
pub open spec fn hex_text(bytes: Seq<u8>) -> Seq<char>
    decreases bytes.len(),
{
    if bytes.len() == 0 {
        Seq::empty()
    } else {
        hex_text(bytes.drop_last()) + seq![
            hex_digit((bytes.last() / 16) as nat),
            hex_digit((bytes.last() % 16) as nat),
        ]
    }
}

/// The base64 alphabet: `A-Z`, `a-z`, `0-9`, then `+` and `/`, or with
/// `url` the URL-safe `-` and `_`.
pub open spec fn b64_char(v: nat, url: bool) -> char {
    if v < 26 {
        (65 + v) as char
    } else if v < 52 {
        (71 + v) as char
    } else if v < 62 {
        ((v - 4) as nat) as char
    } else if v == 62 {
        if url {
            '-'
        } else {
            '+'
        }
    } else {
        if url {
            '_'
        } else {
            '/'
        }
    }
}

/// Base64 (RFC 4648): each group of three bytes as four chars of six bits;
/// a last group of one or two bytes as two or three chars, followed by `=`
/// up to four where `pad` holds.
pub open spec fn base64_text(b: Seq<u8>, url: bool, pad: bool) -> Seq<char>
    decreases b.len(),
{
    if b.len() == 0 {
        Seq::empty()
    } else if b.len() == 1 {
        seq![b64_char((b[0] / 4) as nat, url), b64_char(((b[0] % 4) * 16) as nat, url)] + if pad {
            seq!['=', '=']
        } else {
            Seq::empty()
        }
    } else if b.len() == 2 {
        seq![
            b64_char((b[0] / 4) as nat, url),
            b64_char(((b[0] % 4) * 16 + b[1] / 16) as nat, url),
            b64_char(((b[1] % 16) * 4) as nat, url),
        ] + if pad {
            seq!['=']
        } else {
            Seq::empty()
        }
    } else {
        seq![
            b64_char((b[0] / 4) as nat, url),
            b64_char(((b[0] % 4) * 16 + b[1] / 16) as nat, url),
            b64_char(((b[1] % 16) * 4 + b[2] / 64) as nat, url),
            b64_char((b[2] % 64) as nat, url),
        ] + base64_text(b.subrange(3, b.len() as int), url, pad)
    }
}

/// Hex text has two digits per byte, each a lowercase hexadecimal digit.
pub proof fn lemma_hex_text_shape(bytes: Seq<u8>)
    ensures
        hex_text(bytes).len() == 2 * bytes.len(),
        forall|i: int| 0 <= i < hex_text(bytes).len() ==> {
            let c = #[trigger] hex_text(bytes)[i];
            ('0' <= c && c <= '9') || ('a' <= c && c <= 'f')
        },
    decreases bytes.len(),
{
    if bytes.len() > 0 {
        lemma_hex_text_shape(bytes.drop_last());
        let prev = hex_text(bytes.drop_last());
        let hi = hex_digit((bytes.last() / 16) as nat);
        let lo = hex_digit((bytes.last() % 16) as nat);
        assert(hex_text(bytes) == prev + seq![hi, lo]);
        assert forall|i: int| 0 <= i < hex_text(bytes).len() implies {
            let c = #[trigger] hex_text(bytes)[i];
            ('0' <= c && c <= '9') || ('a' <= c && c <= 'f')
        } by {
            if i < prev.len() {
                assert(hex_text(bytes)[i] == prev[i]);
            }
        }
    }
}

/// Padded base64 has four chars for each started group of three bytes;
/// without padding, the last group takes only the chars it needs.
pub proof fn lemma_base64_len(b: Seq<u8>, url: bool)
    ensures
        base64_text(b, url, true).len() == 4 * ((b.len() + 2) / 3),
        base64_text(b, url, false).len() == (4 * b.len() + 2) / 3,
    decreases b.len(),
{
    if b.len() >= 3 {
        lemma_base64_len(b.subrange(3, b.len() as int), url);
    }
}

/// Calls `hex::encode`: the bytes as lowercase hexadecimal.
#[verifier::external_body]
pub fn hex_encode(data: &[u8]) -> (s: String)
    ensures
        s@ == hex_text(data@),
{
    hex::encode(data)
}

/// Calls `Engine::encode` of `base64`'s `general_purpose::STANDARD` engine:
/// the standard alphabet, with padding.
#[verifier::external_body]
pub fn base64_standard(data: &[u8]) -> (s: String)
    ensures
        s@ == base64_text(data@, false, true),
{
    base64::Engine::encode(&base64::engine::general_purpose::STANDARD, data)
}

/// Calls `Engine::encode` of `base64`'s `general_purpose::URL_SAFE_NO_PAD`
/// engine: the URL-safe alphabet, without padding.
#[verifier::external_body]
pub fn base64_url_no_pad(data: &[u8]) -> (s: String)
    ensures
        s@ == base64_text(data@, true, false),
{
    base64::Engine::encode(&base64::engine::general_purpose::URL_SAFE_NO_PAD, data)
}

/// What the `Display` of `std::string::FromUtf8Error` writes for these bytes.
pub uninterp spec fn utf8_error_text(bytes: Seq<u8>) -> Seq<char>;

/// Calls `String::from_utf8`: the text where the bytes are valid UTF-8, else
/// the error's message (`to_string()`).
#[verifier::external_body]
pub fn string_from_utf8(bytes: Vec<u8>) -> (r: Result<String, String>)
    ensures
        r is Ok <==> valid_utf8(bytes@),
        r matches Ok(s) ==> s@ == decode_utf8(bytes@),
        r matches Err(m) ==> m@ == utf8_error_text(bytes@),
{
    match String::from_utf8(bytes) {
        Ok(s) => Ok(s),
        Err(e) => Err(e.to_string()),
    }
}

/// What `encoding_rs::WINDOWS_1252.decode` gives for these bytes.
pub uninterp spec fn windows_1252_text(bytes: Seq<u8>) -> Seq<char>;

/// Calls `decode` of `encoding_rs::WINDOWS_1252` (the encoding that the
/// labels `latin1`, `binary` and `ascii` stand for), with BOM sniffing and
/// malformed input replaced. Where every byte is ASCII, each byte becomes the
/// char of the same value. The length bound keeps the size computation
/// of the output buffer, which panics on overflow, in range.
#[verifier::external_body]
pub fn decode_windows_1252(bytes: &[u8]) -> (s: String)
    requires
        bytes@.len() <= usize::MAX / 4,
    ensures
        s@ == windows_1252_text(bytes@),
        (forall|i: int| 0 <= i < bytes@.len() ==> bytes@[i] < 128) ==> s@.len() == bytes@.len()
            && forall|i: int| 0 <= i < bytes@.len() ==> s@[i] as u32 == bytes@[i] as u32,
{
    encoding_rs::WINDOWS_1252.decode(bytes).0.into_owned()
}

} // verus!
