use imp::coerce::JsType;
use imp::hash::{
    blake3, encode_output, extract_input_bytes, md5, sha1, sha256, sha512, type_error, Encoding,
    HashError, HashInput, HashOutput,
};

fn text(x: &str) -> HashInput {
    HashInput::Text(x.to_string())
}

fn hex_of(r: Result<HashOutput, HashError>) -> String {
    match r {
        Ok(HashOutput::Text(s)) => s,
        other => panic!("unexpected {:?}", other),
    }
}

#[test]
fn digests_in_hex_by_default() {
    assert_eq!(hex_of(md5(&text("abc"), None)), "900150983cd24fb0d6963f7d28e17f72");
    assert_eq!(hex_of(sha1(&text("abc"), None)), "a9993e364706816aba3e25717850c26c9cd0d89d");
    assert_eq!(
        hex_of(sha256(&text("abc"), None)),
        "ba7816bf8f01cfea414140de5dae2223b00361a396177a9cb410ff61f20015ad"
    );
    assert_eq!(
        hex_of(sha512(&text("abc"), None)),
        "ddaf35a193617abacc417349ae20413112e6fa4e89a97ea20a9eeee64b55d39a2192992a274fc1a836ba3c23a3feebbd454d4423643ce80e2a9ac94fa54ca49f"
    );
    assert_eq!(
        hex_of(blake3(&text("abc"), None)),
        "6437b3ac38465133ffb63b75273a8db548c558465d79db03fd359c6cd5bd9d85"
    );
}

#[test]
fn encodings_of_the_digest() {
    assert_eq!(hex_of(md5(&text("abc"), Some("base64".to_string()))), "kAFQmDzST7DWlj99KOF/cg==");
    assert_eq!(hex_of(md5(&text("abc"), Some("whatever".to_string()))), "900150983cd24fb0d6963f7d28e17f72");
    match md5(&text("abc"), Some("bytes".to_string())) {
        Ok(HashOutput::Bytes(b)) => {
            assert_eq!(b.len(), 16);
            assert_eq!(b[0], 0x90);
            assert_eq!(b[15], 0x72);
        }
        other => panic!("unexpected {:?}", other),
    }
}

#[test]
fn a_string_hashes_as_its_utf8_bytes() {
    let from_text = sha256(&text("héllo"), None);
    let from_bytes = sha256(&HashInput::Bytes("héllo".as_bytes().to_vec()), None);
    assert_eq!(from_text, from_bytes);
    assert_eq!(hex_of(from_text), "3c48591d8d098a4538f5e013dfcf406e948eac4d3277b10bf614e295d6068179");
}

#[test]
fn other_inputs_are_type_errors() {
    let r = md5(&HashInput::Other(JsType::Int(5)), None);
    assert_eq!(
        r,
        Err(HashError::InvalidArgType(
            "the \"input\" argument must be of type string | ByteBuffer. Received type number (5)".to_string()
        ))
    );
    assert_eq!(
        extract_input_bytes(&HashInput::Other(JsType::Null)),
        Err(HashError::InvalidArgType(
            "the \"input\" argument must be of type string | ByteBuffer. Received null".to_string()
        ))
    );
    assert_eq!(
        type_error("x", "y", "z"),
        HashError::InvalidArgType("the \"x\" argument must be of type y. Received z".to_string())
    );
}

#[test]
fn input_bytes() {
    assert_eq!(extract_input_bytes(&text("é")), Ok(vec![0xc3, 0xa9]));
    assert_eq!(extract_input_bytes(&HashInput::Bytes(vec![1, 2])), Ok(vec![1, 2]));
}

#[test]
fn hash_encoding_names() {
    assert_eq!(Encoding::parse("base64"), Encoding::Base64);
    assert_eq!(Encoding::parse("bytes"), Encoding::Bytes);
    assert_eq!(Encoding::parse("hex"), Encoding::Hex);
    assert_eq!(Encoding::parse("HEX"), Encoding::Hex);
    assert_eq!(Encoding::default(), Encoding::Hex);
}

#[test]
fn output_encodings() {
    assert_eq!(encode_output(&vec![0x00, 0xff, 0x1a], Encoding::Hex), HashOutput::Text("00ff1a".to_string()));
    assert_eq!(encode_output(&b"hi".to_vec(), Encoding::Base64), HashOutput::Text("aGk=".to_string()));
    assert_eq!(encode_output(&vec![9, 8], Encoding::Bytes), HashOutput::Bytes(vec![9, 8]));
}

#[test]
fn readme_hashes() {
    assert_eq!(
        hex_of(sha256(&text("hello world"), None)),
        "b94d27b9934d3e08a52e52d7da7dabfac484efe37a5380ee9088f7ace2efcde9"
    );
    let b = hex_of(blake3(&text("data"), Some("hex".to_string())));
    assert_eq!(b.len(), 64);
    assert_eq!(b, hex_of(blake3(&text("data"), None)));
}
