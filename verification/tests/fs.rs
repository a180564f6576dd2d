use imp::closable::Closable;
use imp::fs::{has_attribute, FileAttribute};
use imp::error::IoErrorKind;
use imp::fs::{
    decode_content, expand_home, expand_home_with, open_write_mode, seek_plan, write_data_bytes,
    write_file_mode, write_range, DataError, Encoding, Error, FileContent, GlobFilter, SeekPlan,
    WalkResType, WriteData, WriteMode,
};

#[test]
fn file_encoding_names() {
    assert_eq!(Encoding::from_opt(None), Ok(Encoding::Buffer));
    assert_eq!(Encoding::from_opt(Some("null")), Ok(Encoding::Buffer));
    assert_eq!(Encoding::from_opt(Some("utf-8")), Ok(Encoding::Utf8));
    assert_eq!(Encoding::from_opt(Some("utf8")), Ok(Encoding::Utf8));
    assert_eq!(Encoding::from_opt(Some("ascii")), Ok(Encoding::Ascii));
    assert_eq!(Encoding::from_opt(Some("binary")), Ok(Encoding::Latin1));
    assert_eq!(Encoding::from_opt(Some("base64url")), Ok(Encoding::Base64Url));
    assert_eq!(Encoding::from_opt(Some("hex")), Ok(Encoding::Hex));
    assert_eq!(
        Encoding::from_opt(Some("utf16")),
        Err(Error::Encoding("Unsupported encoding: utf16".to_string()))
    );
}

#[test]
fn decoding_file_contents() {
    let raw = b"hi\xc3\xa9".to_vec();
    assert_eq!(decode_content(raw.clone(), Encoding::Buffer), Ok(FileContent::Buffer(raw.clone())));
    assert_eq!(decode_content(raw.clone(), Encoding::Utf8), Ok(FileContent::Text("hié".to_string())));
    assert_eq!(decode_content(raw.clone(), Encoding::Latin1), Ok(FileContent::Text("hiÃ©".to_string())));
    assert_eq!(decode_content(b"ab".to_vec(), Encoding::Ascii), Ok(FileContent::Text("ab".to_string())));
    assert_eq!(decode_content(b"hi".to_vec(), Encoding::Base64), Ok(FileContent::Text("aGk=".to_string())));
    assert_eq!(decode_content(vec![0xfb, 0xff], Encoding::Base64Url), Ok(FileContent::Text("-_8".to_string())));
    assert_eq!(decode_content(vec![0x0f, 0xa0], Encoding::Hex), Ok(FileContent::Text("0fa0".to_string())));
    assert_eq!(
        decode_content(vec![0xff], Encoding::Utf8),
        Err(Error::Encoding("invalid utf-8 sequence of 1 bytes from index 0".to_string()))
    );
}

#[test]
fn system_errors_carry_codes() {
    let e = Error::from_io(IoErrorKind::NotFound, "gone".to_string(), "open", Some("/x".to_string()));
    assert_eq!(
        e,
        Error::System { code: "ENOENT", syscall: "open", message: "gone".to_string(), path: Some("/x".to_string()) }
    );
    match Error::from_io(IoErrorKind::Other, "?".to_string(), "read", None) {
        Error::System { code, .. } => assert_eq!(code, "UNKNOWN"),
        _ => panic!(),
    }
}

#[test]
fn write_modes() {
    assert_eq!(open_write_mode(None), Ok(WriteMode::Append));
    assert_eq!(open_write_mode(Some("w")), Ok(WriteMode::Truncate));
    assert_eq!(open_write_mode(Some("rw")), Ok(WriteMode::ReadWrite));
    assert_eq!(
        open_write_mode(Some("x")),
        Err(Error::Argument("invalid flags: 'x', expected 'w', 'a', or 'rw'".to_string()))
    );
    assert_eq!(write_file_mode(None), Ok(WriteMode::Truncate));
    assert_eq!(write_file_mode(Some("a")), Ok(WriteMode::Append));
    assert_eq!(
        write_file_mode(Some("rw")),
        Err(Error::Argument("invalid flag: 'rw', expected 'w' or 'a'".to_string()))
    );
}

#[test]
fn write_data() {
    assert_eq!(write_data_bytes(WriteData::ByteBuffer(vec![1])), Ok(vec![1]));
    assert_eq!(write_data_bytes(WriteData::ArrayBuffer(Some(vec![2]))), Ok(vec![2]));
    assert_eq!(write_data_bytes(WriteData::ArrayBuffer(None)), Err(DataError::ArrayBufferUnreadable));
    assert_eq!(write_data_bytes(WriteData::Text("é".to_string())), Ok(vec![0xc3, 0xa9]));
    assert_eq!(write_data_bytes(WriteData::Other), Err(DataError::Unsupported));
}

#[test]
fn write_ranges_are_cut_to_fit() {
    assert_eq!(write_range(10, None, None), (0, 10));
    assert_eq!(write_range(10, Some(4), None), (4, 6));
    assert_eq!(write_range(10, Some(4), Some(3)), (4, 3));
    assert_eq!(write_range(10, Some(4), Some(30)), (4, 6));
    assert_eq!(write_range(10, Some(40), Some(3)), (10, 0));
}

#[test]
fn seeks() {
    assert_eq!(seek_plan(true, 5, "start"), SeekPlan::Stay);
    assert_eq!(seek_plan(false, 5, "start"), SeekPlan::Start(5));
    assert_eq!(seek_plan(false, -1, "start"), SeekPlan::Start(u64::MAX));
    assert_eq!(seek_plan(false, -2, "current"), SeekPlan::Current(-2));
    assert_eq!(seek_plan(false, 3, "end"), SeekPlan::End(3));
    assert_eq!(seek_plan(false, 3, "middle"), SeekPlan::BadWhence);
}

#[test]
fn glob_filters() {
    assert!(GlobFilter::All.matches(true) && GlobFilter::All.matches(false));
    assert!(GlobFilter::FilesOnly.matches(false) && !GlobFilter::FilesOnly.matches(true));
    assert!(GlobFilter::DirsOnly.matches(true) && !GlobFilter::DirsOnly.matches(false));
    assert_eq!(GlobFilter::from_js(None), Ok(GlobFilter::All));
    assert_eq!(GlobFilter::from_js(Some("files".to_string())), Ok(GlobFilter::FilesOnly));
    assert_eq!(GlobFilter::from_js(Some("directories".to_string())), Ok(GlobFilter::DirsOnly));
    assert_eq!(
        GlobFilter::from_js(Some("dirs".to_string())),
        Err("filter must be \"all\", \"files\", or \"directories\"".to_string())
    );
    assert_eq!(GlobFilter::default(), GlobFilter::All);
    assert_ne!(WalkResType::Dir, WalkResType::File);
}

#[test]
fn home_expansion() {
    let home = Some("/home/u/".to_string());
    assert_eq!(expand_home_with("~", home.clone()), "/home/u");
    assert_eq!(expand_home_with("~/", home.clone()), "/home/u");
    assert_eq!(expand_home_with("~//docs", home.clone()), "/home/u/docs");
    assert_eq!(expand_home_with("~/a/b", home.clone()), "/home/u/a/b");
    assert_eq!(expand_home_with("~other", home.clone()), "~other");
    assert_eq!(expand_home_with("/abs", home.clone()), "/abs");
    assert_eq!(expand_home_with("~/x", None), "~/x");
    assert_eq!(expand_home_with("~/x", Some("/".to_string())), "x");
    assert_eq!(expand_home("/no/tilde"), "/no/tilde");
}

#[test]
fn file_attribute_bits() {
    assert!(has_attribute(0x20, FileAttribute::Archive));
    assert!(!has_attribute(0x20, FileAttribute::Hidden));
    assert!(has_attribute(0x2 | 0x4, FileAttribute::Hidden));
    assert!(has_attribute(0x2 | 0x4, FileAttribute::System));
    assert!(!has_attribute(0, FileAttribute::System));
}

#[test]
fn a_closed_handle_stays_closed() {
    let mut h = Closable::new(5u8);
    assert!(h.is_open());
    *h.get_mut().unwrap() += 1;
    assert_eq!(h.get_mut().copied(), Some(6));
    h.close();
    assert!(!h.is_open());
    assert!(h.get_mut().is_none());
    h.close();
    assert!(h.get_mut().is_none());
}
