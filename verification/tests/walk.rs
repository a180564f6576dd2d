use imp::byte_buffer::ByteBuffer;
use imp::fs::{GlobFilter, WalkResType};
use imp::walk::{Globs, WalkOptions, WalkStep};

#[test]
fn globs_compile_and_match() {
    let g = Globs::new(vec!["*.rs".to_string(), "docs/**".to_string()]).ok().unwrap();
    assert!(g.is_match("main.rs"));
    assert!(g.is_match("docs/a/b.md"));
    assert!(!g.is_match("main.txt"));
    let bad = Globs::new(vec!["ok".to_string(), "[".to_string()]);
    assert!(bad.is_err());
}

#[test]
fn walk_options_from_script_values() {
    let o = WalkOptions::from_js(
        Some(vec![Some("*.log".to_string()), None]),
        Some(true),
        None,
        Some("files".to_string()),
    )
    .ok()
    .unwrap();
    assert!(o.absolute);
    assert!(!o.dot);
    assert_eq!(o.filter, GlobFilter::FilesOnly);
    assert!(o.exclude.as_ref().unwrap().is_match("x.log"));
    assert!(o.pattern.is_none());
    let o = WalkOptions::from_js(Some(vec![None]), None, Some(true), None).ok().unwrap();
    assert!(o.exclude.is_none());
    assert!(o.dot);
    assert_eq!(o.filter, GlobFilter::All);
    assert!(WalkOptions::from_js(None, None, None, Some("dirs".to_string())).is_err());
    assert!(WalkOptions::from_js(Some(vec![Some("[".to_string())]), None, None, None).is_err());
}

#[test]
fn walk_steps() {
    let mut o = WalkOptions::default();
    assert_eq!(o.step(Some(".git"), "./.git", true), WalkStep::Skip);
    assert_eq!(o.step(Some("src"), "./src", true), WalkStep::Yield(WalkResType::Dir));
    assert_eq!(o.step(Some("a.rs"), "./a.rs", false), WalkStep::Yield(WalkResType::File));
    assert_eq!(o.step(None, "./weird", false), WalkStep::Yield(WalkResType::File));
    o.dot = true;
    assert_eq!(o.step(Some(".git"), "./.git", true), WalkStep::Yield(WalkResType::Dir));
    o.filter = GlobFilter::DirsOnly;
    assert_eq!(o.step(Some("a.rs"), "./a.rs", false), WalkStep::Skip);
    o.filter = GlobFilter::All;
    o.exclude = Some(Globs::new(vec!["**/target".to_string()]).ok().unwrap());
    assert_eq!(o.step(Some("target"), "./target", true), WalkStep::Skip);
    o.pattern = Some(Globs::new(vec!["**/*.rs".to_string()]).ok().unwrap());
    assert_eq!(o.step(Some("a.txt"), "./a.txt", false), WalkStep::Skip);
    assert_eq!(o.step(Some("a.rs"), "./a.rs", false), WalkStep::Yield(WalkResType::File));
}

#[test]
fn byte_buffers() {
    let b = ByteBuffer::new(vec![104, 105, 0xff]);
    assert_eq!(b.length(), 3);
    assert_eq!(b.as_slice(), &[104, 105, 0xff]);
    assert_eq!(b.to_string_lossy(), "hi\u{fffd}");
    assert_eq!(b.slice(1, None).as_slice(), &[105, 0xff]);
    assert_eq!(b.slice(2, Some(1)).as_slice(), &[] as &[u8]);
    assert_eq!(b.slice(0, Some(10)).as_slice(), &[104, 105, 0xff]);
    let z = ByteBuffer::alloc_zeroed(4);
    assert_eq!(z.as_slice(), &[0, 0, 0, 0]);
    let mut m = ByteBuffer::from_array(vec![1, 2]);
    m.as_mut_slice()[0] = 9;
    assert_eq!(m.as_slice(), &[9, 2]);
    assert_eq!(ByteBuffer::new("é".as_bytes().to_vec()).to_string_lossy(), "é");
}

#[test]
fn empty_pattern_list_builds() {
    let g = Globs::new(vec![]).ok().unwrap();
    assert!(!g.is_match("a.rs"));
    assert!(WalkOptions::from_js(Some(vec![Some("*.tmp".to_string())]), None, None, Some("files".to_string())).is_ok());
    let e = WalkOptions::from_js(Some(vec![Some("ok".to_string()), Some("[".to_string())]), None, None, Some("bad".to_string()));
    assert!(e.is_err());
}
