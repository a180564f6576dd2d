use imp::path::{base_name, dir_name, join_paths, parse_parts};
use imp::path::to_namespaced_path;

fn win32_path(s: &str) -> String {
    to_namespaced_path(s, false)
}

fn posix_path(s: &str) -> String {
    to_namespaced_path(s, true)
}

#[test]
fn posix_noop() {
    assert_eq!(posix_path("/foo/bar"), "/foo/bar");
    assert_eq!(posix_path("C:\\foo"), "C:\\foo");
    assert_eq!(posix_path("\\\\server\\share"), "\\\\server\\share");
}

#[test]
fn win32_already_namespaced() {
    assert_eq!(win32_path(r"\\?\C:\foo"), r"\\?\C:\foo");
    assert_eq!(win32_path(r"\\?\UNC\server\share"), r"\\?\UNC\server\share");
    assert_eq!(win32_path(r"\\.\PhysicalDrive0"), r"\\.\PhysicalDrive0");
}

#[test]
fn win32_unc() {
    assert_eq!(win32_path(r"\\server\share\foo"), r"\\?\UNC\server\share\foo");
    assert_eq!(win32_path(r"\\server\share"), r"\\?\UNC\server\share");
}

#[test]
fn win32_drive_path() {
    assert_eq!(win32_path(r"C:\foo"), r"\\?\C:\foo");
    assert_eq!(win32_path(r"D:\bar\baz"), r"\\?\D:\bar\baz");
}

#[test]
fn win32_forward_slash() {
    assert_eq!(win32_path("C:/foo"), r"\\?\C:\foo");
    assert_eq!(win32_path("C:/foo/bar"), r"\\?\C:\foo\bar");
}

#[test]
fn win32_drive_only() {
    assert_eq!(win32_path("C:"), r"\\?\C:\");
    assert_eq!(win32_path("C:foo"), r"\\?\C:\foo");
}

#[test]
fn win32_relative() {
    assert_eq!(win32_path(r"foo\bar"), r"foo\bar");
    assert_eq!(win32_path("foo"), "foo");
    assert_eq!(win32_path("."), ".");
    assert_eq!(win32_path(".."), "..");
}

#[test]
fn win32_empty() {
    assert_eq!(win32_path(""), "");
}

#[test]
fn win32_forward_slash_unc() {
    assert_eq!(win32_path("//server/share"), r"\\?\UNC\server\share");
}

fn s(x: &str) -> Option<String> {
    Some(x.to_string())
}

#[test]
fn format_prefers_dir_then_root() {
    assert_eq!(imp::path::format(s("/home/u"), s("/"), s("a.txt"), None, None, "/"), "/home/u/a.txt");
    assert_eq!(imp::path::format(None, s("/"), s("a.txt"), None, None, "/"), "/a.txt");
    assert_eq!(imp::path::format(None, None, s("a.txt"), None, None, "/"), "a.txt");
}

#[test]
fn format_builds_base_from_name_and_ext() {
    assert_eq!(imp::path::format(None, None, None, s("file"), s("txt"), "/"), "file.txt");
    assert_eq!(imp::path::format(None, None, None, s("file"), s(".txt"), "/"), "file.txt");
    assert_eq!(imp::path::format(None, None, None, s("file"), None, "/"), "file");
    assert_eq!(imp::path::format(s("dir"), None, s("b"), s("ignored"), s("x"), "\\"), "dir\\b");
}

fn o(s: &str) -> Option<String> {
    Some(s.to_string())
}

#[test]
fn basename_suffixes() {
    assert_eq!(base_name(o("file.txt"), None), "file.txt");
    assert_eq!(base_name(o("file.txt"), o(".txt")), "file");
    // every copy of the suffix at the end goes
    assert_eq!(base_name(o("a.txt.txt"), o(".txt")), "a");
    assert_eq!(base_name(o("aaa"), o("aa")), "a");
    assert_eq!(base_name(o("file.txt"), o("")), "file.txt");
    assert_eq!(base_name(o("file.txt"), o(".md")), "file.txt");
    assert_eq!(base_name(o(".txt"), o(".txt")), "");
    assert_eq!(base_name(None, o(".txt")), "");
    assert_eq!(base_name(o("héé"), o("é")), "h");
}

#[test]
fn dirname_defaults_to_dot() {
    assert_eq!(dir_name(o("/a/b")), "/a/b");
    assert_eq!(dir_name(None), ".");
}

#[test]
fn parse_parts_of_paths() {
    let p = parse_parts("/".to_string(), o("index.test.js"), o("js"), o("/home/u"));
    assert_eq!(p.root, "/");
    assert_eq!(p.dir, "/home/u");
    assert_eq!(p.base, "index.test.js");
    assert_eq!(p.ext, ".js");
    assert_eq!(p.name, "index.test");
    let q = parse_parts(String::new(), o("README"), None, None);
    assert_eq!(q.dir, "");
    assert_eq!(q.ext, "");
    assert_eq!(q.name, "README");
    let r = parse_parts("/".to_string(), None, None, None);
    assert_eq!(r.dir, "/");
    assert_eq!(r.base, "");
    assert_eq!(r.name, "");
}

#[test]
fn join_with_separator() {
    let v = vec!["a".to_string(), "b/c".to_string(), "".to_string(), "d".to_string()];
    assert_eq!(join_paths(&v, "/"), "a/b/c//d");
    assert_eq!(join_paths(&vec![], "/"), "");
    assert_eq!(join_paths(&vec!["x".to_string()], "\\"), "x");
}
