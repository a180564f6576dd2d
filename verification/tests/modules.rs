use chrono::Weekday;

use imp::bundler::{
    entry_error, extract_imports, is_native_module, module_code, normalize_slashes, read_error,
    resolve_error, virtual_name, Bundler,
};
use imp::date::weekday_from_u8;
use imp::json::{json_check, json_string};
use imp::loader::{DataKind, DataLoader, EmbeddedResolver, TsLoader};
use imp::resolver::Resolver;
use imp::typescript::{is_ts_ext, strip_types_fast_default};

#[test]
fn json_literals() {
    assert_eq!(json_string("a\"b\n\u{1}\\"), "\"a\\\"b\\n\\u0001\\\\\"");
    assert_eq!(json_string("é\t"), "\"é\\t\"");
    assert!(json_check("{\"a\": [1, 2]}").is_ok());
    assert!(json_check("{a: 1}").is_err());
}

#[test]
fn typescript_files() {
    assert!(is_ts_ext("src/a.ts"));
    assert!(is_ts_ext("a.mts"));
    assert!(is_ts_ext("a.cts"));
    assert!(is_ts_ext("a.tsx"));
    assert!(!is_ts_ext("a.js"));
    assert!(!is_ts_ext("noext"));
    assert!(!is_ts_ext("a.d.ts.bak"));
}

#[test]
fn stripping_types() {
    let js = strip_types_fast_default("let x: number = 1;").unwrap();
    assert_eq!(js.trim(), "let x = 1;");
    let err = strip_types_fast_default("let = ;").unwrap_err();
    assert!(err.starts_with("TS Syntax Errors"));
}

#[test]
fn imports_in_order() {
    let src = "import a from './a.js';\nexport * from './b';\nexport { c } from './c';\nconst x = 1;\nexport { x };";
    assert_eq!(extract_imports(src), vec!["./a.js".to_string(), "./b".to_string(), "./c".to_string()]);
    assert!(extract_imports("import from from from;").is_empty());
}

#[test]
fn module_names_in_the_bundle() {
    assert_eq!(virtual_name("/proj/src/a.js", "/proj"), "src/a.js");
    assert_eq!(virtual_name("/other/a.js", "/proj"), "other/a.js");
    assert_eq!(virtual_name("C:/proj/x.ts", "C:/proj"), "x.ts");
    assert_eq!(normalize_slashes("a\\b\\c"), "a/b/c");
    let natives = vec!["fs".to_string(), "path".to_string()];
    assert!(is_native_module("fs", &natives));
    assert!(!is_native_module("./fs", &natives));
}

#[test]
fn module_code_by_extension() {
    assert_eq!(module_code("/p/a.json", "{\"k\": 1}".to_string()), Ok("export default {\"k\": 1};".to_string()));
    assert!(module_code("/p/a.json", "{".to_string()).unwrap_err().starts_with("invalid JSON /p/a.json: "));
    assert_eq!(module_code("/p/a.txt", "hi\n".to_string()), Ok("export default \"hi\\n\";".to_string()));
    assert_eq!(module_code("/p/a.text", "x".to_string()), Ok("export default \"x\";".to_string()));
    assert_eq!(module_code("/p/a.js", "let y = 2;".to_string()), Ok("let y = 2;".to_string()));
    assert_eq!(module_code("/p/a.ts", "let y: string = 'a';".to_string()).unwrap().trim(), "let y = \"a\";");
}

#[test]
fn bundling_visits_each_file_once() {
    let mut b = Bundler::new("C:\\proj\\main.js", "C:\\proj");
    let (p, n) = b.next_file().unwrap();
    assert_eq!((p.as_str(), n.as_str()), ("C:/proj/main.js", "main"));
    b.add_dependency("C:/proj/lib/a.js".to_string());
    b.add_dependency("C:\\proj\\lib\\a.js".to_string());
    b.add_dependency("C:/proj/main.js".to_string());
    b.add_module("import './lib/a.js';".to_string());
    let (p2, n2) = b.next_file().unwrap();
    assert_eq!((p2.as_str(), n2.as_str()), ("C:/proj/lib/a.js", "lib/a.js"));
    b.add_module("export {}".to_string());
    assert!(b.next_file().is_none());
    let bundle = b.finish();
    assert_eq!(bundle.entry, "main");
    assert_eq!(
        bundle.modules,
        vec![
            ("main".to_string(), "import './lib/a.js';".to_string()),
            ("lib/a.js".to_string(), "export {}".to_string())
        ]
    );
    assert_eq!(bundle.source_paths[1], ("lib/a.js".to_string(), "C:/proj/lib/a.js".to_string()));
}

#[test]
fn a_module_name_done_twice_keeps_the_last_code() {
    let mut b = Bundler::new("/p/main.js", "/p");
    let (_, n) = b.next_file().unwrap();
    assert_eq!(n, "main");
    assert_eq!(b.resolved_import("./main", Ok("/p/main".to_string())), Ok(()));
    b.add_module("1".to_string());
    let (p2, n2) = b.next_file().unwrap();
    assert_eq!((p2.as_str(), n2.as_str()), ("/p/main", "main"));
    b.add_module("2".to_string());
    assert!(b.next_file().is_none());
    let bundle = b.finish();
    assert_eq!(bundle.modules, vec![("main".to_string(), "2".to_string())]);
    assert_eq!(bundle.source_paths, vec![("main".to_string(), "/p/main".to_string())]);
}

#[test]
fn an_unresolved_import_fails_the_bundle() {
    let mut b = Bundler::new("/p/main.js", "/p");
    b.next_file().unwrap();
    assert_eq!(
        b.resolved_import("x", Err("module not found".to_string())),
        Err("cannot resolve 'x' from '/p/main.js': module not found".to_string())
    );
}

#[test]
fn bundle_error_messages() {
    assert_eq!(read_error("/a", "gone"), "cannot read /a: gone");
    assert_eq!(resolve_error("x", "/a", "module not found"), "cannot resolve 'x' from '/a': module not found");
    assert_eq!(entry_error("main.js", "nope"), "cannot resolve entry main.js: nope");
}

#[test]
fn bare_names() {
    let r = Resolver::default();
    let split = |n: &str| {
        let (a, b) = r.break_bare(n);
        (a, b)
    };
    assert_eq!(split("lodash"), ("lodash".to_string(), ".".to_string()));
    assert_eq!(split("lodash/fp/map"), ("lodash".to_string(), "./fp/map".to_string()));
    assert_eq!(split("lodash/"), ("lodash".to_string(), ".".to_string()));
    assert_eq!(split("@scope/pkg"), ("@scope/pkg".to_string(), ".".to_string()));
    assert_eq!(split("@scope/pkg/sub/x"), ("@scope/pkg".to_string(), "./sub/x".to_string()));
    assert_eq!(split("@scope"), ("@scope".to_string(), ".".to_string()));
    assert_eq!(split("@scope/"), ("@scope/".to_string(), ".".to_string()));
}

#[test]
fn resolution_candidates() {
    let r = Resolver::default();
    assert_eq!(r.extensions, vec![".ts", ".mts", ".js", ".mjs", ".json"]);
    assert_eq!(
        r.file_candidates("/a/b"),
        vec!["/a/b.ts", "/a/b.mts", "/a/b.js", "/a/b.mjs", "/a/b.json"]
    );
    assert_eq!(r.file_candidates("/a/b.js")[0], "/a/b.ts");
    assert_eq!(
        r.index_candidates("/a"),
        vec!["/a/index.ts", "/a/index.mts", "/a/index.js", "/a/index.mjs", "/a/index.json"]
    );
}

#[test]
fn loaders() {
    assert!(TsLoader::accepts(Some("ts")) && TsLoader::accepts(Some("cts")));
    assert!(!TsLoader::accepts(Some("tsx")) && !TsLoader::accepts(None));
    assert_eq!(TsLoader::code("const a: number = 1;").unwrap().trim(), "const a = 1;");
    assert_eq!(DataLoader::kind(Some("json"), Some("txt")), DataKind::Json);
    assert_eq!(DataLoader::kind(None, Some("txt")), DataKind::Text);
    assert_eq!(DataLoader::kind(None, Some("csv")), DataKind::Unsupported);
    assert_eq!(DataLoader::kind(None, None), DataKind::Unsupported);
    assert_eq!(DataLoader::code(DataKind::Json, "[1]"), Ok("export default [1];".to_string()));
    assert_eq!(DataLoader::code(DataKind::Text, "a\"b"), Ok("export default \"a\\\"b\";".to_string()));
    assert_eq!(DataLoader::code(DataKind::Unsupported, "x"), Err("unsupported data type".to_string()));
    assert!(DataLoader::code(DataKind::Json, "[").is_err());
}

#[test]
fn embedded_resolution() {
    let r = EmbeddedResolver::new(vec!["main".to_string(), "lib/a.js".to_string()]);
    assert!(r.contains("lib/a.js"));
    assert!(!r.contains("lib/b.js"));
    assert_eq!(r.resolve_bare("main"), Ok("main".to_string()));
    assert_eq!(r.resolve_bare("x"), Err("module not found in bundle".to_string()));
}

#[test]
fn weekdays_from_sunday() {
    assert_eq!(weekday_from_u8(0), Some(Weekday::Sun));
    assert_eq!(weekday_from_u8(1), Some(Weekday::Mon));
    assert_eq!(weekday_from_u8(6), Some(Weekday::Sat));
    assert_eq!(weekday_from_u8(7), None);
    assert_eq!(weekday_from_u8(255), None);
}

#[test]
fn syntax_errors_are_prefixed() {
    let err = strip_types_fast_default("let = ;").unwrap_err();
    assert!(err.starts_with("TS Syntax Errors: "));
    assert!(err.len() > "TS Syntax Errors: ".len());
    let js = imp::typescript::strip_types_fast("const y: string = 'a';", Default::default()).unwrap();
    assert_eq!(js.trim(), "const y = \"a\";");
}

#[test]
fn export_all_and_plain_exports() {
    assert_eq!(extract_imports("export * as n from './n';\nexport default 1;"), vec!["./n".to_string()]);
    assert!(extract_imports("const a = 1;").is_empty());
}

#[test]
fn extensions_of_paths() {
    let e = |p: &str| imp::typescript::extension_of(p);
    assert_eq!(e("a.tar.gz"), Some("gz".to_string()));
    assert_eq!(e("dir/.bashrc"), None);
    assert_eq!(e("dir/.x.ts"), Some("ts".to_string()));
    assert_eq!(e("a."), Some(String::new()));
    assert_eq!(e("noext"), None);
    assert_eq!(e("a/.."), None);
    assert_eq!(e("src/main.rs/"), Some("rs".to_string()));
}
