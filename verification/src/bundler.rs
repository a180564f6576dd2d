use std::collections::VecDeque;

use oxc_allocator::Allocator;
use oxc_ast::ast::Statement;
use oxc_parser::{ParseOptions, Parser};
use oxc_span::SourceType;
use vstd::prelude::*;

use crate::fs::trim_start_char;
use crate::json::{json_check, json_parse_error, json_quoted, json_string};
use crate::typescript::{extension_of, is_ts_ext, is_ts_ext_name, path_extension, strip_types_fast_default, strip_result};
use crate::unicode::{chars_of, str_eq, string_of};

verus! {

/// The kind of a top-level statement of a module, as far as imports go:
/// `import ... from`, `export { ... } from`, `export * from`, or any other.
#[derive(Debug, Clone, Copy, PartialEq, Eq, Structural)]
pub enum TopLevel {
    Import,
    ExportFrom,
    ExportAll,
    Other,
}

/// What `oxc` parses of a module (with `return` allowed outside
/// functions): `None` where parsing reports errors, else each top-level
/// statement's kind with the module source it names (empty for any other
/// statement), in order.
pub uninterp spec fn parsed_module(source: Seq<char>) -> Option<Seq<(TopLevel, Seq<char>)>>;

/// The statements viewed as text.
pub open spec fn statements_view(v: Seq<(TopLevel, String)>) -> Seq<(TopLevel, Seq<char>)> {
    v.map_values(|p: (TopLevel, String)| (p.0, p.1@))
}

/// Parses the source as a module with `oxc` and lists its top-level
/// statements, each with its kind and the module source it names; `None`
/// where parsing reported errors.
#[verifier::external_body]
fn oxc_statements(source: &str) -> (r: Option<Vec<(TopLevel, String)>>)
    ensures
        match r {
            None => parsed_module(source@) is None,
            Some(v) => parsed_module(source@) == Some(statements_view(v@)),
        },
{
    let allocator = Allocator::default();
    let opts = ParseOptions { allow_return_outside_function: true, ..ParseOptions::default() };
    let parsed = Parser::new(&allocator, source, SourceType::mjs()).with_options(opts).parse();
    if parsed.diagnostics.has_errors() {
        return None;
    }
    Some(parsed.program.body.iter().map(|item| match item {
        Statement::ImportDeclaration(d) => (TopLevel::Import, d.source.value.to_string()),
        Statement::ExportFromDeclaration(d) => (TopLevel::ExportFrom, d.source.value.to_string()),
        Statement::ExportAllDeclaration(d) => (TopLevel::ExportAll, d.source.value.to_string()),
        _ => (TopLevel::Other, String::new()),
    }).collect())
}

/// The sources named by the import and re-export statements, in order.
pub open spec fn import_sources(stmts: Seq<(TopLevel, Seq<char>)>) -> Seq<Seq<char>>
    decreases stmts.len(),
{
    if stmts.len() == 0 {
        Seq::empty()
    } else {
        let rest = import_sources(stmts.drop_last());
        if stmts.last().0 == TopLevel::Other {
            rest
        } else {
            rest.push(stmts.last().1)
        }
    }
}

/// The module sources that a script imports or re-exports from, in order
/// (`import ... from`, `export ... from`, `export * from`); none where the
/// script does not parse.
pub open spec fn imports_of(source: Seq<char>) -> Seq<Seq<char>> {
    match parsed_module(source) {
        Some(stmts) => import_sources(stmts),
        None => Seq::empty(),
    }
}

/// The sources that a script imports from.
pub fn extract_imports(source: &str) -> (r: Vec<String>)
    ensures
        r@.len() == imports_of(source@).len(),
        forall|i: int| 0 <= i < r@.len() ==> (#[trigger] r@[i])@ == imports_of(source@)[i],
{
    let mut out: Vec<String> = Vec::new();
    match oxc_statements(source) {
        None => out,
        Some(stmts) => {
            let ghost sv = statements_view(stmts@);
            for k in 0..stmts.len()
                invariant
                    sv == statements_view(stmts@),
                    texts(out@) == import_sources(sv.take(k as int)),
            {
                proof {
                    assert(sv.take(k + 1).drop_last() =~= sv.take(k as int));
                }
                let kind = stmts[k].0;
                if kind != TopLevel::Other {
                    out.push(stmts[k].1.clone());
                    proof {
                        assert(texts(out@) =~= texts(out@.drop_last()).push(sv[k as int].1));
                    }
                }
            }
            proof {
                assert(sv.take(stmts@.len() as int) =~= sv);
                assert forall|i: int| 0 <= i < out@.len() implies (#[trigger] out@[i])@ == imports_of(source@)[i] by {
                    assert(texts(out@)[i] == out@[i]@);
                }
            }
            out
        },
    }
}

/// Whether a module name is one of the native modules.
pub fn is_native_module(name: &str, native_names: &Vec<String>) -> (b: bool)
    ensures
        b == exists|i: int| 0 <= i < native_names@.len() && (#[trigger] native_names@[i])@ == name@,
{
    for i in 0..native_names.len()
        invariant
            forall|j: int| 0 <= j < i ==> (#[trigger] native_names@[j])@ != name@,
    {
        if str_eq(native_names[i].as_str(), name) {
            return true;
        }
    }
    false
}

/// Every `\` turned into `/`.
pub open spec fn forward_slashes(s: Seq<char>) -> Seq<char> {
    s.map_values(|c: char| if c == '\\' { '/' } else { c })
}

/// Turns every `\` into `/`.
pub fn normalize_slashes(s: &str) -> (r: String)
    ensures
        r@ == forward_slashes(s@),
{
    let cs = chars_of(s);
    let mut v: Vec<char> = Vec::new();
    for i in 0..cs.len()
        invariant
            cs@ == s@,
            v@ == forward_slashes(cs@).take(i as int),
    {
        proof {
            assert(forward_slashes(cs@).take(i + 1) =~= forward_slashes(cs@).take(i as int).push(
                forward_slashes(cs@)[i as int],
            ));
        }
        if cs[i] == '\\' {
            v.push('/');
        } else {
            v.push(cs[i]);
        }
    }
    proof {
        assert(forward_slashes(cs@).take(cs@.len() as int) =~= forward_slashes(cs@));
    }
    string_of(&v, 0, v.len())
}

/// `s` starts with `p`.
pub open spec fn has_prefix(s: Seq<char>, p: Seq<char>) -> bool {
    p.len() <= s.len() && s.take(p.len() as int) == p
}

/// The name of a module in the bundle: its path with the entry's directory
/// taken off the front (where it starts with it), then its leading `/`s,
/// then its leading `\`s.
pub open spec fn virtual_name_spec(abs_path: Seq<char>, entry_dir: Seq<char>) -> Seq<char> {
    let rest = if has_prefix(abs_path, entry_dir) {
        abs_path.skip(entry_dir.len() as int)
    } else {
        abs_path
    };
    trim_start_char(trim_start_char(rest, '/'), '\\')
}

fn skip_char(cs: &Vec<char>, from: usize, c: char) -> (k: usize)
    requires
        from <= cs@.len(),
    ensures
        from <= k <= cs@.len(),
        trim_start_char(cs@.skip(from as int), c) == cs@.skip(k as int),
{
    let mut k = from;
    while k < cs.len() && cs[k] == c
        invariant
            from <= k <= cs@.len(),
            trim_start_char(cs@.skip(from as int), c) == trim_start_char(cs@.skip(k as int), c),
        decreases cs@.len() - k,
    {
        proof {
            assert(cs@.skip(k as int).drop_first() =~= cs@.skip(k + 1));
        }
        k = k + 1;
    }
    k
}

/// The name of the module at `abs_path` in the bundle.
pub fn virtual_name(abs_path: &str, entry_dir: &str) -> (r: String)
    ensures
        r@ == virtual_name_spec(abs_path@, entry_dir@),
{
    let cs = chars_of(abs_path);
    let ds = chars_of(entry_dir);
    let mut prefix = ds.len() <= cs.len();
    let mut i: usize = 0;
    while prefix && i < ds.len()
        invariant
            i <= ds@.len(),
            prefix ==> ds@.len() <= cs@.len(),
            prefix ==> forall|j: int| 0 <= j < i ==> cs@[j] == ds@[j],
            !prefix ==> !has_prefix(cs@, ds@),
        decreases (if prefix { ds@.len() - i + 1 } else { 0 }),
    {
        if cs[i] != ds[i] {
            prefix = false;
            proof {
                if has_prefix(cs@, ds@) {
                    assert(cs@.take(ds@.len() as int)[i as int] == cs@[i as int]);
                }
            }
        } else {
            i = i + 1;
        }
    }
    let start = if prefix {
        proof {
            assert(cs@.take(ds@.len() as int) =~= ds@);
        }
        ds.len()
    } else {
        0
    };
    proof {
        assert(cs@.skip(0) =~= cs@);
    }
    let k1 = skip_char(&cs, start, '/');
    let k2 = skip_char(&cs, k1, '\\');
    proof {
        assert(cs@.subrange(k2 as int, cs@.len() as int) =~= cs@.skip(k2 as int));
    }
    string_of(&cs, k2, cs.len())
}

/// The code that a file with path `abs_path` and content `source` becomes
/// in the bundle: JSON (checked) and text as a default export, TypeScript
/// with its types stripped, anything else as it is.
pub open spec fn module_code_spec(abs_path: Seq<char>, source: Seq<char>) -> Result<Seq<char>, Seq<char>> {
    let ext = path_extension(abs_path);
    if ext == Some("json"@) {
        match json_parse_error(source) {
            None => Ok("export default "@ + source + ";"@),
            Some(e) => Err("invalid JSON "@ + abs_path + ": "@ + e),
        }
    } else if ext == Some("txt"@) || ext == Some("text"@) {
        Ok("export default "@ + json_quoted(source) + ";"@)
    } else if ext matches Some(e) && is_ts_ext_name(e) {
        strip_result(source, None)
    } else {
        Ok(source)
    }
}

/// The code of one file of the bundle.
pub fn module_code(abs_path: &str, source: String) -> (r: Result<String, String>)
    ensures
        match r {
            Ok(c) => module_code_spec(abs_path@, source@) == Ok::<Seq<char>, Seq<char>>(c@),
            Err(e) => module_code_spec(abs_path@, source@) == Err::<Seq<char>, Seq<char>>(e@),
        },
{
    let ext = extension_of(abs_path);
    let is_json = match &ext {
        Some(e) => str_eq(e.as_str(), "json"),
        None => false,
    };
    let is_text = match &ext {
        Some(e) => str_eq(e.as_str(), "txt") || str_eq(e.as_str(), "text"),
        None => false,
    };
    if is_json {
        match json_check(source.as_str()) {
            Ok(_) => {
                let mut code = String::from_str("export default ");
                code.append(source.as_str());
                code.append(";");
                Ok(code)
            },
            Err(e) => {
                let mut m = String::from_str("invalid JSON ");
                m.append(abs_path);
                m.append(": ");
                m.append(e.as_str());
                Err(m)
            },
        }
    } else if is_text {
        let quoted = json_string(source.as_str());
        let mut code = String::from_str("export default ");
        code.append(quoted.as_str());
        code.append(";");
        Ok(code)
    } else if is_ts_ext(abs_path) {
        strip_types_fast_default(source.as_str())
    } else {
        Ok(source)
    }
}

/// A bundle: the entry's name, and for each module its name with its code
/// and with the path it came from.
#[derive(Debug, Clone, PartialEq, Eq)]
pub struct Bundle {
    pub entry: String,
    pub modules: Vec<(String, String)>,
    pub source_paths: Vec<(String, String)>,
}

/// The keys of a list of pairs.
pub open spec fn keys_of(m: Seq<(Seq<char>, Seq<char>)>) -> Seq<Seq<char>> {
    m.map_values(|p: (Seq<char>, Seq<char>)| p.0)
}

/// The pairs viewed as text.
pub open spec fn pairs_view(m: Seq<(String, String)>) -> Seq<(Seq<char>, Seq<char>)> {
    m.map_values(|p: (String, String)| (p.0@, p.1@))
}

/// `m` with `k` mapped to `v`: the pair with key `k` replaced where there
/// is one, else the pair added at the end.
pub open spec fn put(m: Seq<(Seq<char>, Seq<char>)>, k: Seq<char>, v: Seq<char>) -> Seq<(Seq<char>, Seq<char>)> {
    if exists|i: int| 0 <= i < m.len() && (#[trigger] m[i]).0 == k {
        let i = choose|i: int| 0 <= i < m.len() && (#[trigger] m[i]).0 == k;
        m.update(i, (k, v))
    } else {
        m.push((k, v))
    }
}

/// No key occurs twice.
pub open spec fn distinct_keys(m: Seq<(Seq<char>, Seq<char>)>) -> bool {
    forall|i: int, j: int| 0 <= i < j < m.len() ==> (#[trigger] m[i]).0 != (#[trigger] m[j]).0
}

fn put_pair(m: &mut Vec<(String, String)>, k: String, v: String)
    requires
        distinct_keys(pairs_view(old(m)@)),
    ensures
        pairs_view(final(m)@) == put(pairs_view(old(m)@), k@, v@),
        distinct_keys(pairs_view(final(m)@)),
{
    let ghost mv = pairs_view(m@);
    let mut i: usize = 0;
    while i < m.len()
        invariant
            i <= m@.len(),
            mv == pairs_view(m@),
            mv == pairs_view(old(m)@),
            distinct_keys(mv),
            forall|j: int| 0 <= j < i ==> (#[trigger] mv[j]).0 != k@,
        decreases m@.len() - i,
    {
        if str_eq(m[i].0.as_str(), k.as_str()) {
            proof {
                assert(mv[i as int].0 == k@);
                assert(exists|c: int| 0 <= c < mv.len() && (#[trigger] mv[c]).0 == k@);
                let c = choose|c: int| 0 <= c < mv.len() && (#[trigger] mv[c]).0 == k@;
                assert(c == i) by {
                    if c != i {
                        if c < i {
                            assert(mv[c].0 != k@);
                        } else {
                            assert(mv[i as int].0 != mv[c].0);
                        }
                    }
                }
                assert(put(mv, k@, v@) == mv.update(i as int, (k@, v@)));
            }
            m.set(i, (k, v));
            proof {
                assert(pairs_view(m@) =~= mv.update(i as int, (k@, v@)));
                let nv = pairs_view(m@);
                assert forall|a: int, b: int| 0 <= a < b < nv.len() implies (#[trigger] nv[a]).0 != (#[trigger] nv[b]).0 by {
                    assert(mv[a].0 != mv[b].0);
                }
            }
            return;
        }
        i = i + 1;
    }
    m.push((k, v));
    proof {
        assert(pairs_view(m@) =~= mv.push((k@, v@)));
        let nv = pairs_view(m@);
        assert forall|a: int, b: int| 0 <= a < b < nv.len() implies (#[trigger] nv[a]).0 != (#[trigger] nv[b]).0 by {
            if b < mv.len() {
                assert(mv[a].0 != mv[b].0);
            } else {
                assert(mv[a].0 != k@);
            }
        }
    }
}

/// Where the key of `k` stands in pairs with distinct keys: the pair with
/// key `k` is replaced, or the new pair comes last; every other pair stays.
proof fn lemma_put_entries(m: Seq<(Seq<char>, Seq<char>)>, k: Seq<char>, v: Seq<char>)
    requires
        distinct_keys(m),
    ensures
        ({
            let r = put(m, k, v);
            &&& r.len() == m.len() || r.len() == m.len() + 1
            &&& r.len() == m.len() + 1 ==> r[m.len() as int] == (k, v)
            &&& exists|i: int| 0 <= i < r.len() && r[i] == (k, v)
            &&& forall|j: int|
                0 <= j < r.len() ==> (#[trigger] r[j] == (k, v) || (j < m.len() && r[j] == m[j] && m[j].0 != k))
        }),
{
    if exists|i: int| 0 <= i < m.len() && (#[trigger] m[i]).0 == k {
        let i = choose|i: int| 0 <= i < m.len() && (#[trigger] m[i]).0 == k;
        let r = put(m, k, v);
        assert(r == m.update(i, (k, v)));
        assert(r[i] == (k, v));
        assert forall|j: int| 0 <= j < r.len() implies (#[trigger] r[j] == (k, v) || (j < m.len() && r[j] == m[j]
            && m[j].0 != k)) by {
            if j != i {
                assert(m[j].0 != m[i].0);
            }
        }
    } else {
        let r = put(m, k, v);
        assert(r == m.push((k, v)));
        assert(r[m.len() as int] == (k, v));
        assert forall|j: int| 0 <= j < r.len() implies (#[trigger] r[j] == (k, v) || (j < m.len() && r[j] == m[j]
            && m[j].0 != k)) by {
            if j < m.len() {
                assert(r[j] == m[j]);
                assert(!(0 <= j < m.len() && m[j].0 == k));
            }
        }
    }
}

/// Putting the same key into two lists with the same keys gives lists with
/// the same keys.
proof fn lemma_put_keys(
    m1: Seq<(Seq<char>, Seq<char>)>,
    m2: Seq<(Seq<char>, Seq<char>)>,
    k: Seq<char>,
    v1: Seq<char>,
    v2: Seq<char>,
)
    requires
        distinct_keys(m1),
        keys_of(m1) == keys_of(m2),
    ensures
        keys_of(put(m1, k, v1)) == keys_of(put(m2, k, v2)),
{
    assert(m1.len() == keys_of(m1).len());
    assert(m2.len() == keys_of(m2).len());
    assert forall|i: int| 0 <= i < m1.len() implies #[trigger] m1[i].0 == m2[i].0 by {
        assert(keys_of(m1)[i] == m1[i].0);
        assert(keys_of(m2)[i] == m2[i].0);
    }
    if exists|i: int| 0 <= i < m1.len() && (#[trigger] m1[i]).0 == k {
        let i1 = choose|i: int| 0 <= i < m1.len() && (#[trigger] m1[i]).0 == k;
        assert(m2[i1].0 == k);
        let i2 = choose|i: int| 0 <= i < m2.len() && (#[trigger] m2[i]).0 == k;
        assert(m1[i2].0 == k);
        assert(i1 == i2) by {
            if i1 != i2 {
                if i1 < i2 {
                    assert(m1[i1].0 != m1[i2].0);
                } else {
                    assert(m1[i2].0 != m1[i1].0);
                }
            }
        }
        assert(keys_of(put(m1, k, v1)) =~= keys_of(put(m2, k, v2)));
    } else {
        assert(!exists|i: int| 0 <= i < m2.len() && (#[trigger] m2[i]).0 == k) by {
            if exists|i: int| 0 <= i < m2.len() && (#[trigger] m2[i]).0 == k {
                let i = choose|i: int| 0 <= i < m2.len() && (#[trigger] m2[i]).0 == k;
                assert(m1[i].0 == k);
            }
        }
        assert(keys_of(put(m1, k, v1)) =~= keys_of(put(m2, k, v2)));
    }
}

/// How a module is named: the entry (`path` equal to `entry`) as `main`,
/// any other file by its path (with `/` for `\`) relative to the entry's
/// directory `dir`.
pub open spec fn well_named(path: Seq<char>, name: Seq<char>, entry: Seq<char>, dir: Seq<char>) -> bool {
    (path == entry && name == "main"@) || name == virtual_name_spec(forward_slashes(path), dir)
}

/// Every origin (module name, path) was read, is named for its path, and
/// no path is that of two modules.
pub open spec fn origins_ok(
    o: Seq<(Seq<char>, Seq<char>)>,
    read: Seq<Seq<char>>,
    entry: Seq<char>,
    dir: Seq<char>,
) -> bool {
    &&& forall|i: int|
        0 <= i < o.len() ==> read.contains(forward_slashes(#[trigger] o[i].1)) && well_named(o[i].1, o[i].0, entry, dir)
    &&& forall|i: int, j: int|
        0 <= i < j < o.len() ==> forward_slashes(#[trigger] o[i].1) != forward_slashes(#[trigger] o[j].1)
}

/// Every waiting file (path, module name) is named for its path.
pub open spec fn waiting_named(w: Seq<(Seq<char>, Seq<char>)>, entry: Seq<char>, dir: Seq<char>) -> bool {
    forall|k: int| 0 <= k < w.len() ==> well_named(#[trigger] w[k].0, w[k].1, entry, dir)
}

/// The file being bundled, if any, was read, is named for its path, and is
/// the origin of no module yet.
pub open spec fn current_ok(
    c: Option<(Seq<char>, Seq<char>)>,
    o: Seq<(Seq<char>, Seq<char>)>,
    read: Seq<Seq<char>>,
    entry: Seq<char>,
    dir: Seq<char>,
) -> bool {
    c matches Some((p, n)) ==> {
        &&& read.contains(forward_slashes(p))
        &&& well_named(p, n, entry, dir)
        &&& forall|i: int| 0 <= i < o.len() ==> forward_slashes(#[trigger] o[i].1) != forward_slashes(p)
    }
}

/// The state of bundling: the entry's path and directory (with `/` for
/// `\`), the files still to read (path and module name), the paths read, the
/// file being bundled (path and module name), and the modules done.
pub struct Bundler {
    entry_dir: String,
    entry_path: String,
    queue: VecDeque<(String, String)>,
    visited: Vec<String>,
    current: Option<(String, String)>,
    modules: Vec<(String, String)>,
    source_paths: Vec<(String, String)>,
}

/// The text of each string.
pub open spec fn texts(v: Seq<String>) -> Seq<Seq<char>> {
    v.map_values(|s: String| s@)
}

impl Bundler {
    /// The directory that module names are counted from.
    pub closed spec fn dir(&self) -> Seq<char> {
        self.entry_dir@
    }

    /// The entry's path (with `/` for `\`).
    pub closed spec fn entry(&self) -> Seq<char> {
        self.entry_path@
    }

    /// The files waiting to be read, with their module names.
    pub closed spec fn waiting(&self) -> Seq<(Seq<char>, Seq<char>)> {
        pairs_view(self.queue@)
    }

    /// The paths read so far (with `/` for `\`).
    pub closed spec fn read(&self) -> Seq<Seq<char>> {
        texts(self.visited@)
    }

    /// The file being bundled, with its module name: the one `next_file`
    /// handed out last, until its module is added.
    pub closed spec fn current(&self) -> Option<(Seq<char>, Seq<char>)> {
        match self.current {
            Some((p, n)) => Some((p@, n@)),
            None => None,
        }
    }

    /// The modules done: name and code.
    pub closed spec fn done(&self) -> Seq<(Seq<char>, Seq<char>)> {
        pairs_view(self.modules@)
    }

    /// The modules done: name and the path it came from.
    pub closed spec fn origins(&self) -> Seq<(Seq<char>, Seq<char>)> {
        pairs_view(self.source_paths@)
    }

    /// No path is read twice; the modules done and their origins have the
    /// same names, each once; every origin was read, no path is the origin
    /// of two modules, and each module is named for its path; the files
    /// waiting and the file being bundled are named for their paths, and the
    /// file being bundled was read and is no origin yet.
    pub closed spec fn wf(&self) -> bool {
        &&& forall|i: int, j: int| 0 <= i < j < self.read().len() ==> self.read()[i] != self.read()[j]
        &&& distinct_keys(self.done())
        &&& distinct_keys(self.origins())
        &&& keys_of(self.done()) == keys_of(self.origins())
        &&& origins_ok(self.origins(), self.read(), self.entry(), self.dir())
        &&& waiting_named(self.waiting(), self.entry(), self.dir())
        &&& current_ok(self.current(), self.origins(), self.read(), self.entry(), self.dir())
    }

    /// Bundling from the entry at `entry_abs` (a canonical path) whose
    /// directory is `entry_parent`: the entry waits, as module `main`.
    pub fn new(entry_abs: &str, entry_parent: &str) -> (b: Self)
        ensures
            b.dir() == forward_slashes(entry_parent@),
            b.entry() == forward_slashes(entry_abs@),
            b.waiting() == seq![(forward_slashes(entry_abs@), "main"@)],
            b.read().len() == 0,
            b.current() is None,
            b.done().len() == 0,
            b.origins().len() == 0,
            b.wf(),
    {
        let mut queue = VecDeque::new();
        let main = String::from_str("main");
        proof {
            reveal_strlit("main");
        }
        queue.push_back((normalize_slashes(entry_abs), main));
        let b = Bundler {
            entry_dir: normalize_slashes(entry_parent),
            entry_path: normalize_slashes(entry_abs),
            queue,
            visited: Vec::new(),
            current: None,
            modules: Vec::new(),
            source_paths: Vec::new(),
        };
        proof {
            assert(b.waiting() =~= seq![(forward_slashes(entry_abs@), "main"@)]);
            assert(b.waiting()[0] == (b.entry(), "main"@));
            assert(keys_of(b.done()) =~= keys_of(b.origins()));
        }
        b
    }

    fn was_read(&self, path: &str) -> (b: bool)
        ensures
            b == self.read().contains(path@),
    {
        for i in 0..self.visited.len()
            invariant
                forall|j: int| 0 <= j < i ==> self.visited@[j]@ != path@,
        {
            if str_eq(self.visited[i].as_str(), path) {
                proof {
                    assert(self.read()[i as int] == path@);
                }
                return true;
            }
        }
        proof {
            if self.read().contains(path@) {
                let j = choose|j: int| 0 <= j < self.read().len() && self.read()[j] == path@;
                assert(self.visited@[j]@ == path@);
            }
        }
        false
    }

    /// The next file to read: the first waiting one whose path (with `/` for
    /// `\`) was not read yet, which now counts as read and is the file being
    /// bundled; the ones before it are dropped. `None` (and no file being
    /// bundled) once every waiting file was read; so the entry, waiting
    /// alone at the start, comes first, as `main`.
    pub fn next_file(&mut self) -> (r: Option<(String, String)>)
        requires
            old(self).wf(),
        ensures
            final(self).wf(),
            final(self).dir() == old(self).dir(),
            final(self).entry() == old(self).entry(),
            final(self).done() == old(self).done(),
            final(self).origins() == old(self).origins(),
            final(self).current() == match r {
                Some((p, n)) => Some((p@, n@)),
                None => None,
            },
            r is None <==> forall|k: int|
                0 <= k < old(self).waiting().len() ==> old(self).read().contains(
                    forward_slashes(#[trigger] old(self).waiting()[k].0),
                ),
            match r {
                None => final(self).waiting().len() == 0 && final(self).read() == old(self).read(),
                Some((p, n)) => {
                    &&& !old(self).read().contains(forward_slashes(p@))
                    &&& final(self).read() == old(self).read().push(forward_slashes(p@))
                    &&& exists|k: int|
                        0 <= k < old(self).waiting().len() && old(self).waiting()[k] == (p@, n@)
                            && final(self).waiting() == old(self).waiting().skip(k + 1) && forall|j: int|
                            0 <= j < k ==> old(self).read().contains(
                                forward_slashes(#[trigger] old(self).waiting()[j].0),
                            )
                },
            },
    {
        self.current = None;
        let ghost w0 = self.waiting();
        let ghost k: int = 0;
        loop
            invariant
                self.wf(),
                self.current() is None,
                self.read() == old(self).read(),
                self.dir() == old(self).dir(),
                self.entry() == old(self).entry(),
                self.done() == old(self).done(),
                self.origins() == old(self).origins(),
                w0 == old(self).waiting(),
                0 <= k <= w0.len(),
                self.waiting() == w0.skip(k),
                forall|j: int| 0 <= j < k ==> old(self).read().contains(forward_slashes(#[trigger] w0[j].0)),
            decreases self.queue@.len(),
        {
            let ghost q_before = self.queue@;
            let item = self.queue.pop_front();
            match item {
                None => {
                    proof {
                        assert(w0.skip(k).len() == 0);
                    }
                    return None;
                },
                Some((abs_path, vname)) => {
                    proof {
                        assert(pairs_view(q_before)[0] == (abs_path@, vname@));
                        assert(w0.skip(k).len() == w0.len() - k);
                        assert(w0.skip(k)[0] == w0[k]);
                        assert(w0[k] == (abs_path@, vname@));
                        assert(w0.skip(k + 1) =~= w0.skip(k).drop_first());
                        assert(waiting_named(w0.skip(k), self.entry(), self.dir()));
                        assert(well_named(w0.skip(k)[0].0, w0.skip(k)[0].1, self.entry(), self.dir()));
                        let w1 = self.waiting();
                        assert forall|m: int| 0 <= m < w1.len() implies well_named(
                            #[trigger] w1[m].0,
                            w1[m].1,
                            self.entry(),
                            self.dir(),
                        ) by {
                            assert(w1[m] == w0.skip(k)[m + 1]);
                        }
                        assert(waiting_named(w1, self.entry(), self.dir()));
                        k = k + 1;
                    }
                    let normalized = normalize_slashes(abs_path.as_str());
                    if !self.was_read(normalized.as_str()) {
                        let ghost before = self.read();
                        self.visited.push(normalized);
                        let cur_path = abs_path.clone();
                        let cur_name = vname.clone();
                        self.current = Some((cur_path, cur_name));
                        proof {
                            assert(self.read() =~= before.push(forward_slashes(abs_path@)));
                            assert(w0[k - 1].0 == abs_path@);
                            assert(!old(self).read().contains(forward_slashes(w0[k - 1].0)));
                            assert(self.read()[before.len() as int] == forward_slashes(abs_path@));
                            let o = self.origins();
                            assert(origins_ok(o, before, self.entry(), self.dir()));
                            assert forall|i: int| 0 <= i < o.len() implies self.read().contains(
                                forward_slashes(#[trigger] o[i].1),
                            ) && well_named(o[i].1, o[i].0, self.entry(), self.dir()) by {
                                let x = forward_slashes(o[i].1);
                                assert(before.contains(x));
                                let j = choose|j: int| 0 <= j < before.len() && before[j] == x;
                                assert(self.read()[j] == x);
                            }
                            assert forall|i: int| 0 <= i < o.len() implies forward_slashes(
                                #[trigger] o[i].1,
                            ) != forward_slashes(abs_path@) by {
                                assert(before.contains(forward_slashes(o[i].1)));
                            }
                            assert(origins_ok(o, self.read(), self.entry(), self.dir()));
                            assert(current_ok(self.current(), o, self.read(), self.entry(), self.dir()));
                            assert forall|a: int, b: int| 0 <= a < b < self.read().len() implies self.read()[a]
                                != self.read()[b] by {
                                if b == before.len() {
                                    assert(before[a] == self.read()[a]);
                                } else {
                                    assert(before[a] != before[b]);
                                }
                            }
                        }
                        return Some((abs_path, vname));
                    }
                    proof {
                        assert(old(self).read().contains(forward_slashes(w0[k - 1].0)));
                    }
                },
            }
        }
    }

    /// A dependency of the file being bundled resolved to `resolved`: unless
    /// its path (with `/` for `\`) was read already, it waits, named
    /// relative to the entry's directory.
    pub fn add_dependency(&mut self, resolved: String)
        requires
            old(self).wf(),
        ensures
            final(self).wf(),
            final(self).dir() == old(self).dir(),
            final(self).entry() == old(self).entry(),
            final(self).read() == old(self).read(),
            final(self).current() == old(self).current(),
            final(self).done() == old(self).done(),
            final(self).origins() == old(self).origins(),
            final(self).waiting() == if old(self).read().contains(forward_slashes(resolved@)) {
                old(self).waiting()
            } else {
                old(self).waiting().push(
                    (resolved@, virtual_name_spec(forward_slashes(resolved@), old(self).dir())),
                )
            },
    {
        let normalized = normalize_slashes(resolved.as_str());
        if !self.was_read(normalized.as_str()) {
            let vname = virtual_name(normalized.as_str(), self.entry_dir.as_str());
            let ghost w = self.waiting();
            self.queue.push_back((resolved, vname));
            proof {
                let w1 = w.push((resolved@, vname@));
                assert(self.waiting() =~= w1);
                assert forall|m: int| 0 <= m < w1.len() implies well_named(
                    #[trigger] w1[m].0,
                    w1[m].1,
                    self.entry(),
                    self.dir(),
                ) by {
                    if m < w.len() {
                        assert(w1[m] == w[m]);
                    }
                }
                assert(waiting_named(w1, self.entry(), self.dir()));
            }
        }
    }

    /// What to do with an import of the file being bundled, once the
    /// resolver answered: a file it resolved to is added as a dependency;
    /// where it failed, bundling fails with
    /// `cannot resolve '<specifier>' from '<path>': <error>`.
    pub fn resolved_import(&mut self, specifier: &str, resolved: Result<String, String>) -> (r: Result<(), String>)
        requires
            old(self).wf(),
            old(self).current() is Some,
        ensures
            final(self).wf(),
            final(self).dir() == old(self).dir(),
            final(self).entry() == old(self).entry(),
            final(self).read() == old(self).read(),
            final(self).current() == old(self).current(),
            final(self).done() == old(self).done(),
            final(self).origins() == old(self).origins(),
            match resolved {
                Ok(p) => r is Ok && final(self).waiting() == if old(self).read().contains(forward_slashes(p@)) {
                    old(self).waiting()
                } else {
                    old(self).waiting().push((p@, virtual_name_spec(forward_slashes(p@), old(self).dir())))
                },
                Err(e) => final(self).waiting() == old(self).waiting() && (r matches Err(m) && m@
                    == "cannot resolve '"@ + specifier@ + "' from '"@ + (old(self).current()->0).0 + "': "@ + e@),
            },
    {
        match resolved {
            Ok(p) => {
                self.add_dependency(p);
                Ok(())
            },
            Err(e) => {
                let m = match &self.current {
                    Some((path, _)) => resolve_error(specifier, path.as_str(), e.as_str()),
                    None => String::new(),
                };
                Err(m)
            },
        }
    }

    /// The file being bundled turned into `code`: its module, under its
    /// name, gets that code and its path; no file is being bundled after.
    pub fn add_module(&mut self, code: String)
        requires
            old(self).wf(),
            old(self).current() is Some,
        ensures
            final(self).wf(),
            final(self).dir() == old(self).dir(),
            final(self).entry() == old(self).entry(),
            final(self).read() == old(self).read(),
            final(self).waiting() == old(self).waiting(),
            final(self).current() is None,
            final(self).done() == put(old(self).done(), (old(self).current()->0).1, code@),
            final(self).origins() == put(old(self).origins(), (old(self).current()->0).1, (old(self).current()->0).0),
    {
        let cur = self.current.take();
        match cur {
            Some((abs_path, vname)) => {
                let ghost p = abs_path@;
                let ghost n = vname@;
                let ghost d0 = self.done();
                let ghost o0 = self.origins();
                let name2 = String::from_str(vname.as_str());
                put_pair(&mut self.modules, vname, code);
                put_pair(&mut self.source_paths, name2, abs_path);
                proof {
                    lemma_put_keys(d0, o0, n, code@, p);
                    lemma_put_entries(o0, n, p);
                    let o1 = self.origins();
                    assert(origins_ok(o0, self.read(), self.entry(), self.dir()));
                    assert(current_ok(Some((p, n)), o0, self.read(), self.entry(), self.dir()));
                    assert forall|i: int| 0 <= i < o1.len() implies self.read().contains(
                        forward_slashes(#[trigger] o1[i].1),
                    ) && well_named(o1[i].1, o1[i].0, self.entry(), self.dir()) by {
                        if o1[i] != (n, p) {
                            assert(o1[i] == o0[i]);
                        }
                    }
                    assert forall|i: int, j: int| 0 <= i < j < o1.len() implies forward_slashes(
                        #[trigger] o1[i].1,
                    ) != forward_slashes(#[trigger] o1[j].1) by {
                        if o1[i] == (n, p) && o1[j] == (n, p) {
                            assert(o1[i].0 != o1[j].0);
                        } else if o1[i] == (n, p) {
                            assert(o1[j] == o0[j]);
                        } else if o1[j] == (n, p) {
                            assert(o1[i] == o0[i]);
                        } else {
                            assert(o1[i] == o0[i] && o1[j] == o0[j]);
                        }
                    }
                    assert(origins_ok(o1, self.read(), self.entry(), self.dir()));
                }
            },
            None => {},
        }
    }

    /// The bundle, with `main` as its entry: the modules done with their
    /// code and with their paths, under the same names, each once; no path
    /// is that of two modules, and each module is named for its path (the
    /// entry as `main`).
    pub fn finish(self) -> (b: Bundle)
        requires
            self.wf(),
        ensures
            b.entry@ == "main"@,
            pairs_view(b.modules@) == self.done(),
            pairs_view(b.source_paths@) == self.origins(),
            keys_of(pairs_view(b.modules@)) == keys_of(pairs_view(b.source_paths@)),
            distinct_keys(pairs_view(b.modules@)),
            forall|i: int, j: int|
                0 <= i < j < b.source_paths@.len() ==> forward_slashes(#[trigger] b.source_paths@[i].1@)
                    != forward_slashes(#[trigger] b.source_paths@[j].1@),
            forall|i: int|
                0 <= i < b.source_paths@.len() ==> well_named(
                    (#[trigger] b.source_paths@[i]).1@,
                    b.source_paths@[i].0@,
                    self.entry(),
                    self.dir(),
                ),
    {
        let b = Bundle { entry: String::from_str("main"), modules: self.modules, source_paths: self.source_paths };
        proof {
            reveal_strlit("main");
            let o = pairs_view(b.source_paths@);
            assert forall|i: int, j: int| 0 <= i < j < b.source_paths@.len() implies forward_slashes(
                #[trigger] b.source_paths@[i].1@,
            ) != forward_slashes(#[trigger] b.source_paths@[j].1@) by {
                assert(o[i].1 == b.source_paths@[i].1@);
                assert(o[j].1 == b.source_paths@[j].1@);
            }
            assert forall|i: int| 0 <= i < b.source_paths@.len() implies well_named(
                (#[trigger] b.source_paths@[i]).1@,
                b.source_paths@[i].0@,
                self.entry(),
                self.dir(),
            ) by {
                assert(o[i] == (b.source_paths@[i].0@, b.source_paths@[i].1@));
                assert(well_named(o[i].1, o[i].0, self.entry(), self.dir()));
            }
        }
        b
    }
}

/// `cannot read <path>: <error>`.
pub fn read_error(abs_path: &str, error: &str) -> (m: String)
    ensures
        m@ == "cannot read "@ + abs_path@ + ": "@ + error@,
{
    let mut m = String::from_str("cannot read ");
    m.append(abs_path);
    m.append(": ");
    m.append(error);
    m
}

/// `cannot resolve '<specifier>' from '<path>': <error>`.
pub fn resolve_error(specifier: &str, abs_path: &str, error: &str) -> (m: String)
    ensures
        m@ == "cannot resolve '"@ + specifier@ + "' from '"@ + abs_path@ + "': "@ + error@,
{
    let mut m = String::from_str("cannot resolve '");
    m.append(specifier);
    m.append("' from '");
    m.append(abs_path);
    m.append("': ");
    m.append(error);
    m
}

/// `cannot resolve entry <entry>: <error>`.
pub fn entry_error(entry: &str, error: &str) -> (m: String)
    ensures
        m@ == "cannot resolve entry "@ + entry@ + ": "@ + error@,
{
    let mut m = String::from_str("cannot resolve entry ");
    m.append(entry);
    m.append(": ");
    m.append(error);
    m
}

} // verus!
