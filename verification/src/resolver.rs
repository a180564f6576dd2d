use vstd::prelude::*;

use crate::fs::trim_start_char;
use crate::unicode::{chars_of, string_of};

verus! {

/// The index of the first `/` in `s`, or its length where there is none.
pub open spec fn find_slash(s: Seq<char>) -> int
    decreases s.len(),
{
    if s.len() == 0 {
        0
    } else if s[0] == '/' {
        0
    } else {
        1 + find_slash(s.drop_first())
    }
}

/// `./<sub>`, or `.` for an empty sub-path.
pub open spec fn subpath_of(sub: Seq<char>) -> Seq<char> {
    if sub.len() == 0 {
        seq!['.']
    } else {
        seq!['.', '/'] + sub
    }
}

/// A bare module name split into the package and the path inside it
/// (`.` for the package itself, else `./<sub>`). A scoped name
/// `@scope/pkg/sub` keeps `@scope/pkg` together; a scope alone is taken as
/// the whole package.
pub open spec fn bare_parts(name: Seq<char>) -> (Seq<char>, Seq<char>) {
    let k1 = find_slash(name);
    if name.len() > 0 && name[0] == '@' {
        if k1 >= name.len() {
            (name, seq!['.'])
        } else {
            let rest = name.skip(k1 + 1);
            let k2 = find_slash(rest);
            let pkg = rest.take(k2);
            if pkg.len() == 0 {
                (name, seq!['.'])
            } else {
                let sub = if k2 >= rest.len() {
                    Seq::empty()
                } else {
                    rest.skip(k2 + 1)
                };
                (name.take(k1) + seq!['/'] + pkg, subpath_of(sub))
            }
        }
    } else {
        if k1 >= name.len() {
            (name, seq!['.'])
        } else {
            (name.take(k1), subpath_of(name.skip(k1 + 1)))
        }
    }
}

proof fn lemma_find_slash(s: Seq<char>)
    ensures
        0 <= find_slash(s) <= s.len(),
        forall|j: int| 0 <= j < find_slash(s) ==> s[j] != '/',
        find_slash(s) < s.len() ==> s[find_slash(s)] == '/',
    decreases s.len(),
{
    if s.len() > 0 && s[0] != '/' {
        lemma_find_slash(s.drop_first());
        assert forall|j: int| 0 <= j < find_slash(s) implies s[j] != '/' by {
            if j > 0 {
                assert(s[j] == s.drop_first()[j - 1]);
            }
        }
    }
}

fn find_slash_from(cs: &Vec<char>, from: usize) -> (k: usize)
    requires
        from <= cs@.len(),
    ensures
        k as int == from + find_slash(cs@.skip(from as int)),
{
    let mut k = from;
    while k < cs.len() && cs[k] != '/'
        invariant
            from <= k <= cs@.len(),
            find_slash(cs@.skip(from as int)) == (k - from) + find_slash(cs@.skip(k as int)),
        decreases cs@.len() - k,
    {
        proof {
            assert(cs@.skip(k as int).drop_first() =~= cs@.skip(k + 1));
        }
        k = k + 1;
    }
    k
}

fn subpath_string(cs: &Vec<char>, from: usize) -> (r: String)
    requires
        from <= cs@.len(),
    ensures
        r@ == subpath_of(cs@.skip(from as int)),
{
    if from == cs.len() {
        let mut r = String::new();
        r.append(".");
        proof {
            reveal_strlit(".");
        }
        r
    } else {
        let mut r = String::new();
        r.append("./");
        let s = string_of(cs, from, cs.len());
        r.append(s.as_str());
        proof {
            reveal_strlit("./");
            assert(r@ =~= seq!['.', '/'] + cs@.skip(from as int));
        }
        r
    }
}

/// Resolves module names to files, trying these extensions.
pub struct Resolver {
    pub extensions: Vec<&'static str>,
}

impl Default for Resolver {
    fn default() -> (r: Self)
        ensures
            r.extensions@.len() == 5,
            r.extensions@[0]@ == ".ts"@,
            r.extensions@[1]@ == ".mts"@,
            r.extensions@[2]@ == ".js"@,
            r.extensions@[3]@ == ".mjs"@,
            r.extensions@[4]@ == ".json"@,
    {
        let mut extensions: Vec<&'static str> = Vec::new();
        extensions.push(".ts");
        extensions.push(".mts");
        extensions.push(".js");
        extensions.push(".mjs");
        extensions.push(".json");
        Resolver { extensions }
    }
}

/// What `PathBuf::with_extension` gives: the path with the extension of its
/// file name set to `ext`. Which part of the path is the file name is fixed
/// for one compile target and differs between them (`\` also separates on
/// Windows).
pub uninterp spec fn with_extension_spec(path: Seq<char>, ext: Seq<char>) -> Seq<char>;

/// What `Path::join` gives for a relative part: the separator it puts
/// between is that of the compile target (`/`, or `\` on Windows).
pub uninterp spec fn join_spec(path: Seq<char>, part: Seq<char>) -> Seq<char>;

/// No char of `s` is a path separator (`/` or `\\`).
pub open spec fn no_separator(s: Seq<char>) -> bool {
    forall|i: int| 0 <= i < s.len() ==> #[trigger] s[i] != '/' && s[i] != '\\'
}

/// Calls `Path::with_extension` (the path turned into text lossily). The
/// extension holds no path separator, which `with_extension` rejects with a
/// panic.
#[verifier::external_body]
fn path_with_extension(path: &str, ext: &str) -> (r: String)
    requires
        no_separator(ext@),
    ensures
        r@ == with_extension_spec(path@, ext@),
{
    std::path::Path::new(path).with_extension(ext).to_string_lossy().into_owned()
}

/// Calls `Path::join` (the path turned into text lossily).
#[verifier::external_body]
fn path_join(path: &str, part: &str) -> (r: String)
    ensures
        r@ == join_spec(path@, part@),
{
    std::path::Path::new(path).join(part).to_string_lossy().into_owned()
}

/// An extension without its leading dots (for one that starts with a dot).
pub open spec fn ext_name(ext: Seq<char>) -> Seq<char> {
    if ext.len() > 0 && ext[0] == '.' {
        trim_start_char(ext, '.')
    } else {
        ext
    }
}

fn ext_name_string(ext: &str) -> (r: String)
    ensures
        r@ == ext_name(ext@),
        no_separator(ext@) ==> no_separator(r@),
{
    let cs = chars_of(ext);
    let mut k: usize = 0;
    proof {
        assert(cs@.skip(0) =~= cs@);
    }
    while k < cs.len() && cs[k] == '.'
        invariant
            k <= cs@.len(),
            trim_start_char(cs@, '.') == trim_start_char(cs@.skip(k as int), '.'),
        decreases cs@.len() - k,
    {
        proof {
            assert(cs@.skip(k as int).drop_first() =~= cs@.skip(k + 1));
        }
        k = k + 1;
    }
    proof {
        assert(cs@.subrange(k as int, cs@.len() as int) =~= cs@.skip(k as int));
        assert(cs@.subrange(0, cs@.len() as int) =~= cs@);
    }
    let r = string_of(&cs, k, cs.len());
    proof {
        if no_separator(ext@) {
            assert forall|i: int| 0 <= i < r@.len() implies #[trigger] r@[i] != '/' && r@[i] != '\\' by {
                assert(r@[i] == cs@[k + i]);
            }
        }
    }
    r
}

impl Resolver {
    /// Splits a bare module name into the package and the path inside it.
    pub fn break_bare(&self, name: &str) -> (r: (String, String))
        ensures
            (r.0@, r.1@) == bare_parts(name@),
    {
        let cs = chars_of(name);
        let n = cs.len();
        proof {
            assert(cs@.skip(0) =~= cs@);
            lemma_find_slash(cs@);
        }
        let k1 = find_slash_from(&cs, 0);
        if n > 0 && cs[0] == '@' {
            if k1 >= n {
                return (string_of(&cs, 0, n), subpath_string(&cs, n));
            }
            let k2 = find_slash_from(&cs, k1 + 1);
            proof {
                let rest = cs@.skip(k1 + 1);
                lemma_find_slash(rest);
                assert(rest.take(k2 - k1 - 1) =~= cs@.subrange(k1 + 1, k2 as int));
                if k2 < n {
                    assert(rest.skip(k2 - k1) =~= cs@.skip(k2 + 1));
                } else {
                    assert(cs@.skip(n as int) =~= Seq::<char>::empty());
                }
            }
            if k2 == k1 + 1 {
                return (string_of(&cs, 0, n), subpath_string(&cs, n));
            }
            let mut pkg = string_of(&cs, 0, k1);
            pkg.append("/");
            let p = string_of(&cs, k1 + 1, k2);
            pkg.append(p.as_str());
            proof {
                reveal_strlit("/");
                assert(pkg@ =~= cs@.take(k1 as int) + seq!['/'] + cs@.skip(k1 + 1).take(k2 - k1 - 1));
            }
            let sub_from = if k2 >= n {
                n
            } else {
                k2 + 1
            };
            (pkg, subpath_string(&cs, sub_from))
        } else {
            if k1 >= n {
                return (string_of(&cs, 0, n), subpath_string(&cs, n));
            }
            proof {
                assert(cs@.subrange(0, k1 as int) =~= cs@.take(k1 as int));
            }
            (string_of(&cs, 0, k1), subpath_string(&cs, k1 + 1))
        }
    }

    /// The files that a path may name, in order: the path with each
    /// extension in turn (`try_file` takes the first that is a file).
    pub fn file_candidates(&self, path: &str) -> (r: Vec<String>)
        requires
            forall|i: int| 0 <= i < self.extensions@.len() ==> no_separator(#[trigger] self.extensions@[i]@),
        ensures
            r@.len() == self.extensions@.len(),
            forall|i: int| 0 <= i < r@.len() ==> (#[trigger] r@[i])@ == with_extension_spec(path@, ext_name(self.extensions@[i]@)),
    {
        let mut r: Vec<String> = Vec::new();
        for i in 0..self.extensions.len()
            invariant
                forall|k: int| 0 <= k < self.extensions@.len() ==> no_separator(#[trigger] self.extensions@[k]@),
                r@.len() == i,
                forall|j: int| 0 <= j < i ==> (#[trigger] r@[j])@ == with_extension_spec(path@, ext_name(self.extensions@[j]@)),
        {
            let e = ext_name_string(self.extensions[i]);
            r.push(path_with_extension(path, e.as_str()));
        }
        r
    }

    /// The index files of a directory, in order: `index` with each
    /// extension in turn (`try_index` takes the first that is a file).
    pub fn index_candidates(&self, dir: &str) -> (r: Vec<String>)
        requires
            forall|i: int| 0 <= i < self.extensions@.len() ==> no_separator(#[trigger] self.extensions@[i]@),
        ensures
            r@.len() == self.extensions@.len(),
            forall|i: int| 0 <= i < r@.len() ==> (#[trigger] r@[i])@ == with_extension_spec(
                join_spec(dir@, "index"@),
                trim_start_char(self.extensions@[i]@, '.'),
            ),
    {
        let index = path_join(dir, "index");
        let mut r: Vec<String> = Vec::new();
        for i in 0..self.extensions.len()
            invariant
                forall|k: int| 0 <= k < self.extensions@.len() ==> no_separator(#[trigger] self.extensions@[k]@),
                index@ == join_spec(dir@, "index"@),
                r@.len() == i,
                forall|j: int| 0 <= j < i ==> (#[trigger] r@[j])@ == with_extension_spec(
                    join_spec(dir@, "index"@),
                    trim_start_char(self.extensions@[j]@, '.'),
                ),
        {
            let e = ext_name_string(self.extensions[i]);
            proof {
                let x = self.extensions@[i as int]@;
                if !(x.len() > 0 && x[0] == '.') {
                    assert(trim_start_char(x, '.') == x);
                }
            }
            r.push(path_with_extension(index.as_str(), e.as_str()));
        }
        r
    }
}

} // verus!
