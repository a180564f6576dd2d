use vstd::prelude::*;

use crate::unicode::{chars_of, matches_at_exec, push_char, string_of};

verus! {

/// `s` starts with `\\?\` (a verbatim path).
pub open spec fn starts_verbatim(s: Seq<char>) -> bool {
    s.len() >= 4 && s[0] == '\\' && s[1] == '\\' && s[2] == '?' && s[3] == '\\'
}

/// `s` starts with `\\.\` (a device path).
pub open spec fn starts_device(s: Seq<char>) -> bool {
    s.len() >= 4 && s[0] == '\\' && s[1] == '\\' && s[2] == '.' && s[3] == '\\'
}

pub open spec fn is_ascii_alpha(c: char) -> bool {
    ('a' <= c && c <= 'z') || ('A' <= c && c <= 'Z')
}

/// Every `/` turned into `\`.
pub open spec fn backslashed(s: Seq<char>) -> Seq<char> {
    s.map_values(|c: char| if c == '/' { '\\' } else { c })
}

/// `path.toNamespacedPath(p)`. On POSIX, and for a path that is already
/// verbatim (`\\?\`) or a device path (`\\.\`), the path itself. Otherwise,
/// with `/` turned into `\`: a UNC path `\\server\share` becomes
/// `\\?\UNC\server\share`; a path on a drive `C:` becomes `\\?\C:\...`
/// (with a `\` after the colon where there was none); any other path stays
/// as it is.
pub open spec fn namespaced(s: Seq<char>, posix: bool) -> Seq<char> {
    if posix || starts_verbatim(s) || starts_device(s) {
        s
    } else {
        let t = backslashed(s);
        if t.len() >= 2 && t[0] == '\\' && t[1] == '\\' && !starts_verbatim(t) {
            seq!['\\', '\\', '?', '\\', 'U', 'N', 'C', '\\'] + t.skip(2)
        } else if t.len() >= 2 && is_ascii_alpha(t[0]) && t[1] == ':' {
            let rest = t.skip(2);
            seq!['\\', '\\', '?', '\\'] + t.take(2) + if rest.len() == 0 || rest[0] != '\\' {
                seq!['\\'] + rest
            } else {
                rest
            }
        } else {
            t
        }
    }
}

/// `toNamespacedPath` is idempotent: a path it returns comes back
/// unchanged.
pub proof fn lemma_namespaced_idempotent(s: Seq<char>, posix: bool)
    ensures
        namespaced(namespaced(s, posix), posix) == namespaced(s, posix),
{
    if !(posix || starts_verbatim(s) || starts_device(s)) {
        let t = backslashed(s);
        let r = namespaced(s, posix);
        if t.len() >= 2 && t[0] == '\\' && t[1] == '\\' && !starts_verbatim(t) {
            assert(r[0] == '\\' && r[1] == '\\' && r[2] == '?' && r[3] == '\\');
        } else if t.len() >= 2 && is_ascii_alpha(t[0]) && t[1] == ':' {
            assert(r[0] == '\\' && r[1] == '\\' && r[2] == '?' && r[3] == '\\');
        } else {
            assert(r == t);
            assert(backslashed(t) =~= t);
            if starts_verbatim(t) || starts_device(t) {
                assert(t[0] == '\\' && t[1] == '\\');
            }
        }
    }
}

fn push_range(out: &mut String, cs: &Vec<char>, from: usize, to: usize)
    requires
        from <= to <= cs@.len(),
    ensures
        final(out)@ == old(out)@ + cs@.subrange(from as int, to as int),
{
    let s = string_of(cs, from, to);
    out.append(s.as_str());
}

/// `path.toNamespacedPath(path)`; `posix` selects the POSIX flavour, where
/// paths are left alone.
pub fn to_namespaced_path(path: &str, posix: bool) -> (r: String)
    ensures
        r@ == namespaced(path@, posix),
{
    let cs = chars_of(path);
    let n = cs.len();
    let verbatim = n >= 4 && cs[0] == '\\' && cs[1] == '\\' && cs[2] == '?' && cs[3] == '\\';
    let device = n >= 4 && cs[0] == '\\' && cs[1] == '\\' && cs[2] == '.' && cs[3] == '\\';
    if posix || verbatim || device {
        return string_of(&cs, 0, n);
    }
    let mut t: Vec<char> = Vec::new();
    for i in 0..n
        invariant
            n == cs@.len(),
            t@ == backslashed(cs@).take(i as int),
    {
        proof {
            assert(backslashed(cs@).take(i + 1) =~= backslashed(cs@).take(i as int).push(backslashed(cs@)[i as int]));
        }
        if cs[i] == '/' {
            t.push('\\');
        } else {
            t.push(cs[i]);
        }
    }
    proof {
        assert(backslashed(cs@).take(n as int) =~= backslashed(cs@));
        assert(t@.subrange(0, n as int) =~= t@);
    }
    let t_verbatim = n >= 4 && t[0] == '\\' && t[1] == '\\' && t[2] == '?' && t[3] == '\\';
    if n >= 2 && t[0] == '\\' && t[1] == '\\' && !t_verbatim {
        let mut out = String::new();
        push_char(&mut out, '\\');
        push_char(&mut out, '\\');
        push_char(&mut out, '?');
        push_char(&mut out, '\\');
        push_char(&mut out, 'U');
        push_char(&mut out, 'N');
        push_char(&mut out, 'C');
        push_char(&mut out, '\\');
        push_range(&mut out, &t, 2, n);
        proof {
            assert(out@ =~= seq!['\\', '\\', '?', '\\', 'U', 'N', 'C', '\\'] + t@.skip(2));
        }
        return out;
    }
    let c0 = if n >= 1 { t[0] } else { ' ' };
    if n >= 2 && (('a' <= c0 && c0 <= 'z') || ('A' <= c0 && c0 <= 'Z')) && t[1] == ':' {
        let mut out = String::new();
        push_char(&mut out, '\\');
        push_char(&mut out, '\\');
        push_char(&mut out, '?');
        push_char(&mut out, '\\');
        push_range(&mut out, &t, 0, 2);
        if n == 2 || t[2] != '\\' {
            push_char(&mut out, '\\');
        }
        push_range(&mut out, &t, 2, n);
        proof {
            let rest = t@.skip(2);
            if n == 2 || t@[2] != '\\' {
                assert(out@ =~= seq!['\\', '\\', '?', '\\'] + t@.take(2) + (seq!['\\'] + rest));
            } else {
                assert(out@ =~= seq!['\\', '\\', '?', '\\'] + t@.take(2) + rest);
            }
        }
        return out;
    }
    string_of(&t, 0, n)
}

/// The `base` of `path.format`: `base` where given, else `name` and `ext`
/// (with a dot put before an extension that has none).
pub open spec fn format_base(base: Option<Seq<char>>, name: Option<Seq<char>>, ext: Option<Seq<char>>) -> Seq<char> {
    match base {
        Some(b) => b,
        None => {
            let n = match name {
                Some(n) => n,
                None => Seq::empty(),
            };
            let e = match ext {
                Some(e) => e,
                None => Seq::empty(),
            };
            n + if e.len() > 0 && e[0] != '.' {
                seq!['.'] + e
            } else {
                e
            }
        },
    }
}

pub open spec fn opt_chars(s: Option<String>) -> Option<Seq<char>> {
    match s {
        Some(s) => Some(s@),
        None => None,
    }
}

/// `path.format({ dir, root, base, name, ext })`: `dir`, the separator and
/// the base where `dir` is given; else `root` and the base; else the base.
pub fn format(
    dir: Option<String>,
    root: Option<String>,
    base: Option<String>,
    name: Option<String>,
    ext: Option<String>,
    sep: &str,
) -> (r: String)
    ensures
        r@ == match dir {
            Some(d) => d@ + sep@ + format_base(opt_chars(base), opt_chars(name), opt_chars(ext)),
            None => match root {
                Some(rt) => rt@ + format_base(opt_chars(base), opt_chars(name), opt_chars(ext)),
                None => format_base(opt_chars(base), opt_chars(name), opt_chars(ext)),
            },
        },
{
    let ghost b0 = opt_chars(base);
    let ghost n0 = opt_chars(name);
    let ghost e0 = opt_chars(ext);
    let base_val = match base {
        Some(b) => b,
        None => {
            let mut s = match name {
                Some(n) => n,
                None => String::new(),
            };
            let e = match ext {
                Some(e) => e,
                None => String::new(),
            };
            let ec = chars_of(e.as_str());
            if ec.len() > 0 && ec[0] != '.' {
                push_char(&mut s, '.');
            }
            s.append(e.as_str());
            proof {
                if ec@.len() > 0 && ec@[0] != '.' {
                    assert(s@ =~= n0.unwrap_or(Seq::empty()) + (seq!['.'] + e@));
                }
            }
            s
        },
    };
    assert(base_val@ =~= format_base(b0, n0, e0));
    match dir {
        Some(d) => {
            let mut out = d;
            out.append(sep);
            out.append(base_val.as_str());
            out
        },
        None => match root {
            Some(rt) => {
                let mut out = rt;
                out.append(base_val.as_str());
                out
            },
            None => base_val,
        },
    }
}


/// `f` with every copy of `s` at its end taken off, one after another; `f`
/// itself where `s` is empty.
pub open spec fn trim_end_all(f: Seq<char>, s: Seq<char>) -> Seq<char>
    decreases f.len(),
{
    if s.len() > 0 && s.len() <= f.len() && f.subrange(f.len() - s.len(), f.len() as int) == s {
        trim_end_all(f.subrange(0, f.len() - s.len()), s)
    } else {
        f
    }
}

/// The length of `trim_end_all(f, s)`: how much of `f` is left.
fn trim_end_len(f: &Vec<char>, s: &Vec<char>) -> (k: usize)
    ensures
        k <= f.len(),
        trim_end_all(f@, s@) == f@.subrange(0, k as int),
{
    let mut k: usize = f.len();
    assert(f@.subrange(0, k as int) =~= f@);
    while s.len() > 0 && s.len() <= k && matches_at_exec(f, s, k - s.len())
        invariant
            k <= f.len(),
            trim_end_all(f@, s@) == trim_end_all(f@.subrange(0, k as int), s@),
        decreases k,
    {
        let ghost g = f@.subrange(0, k as int);
        assert(g.subrange(g.len() - s@.len(), g.len() as int) =~= f@.subrange(
            k - s@.len(),
            k as int,
        ));
        assert(g.subrange(0, g.len() - s@.len()) =~= f@.subrange(0, k - s@.len()));
        k = k - s.len();
    }
    proof {
        let g = f@.subrange(0, k as int);
        if s@.len() > 0 && s@.len() <= k {
            assert(g.subrange(g.len() - s@.len(), g.len() as int) =~= f@.subrange(
                k - s@.len(),
                k as int,
            ));
        }
    }
    k
}

/// `path.basename(path, suffix)`, from the path's file name (none for a
/// path that has none): the file name with every copy of `suffix` at its
/// end taken off; the empty string where there is no file name.
pub fn base_name(file_name: Option<String>, suffix: Option<String>) -> (r: String)
    ensures
        r@ == match file_name {
            None => Seq::<char>::empty(),
            Some(f) => match suffix {
                Some(s) => trim_end_all(f@, s@),
                None => f@,
            },
        },
{
    match file_name {
        None => String::new(),
        Some(f) => match suffix {
            None => f,
            Some(s) => {
                let fc = chars_of(f.as_str());
                let sc = chars_of(s.as_str());
                let k = trim_end_len(&fc, &sc);
                string_of(&fc, 0, k)
            },
        },
    }
}

/// `path.dirname(path)`, from the path's parent: the parent, or `.` for a
/// path that has none.
pub fn dir_name(parent: Option<String>) -> (r: String)
    ensures
        r@ == match parent {
            Some(p) => p@,
            None => "."@,
        },
{
    match parent {
        Some(p) => p,
        None => {
            let r = String::from_str(".");
            proof {
                reveal_strlit(".");
            }
            r
        },
    }
}

/// The parts that `path.parse` reports.
pub struct ParsedPath {
    pub root: String,
    pub dir: String,
    pub base: String,
    pub name: String,
    pub ext: String,
}

/// `s` ends with `t`.
pub open spec fn ends_with(s: Seq<char>, t: Seq<char>) -> bool {
    t.len() <= s.len() && s.subrange(s.len() - t.len(), s.len() as int) == t
}

/// `path.parse(path)`, from the path's root, file name, extension (without
/// its dot) and parent: `base` is the file name (empty where none), `ext`
/// the extension with its dot (empty where none), `name` the file name
/// without `ext`, and `dir` the parent, or the root where there is none. The
/// extension, where there is one, ends the file name after a dot, as a
/// path's own file name and extension always do.
pub fn parse_parts(
    root: String,
    file_name: Option<String>,
    extension: Option<String>,
    parent: Option<String>,
) -> (p: ParsedPath)
    requires
        extension matches Some(e) ==> (file_name matches Some(f) && ends_with(f@, seq!['.'] + e@)),
    ensures
        p.root@ == root@,
        p.base@ == match file_name {
            Some(f) => f@,
            None => Seq::<char>::empty(),
        },
        p.ext@ == match extension {
            Some(e) => seq!['.'] + e@,
            None => Seq::<char>::empty(),
        },
        p.name@ == p.base@.subrange(0, p.base@.len() - p.ext@.len()),
        p.dir@ == match parent {
            Some(d) => d@,
            None => root@,
        },
{
    let base = match file_name {
        Some(f) => f,
        None => String::new(),
    };
    let ext = match extension {
        Some(e) => {
            let mut x = String::new();
            push_char(&mut x, '.');
            x.append(e.as_str());
            x
        },
        None => String::new(),
    };
    let bc = chars_of(base.as_str());
    let ec = chars_of(ext.as_str());
    assert(ec.len() <= bc.len());
    let name = string_of(&bc, 0, bc.len() - ec.len());
    let dir = match parent {
        Some(d) => d,
        None => root.clone(),
    };
    ParsedPath { root, dir, base, name, ext }
}

/// The paths joined, with `sep` between each two.
pub open spec fn joined(paths: Seq<Seq<char>>, sep: Seq<char>) -> Seq<char>
    decreases paths.len(),
{
    if paths.len() == 0 {
        Seq::empty()
    } else if paths.len() == 1 {
        paths[0]
    } else {
        joined(paths.drop_last(), sep) + sep + paths.last()
    }
}

/// `path.join(...)` before normalizing: the paths with the separator
/// between each two.
pub fn join_paths(paths: &Vec<String>, sep: &str) -> (r: String)
    ensures
        r@ == joined(paths@.map_values(|p: String| p@), sep@),
{
    let ghost ps = paths@.map_values(|p: String| p@);
    let mut out = String::new();
    let mut i: usize = 0;
    while i < paths.len()
        invariant
            i <= paths.len(),
            ps == paths@.map_values(|p: String| p@),
            out@ == joined(ps.take(i as int), sep@),
        decreases paths.len() - i,
    {
        if i > 0 {
            out.append(sep);
        }
        out.append(paths[i].as_str());
        proof {
            assert(ps.take(i + 1).drop_last() =~= ps.take(i as int));
            if i == 0 {
                assert(out@ =~= ps.take(1)[0]);
            }
        }
        i = i + 1;
    }
    assert(ps.take(paths.len() as int) =~= ps);
    out
}

} // verus!
