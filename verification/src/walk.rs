use vstd::prelude::*;

use crate::fs::{filter_named, GlobFilter, WalkResType};
use crate::unicode::chars_of;

verus! {

/// `globset::Glob`, one compiled pattern.
#[verifier::external_type_specification]
#[verifier::external_body]
pub struct ExGlob(globset::Glob);

/// `globset::GlobSet`, a set of compiled patterns.
#[verifier::external_type_specification]
#[verifier::external_body]
pub struct ExGlobSet(globset::GlobSet);

/// The message of the error that compiling a glob pattern gives; `None`
/// where the pattern is valid.
pub uninterp spec fn glob_parse_error(pattern: Seq<char>) -> Option<Seq<char>>;

/// Whether a path matches any of the glob patterns.
pub uninterp spec fn globs_match(patterns: Seq<Seq<char>>, path: Seq<char>) -> bool;

/// The glob that `Glob::new` compiles from a valid pattern.
pub uninterp spec fn compiled_glob(pattern: Seq<char>) -> globset::Glob;

/// The message of the error that `GlobSet::new` gives for these globs (the
/// matcher it would build is over its size limit); `None` where it builds.
pub uninterp spec fn glob_set_build_error(globs: Seq<globset::Glob>) -> Option<Seq<char>>;

/// The message of the error that building one set from these (valid)
/// patterns gives; `None` where the set builds.
pub open spec fn glob_set_error(patterns: Seq<Seq<char>>) -> Option<Seq<char>> {
    glob_set_build_error(patterns.map_values(|p: Seq<char>| compiled_glob(p)))
}

/// Calls `Glob::new`: the compiled pattern, or the error's message.
#[verifier::external_body]
fn glob_new(pattern: &str) -> (r: Result<globset::Glob, String>)
    ensures
        match r {
            Ok(g) => glob_parse_error(pattern@) is None && g == compiled_glob(pattern@),
            Err(m) => glob_parse_error(pattern@) == Some(m@),
        },
{
    globset::Glob::new(pattern).map_err(|e| e.to_string())
}

/// Calls `GlobSet::new` on compiled patterns (what a `GlobSetBuilder`
/// builds): the set, or the error's message where the matcher would be too
/// large. No globs at all always give the empty set.
#[verifier::external_body]
fn glob_set_new(globs: &Vec<globset::Glob>) -> (r: Result<globset::GlobSet, String>)
    ensures
        match r {
            Ok(_) => glob_set_build_error(globs@) is None,
            Err(m) => glob_set_build_error(globs@) == Some(m@),
        },
        globs@.len() == 0 ==> r is Ok,
{
    globset::GlobSet::new(globs.iter()).map_err(|e| e.to_string())
}

/// Glob patterns, compiled into one set.
pub struct Globs {
    patterns: Vec<String>,
    set: globset::GlobSet,
}

/// The text of each string.
pub open spec fn texts(v: Seq<String>) -> Seq<Seq<char>> {
    v.map_values(|s: String| s@)
}

/// The first pattern (by position) that does not compile, if any.
pub open spec fn first_bad(patterns: Seq<Seq<char>>, k: int) -> bool {
    &&& 0 <= k < patterns.len()
    &&& glob_parse_error(patterns[k]) is Some
    &&& forall|j: int| 0 <= j < k ==> glob_parse_error(#[trigger] patterns[j]) is None
}

/// Calls `GlobSet::is_match` on the set compiled from the patterns: whether
/// the path matches any of them.
#[verifier::external_body]
fn glob_set_is_match(g: &Globs, path: &str) -> (b: bool)
    ensures
        b == globs_match(g@, path@),
{
    g.set.is_match(path)
}

impl View for Globs {
    type V = Seq<Seq<char>>;

    closed spec fn view(&self) -> Seq<Seq<char>> {
        texts(self.patterns@)
    }
}

impl Globs {
    /// Compiles the patterns: the first one that does not compile gives its
    /// error's message; otherwise the set (which may still fail to build,
    /// with a message, where it would be too large).
    pub fn new(patterns: Vec<String>) -> (r: Result<Globs, String>)
        ensures
            (exists|k: int| first_bad(texts(patterns@), k)) ==> (r matches Err(m) && ({
                let k = choose|k: int| first_bad(texts(patterns@), k);
                glob_parse_error(texts(patterns@)[k]) == Some(m@)
            })),
            r matches Ok(g) ==> g@ == texts(patterns@),
            (forall|j: int| 0 <= j < patterns@.len() ==> glob_parse_error(#[trigger] texts(patterns@)[j]) is None)
                ==> ((r is Ok <==> glob_set_error(texts(patterns@)) is None) && (r matches Err(m)
                ==> glob_set_error(texts(patterns@)) == Some(m@))),
            patterns@.len() == 0 ==> r is Ok,
    {
        let ghost ps = texts(patterns@);
        let mut globs: Vec<globset::Glob> = Vec::new();
        for i in 0..patterns.len()
            invariant
                ps == texts(patterns@),
                forall|j: int| 0 <= j < i ==> glob_parse_error(#[trigger] ps[j]) is None,
                globs@ == ps.take(i as int).map_values(|p: Seq<char>| compiled_glob(p)),
        {
            match glob_new(patterns[i].as_str()) {
                Ok(g) => {
                    globs.push(g);
                    proof {
                        assert(ps[i as int] == patterns@[i as int]@);
                        assert(ps.take(i + 1).map_values(|p: Seq<char>| compiled_glob(p)) =~= ps.take(
                            i as int,
                        ).map_values(|p: Seq<char>| compiled_glob(p)).push(compiled_glob(ps[i as int])));
                    }
                },
                Err(m) => {
                    proof {
                        assert(first_bad(ps, i as int));
                        let k = choose|k: int| first_bad(ps, k);
                        if k < i {
                            assert(glob_parse_error(ps[k]) is None);
                        } else if k > i {
                            assert(glob_parse_error(ps[i as int]) is None);
                        }
                    }
                    return Err(m);
                },
            }
        }
        proof {
            if exists|k: int| first_bad(ps, k) {
                let k = choose|k: int| first_bad(ps, k);
                assert(glob_parse_error(ps[k]) is None);
            }
        }
        proof {
            assert(ps.take(patterns@.len() as int) =~= ps);
        }
        match glob_set_new(&globs) {
            Ok(set) => Ok(Globs { patterns, set }),
            Err(m) => Err(m),
        }
    }

    /// Whether the path matches one of the patterns.
    pub fn is_match(&self, path: &str) -> (b: bool)
        ensures
            b == globs_match(self@, path@),
    {
        glob_set_is_match(self, path)
    }
}

/// The options of a directory walk: the patterns that paths must match, the
/// patterns that exclude paths, which entries to yield, whether names
/// starting with a dot count, and whether paths are absolute.
pub struct WalkOptions {
    pub pattern: Option<Globs>,
    pub exclude: Option<Globs>,
    pub filter: GlobFilter,
    pub dot: bool,
    pub absolute: bool,
}

impl Default for WalkOptions {
    fn default() -> (r: Self)
        ensures
            r.pattern is None,
            r.exclude is None,
            r.filter == GlobFilter::All,
            !r.dot,
            !r.absolute,
    {
        WalkOptions { pattern: None, exclude: None, filter: GlobFilter::All, dot: false, absolute: false }
    }
}

/// The strings among the items of an `ignore` array, in order.
pub open spec fn strings_of(items: Seq<Option<String>>) -> Seq<Seq<char>>
    decreases items.len(),
{
    if items.len() == 0 {
        Seq::empty()
    } else {
        let rest = strings_of(items.drop_last());
        match items.last() {
            Some(s) => rest.push(s@),
            None => rest,
        }
    }
}

/// The strings of the `ignore` array (none where it is missing).
pub open spec fn ignore_strings(ignore: Option<Vec<Option<String>>>) -> Seq<Seq<char>> {
    match ignore {
        Some(items) => strings_of(items@),
        None => Seq::empty(),
    }
}

/// The `filter` option is missing or names a filter.
pub open spec fn filter_ok(filter: Option<String>) -> bool {
    match filter {
        Some(f) => filter_named(f@) is Some,
        None => true,
    }
}

/// A pattern that does not compile makes the first one that does not a
/// first bad pattern.
proof fn lemma_first_bad_exists(ps: Seq<Seq<char>>, j: int)
    requires
        0 <= j < ps.len(),
        glob_parse_error(ps[j]) is Some,
    ensures
        exists|k: int| first_bad(ps, k),
    decreases j,
{
    if exists|j2: int| 0 <= j2 < j && glob_parse_error(#[trigger] ps[j2]) is Some {
        let j2 = choose|j2: int| 0 <= j2 < j && glob_parse_error(#[trigger] ps[j2]) is Some;
        lemma_first_bad_exists(ps, j2);
    } else {
        assert(first_bad(ps, j));
    }
}

/// The error that reading walk options gives, checked in this order: the
/// first `ignore` pattern that does not compile; the set of `ignore`
/// patterns that does not build; a `filter` that names no filter. `None`
/// where the options are read.
pub open spec fn walk_options_error(ignore: Option<Vec<Option<String>>>, filter: Option<String>) -> Option<Seq<char>> {
    let strs = ignore_strings(ignore);
    if exists|k: int| first_bad(strs, k) {
        glob_parse_error(strs[choose|k: int| first_bad(strs, k)])
    } else if strs.len() > 0 && glob_set_error(strs) is Some {
        glob_set_error(strs)
    } else if !filter_ok(filter) {
        Some("filter must be \"all\", \"files\", or \"directories\""@)
    } else {
        None
    }
}

impl WalkOptions {
    /// Reads the options object: `ignore` (the strings of an array, where
    /// there is at least one, become the excluding patterns), `absolute`,
    /// `dot` and `filter`. A bad pattern or filter is an error with a
    /// message.
    pub fn from_js(
        ignore: Option<Vec<Option<String>>>,
        absolute: Option<bool>,
        dot: Option<bool>,
        filter: Option<String>,
    ) -> (r: Result<WalkOptions, String>)
        ensures
            r matches Ok(o) ==> {
                &&& o.pattern is None
                &&& o.absolute == (absolute == Some(true))
                &&& o.dot == (dot == Some(true))
                &&& match ignore {
                    Some(items) => if strings_of(items@).len() > 0 {
                        o.exclude matches Some(g) && g@ == strings_of(items@)
                    } else {
                        o.exclude is None
                    },
                    None => o.exclude is None,
                }
                &&& match filter {
                    Some(f) => filter_named(f@) == Some(o.filter),
                    None => o.filter == GlobFilter::All,
                }
            },
            (filter matches Some(f) && filter_named(f@) is None) ==> r is Err,
            match walk_options_error(ignore, filter) {
                Some(m) => r matches Err(e) && e@ == m,
                None => r is Ok,
            },
    {
        let mut result = WalkOptions::default();
        match ignore {
            Some(items) => {
                let mut patterns: Vec<String> = Vec::new();
                let ghost all = items@;
                for item in it: items.into_iter()
                    invariant
                        it.seq() == all,
                        texts(patterns@) == strings_of(all.take(it.index() as int)),
                {
                    proof {
                        assert(all.take(it.index() + 1).drop_last() =~= all.take(it.index() as int));
                    }
                    match item {
                        Some(s) => {
                            patterns.push(s);
                            proof {
                                assert(texts(patterns@) =~= strings_of(all.take(it.index() as int)).push(
                                    all[it.index() as int]->0@,
                                ));
                            }
                        },
                        None => {},
                    }
                }
                proof {
                    assert(all.take(all.len() as int) =~= all);
                }
                proof {
                    if !(exists|k: int| first_bad(texts(patterns@), k)) {
                        assert forall|j: int| 0 <= j < patterns@.len() implies glob_parse_error(
                            #[trigger] texts(patterns@)[j],
                        ) is None by {
                            if glob_parse_error(texts(patterns@)[j]) is Some {
                                lemma_first_bad_exists(texts(patterns@), j);
                            }
                        }
                    }
                }
                if patterns.len() > 0 {
                    match Globs::new(patterns) {
                        Ok(g) => result.exclude = Some(g),
                        Err(m) => return Err(m),
                    }
                }
            },
            None => {},
        }
        match absolute {
            Some(a) => result.absolute = a,
            None => {},
        }
        match dot {
            Some(d) => result.dot = d,
            None => {},
        }
        match filter {
            Some(f) => match GlobFilter::from_js(Some(f)) {
                Ok(g) => result.filter = g,
                Err(m) => return Err(m),
            },
            None => {},
        }
        Ok(result)
    }
}

/// What a walk does with a directory entry.
#[derive(Debug, Clone, Copy, PartialEq, Eq, Structural)]
pub enum WalkStep {
    /// Leave it out (and do not go into it).
    Skip,
    /// Yield it; a directory is then walked too.
    Yield(WalkResType),
}

/// The name starts with a dot (a name that is no UTF-8 does not).
pub open spec fn is_dot_name(name: Option<Seq<char>>) -> bool {
    name matches Some(n) && n.len() > 0 && n[0] == '.'
}

/// What a walk does with an entry named `name` at `path`: dot entries are
/// left out unless asked for; then entries that match none of the patterns,
/// or match an excluding one, or that the filter does not take.
pub open spec fn walk_step_spec(
    dot: bool,
    pattern: Option<Seq<Seq<char>>>,
    exclude: Option<Seq<Seq<char>>>,
    filter: GlobFilter,
    name: Option<Seq<char>>,
    path: Seq<char>,
    is_dir: bool,
) -> WalkStep {
    if !dot && is_dot_name(name) {
        WalkStep::Skip
    } else if pattern matches Some(p) && !globs_match(p, path) {
        WalkStep::Skip
    } else if exclude matches Some(e) && globs_match(e, path) {
        WalkStep::Skip
    } else if !filter.admits(is_dir) {
        WalkStep::Skip
    } else if is_dir {
        WalkStep::Yield(WalkResType::Dir)
    } else {
        WalkStep::Yield(WalkResType::File)
    }
}

pub open spec fn globs_view(g: Option<Globs>) -> Option<Seq<Seq<char>>> {
    match g {
        Some(g) => Some(g@),
        None => None,
    }
}

impl WalkOptions {
    /// Decides what a walk does with an entry (`walk_dir`'s checks): `name`
    /// is its file name where it is UTF-8.
    pub fn step(&self, name: Option<&str>, path: &str, is_dir: bool) -> (s: WalkStep)
        ensures
            s == walk_step_spec(
                self.dot,
                globs_view(self.pattern),
                globs_view(self.exclude),
                self.filter,
                match name {
                    Some(n) => Some(n@),
                    None => None,
                },
                path@,
                is_dir,
            ),
    {
        let dot_name = match name {
            Some(n) => {
                let cs = chars_of(n);
                cs.len() > 0 && cs[0] == '.'
            },
            None => false,
        };
        if !self.dot && dot_name {
            return WalkStep::Skip;
        }
        match &self.pattern {
            Some(p) => if !p.is_match(path) {
                return WalkStep::Skip;
            },
            None => {},
        }
        match &self.exclude {
            Some(e) => if e.is_match(path) {
                return WalkStep::Skip;
            },
            None => {},
        }
        if !self.filter.matches(is_dir) {
            return WalkStep::Skip;
        }
        if is_dir {
            WalkStep::Yield(WalkResType::Dir)
        } else {
            WalkStep::Yield(WalkResType::File)
        }
    }
}

/// A walk yields an entry exactly when it passes every check: it is no dot
/// entry (unless asked for), it matches the patterns (where there are any),
/// it matches no excluding pattern, and the filter takes it; and it is
/// yielded as what it is, a directory or a file.
pub proof fn lemma_step_yields_only_admitted(
    dot: bool,
    pattern: Option<Seq<Seq<char>>>,
    exclude: Option<Seq<Seq<char>>>,
    filter: GlobFilter,
    name: Option<Seq<char>>,
    path: Seq<char>,
    is_dir: bool,
)
    ensures
        ({
            let s = walk_step_spec(dot, pattern, exclude, filter, name, path, is_dir);
            &&& s is Yield <==> {
                &&& dot || !is_dot_name(name)
                &&& pattern matches Some(p) ==> globs_match(p, path)
                &&& exclude matches Some(e) ==> !globs_match(e, path)
                &&& filter.admits(is_dir)
            }
            &&& s matches WalkStep::Yield(k) ==> (k == WalkResType::Dir <==> is_dir)
            &&& filter == GlobFilter::FilesOnly && is_dir ==> s == WalkStep::Skip
            &&& filter == GlobFilter::DirsOnly && !is_dir ==> s == WalkStep::Skip
        }),
{
}

} // verus!
