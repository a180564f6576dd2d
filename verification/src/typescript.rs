use oxc_allocator::Allocator;
use oxc_codegen::Codegen;
use oxc_parser::{ParseOptions, Parser};
use oxc_semantic::SemanticBuilder;
use oxc_span::SourceType;
use oxc_transformer::{TransformOptions, Transformer};
use vstd::prelude::*;

use crate::unicode::{chars_of, str_eq, string_of};

verus! {

/// What `Path::file_name` gives for a path, as text: its last component,
/// where that is a name (`None` for a path that ends in `..` or has no
/// components). How a path splits into components is fixed for one compile
/// target and differs between them (`\` also separates on Windows).
pub uninterp spec fn path_file_name(path: Seq<char>) -> Option<Seq<char>>;

/// Calls `Path::file_name` (then `OsStr::to_str`, which cannot fail on a
/// path made from text).
#[verifier::external_body]
fn file_name_of(path: &str) -> (r: Option<String>)
    ensures
        match r {
            Some(n) => path_file_name(path@) == Some(n@),
            None => path_file_name(path@) is None,
        },
{
    std::path::Path::new(path).file_name().and_then(|n| n.to_str()).map(|n| n.to_string())
}

/// The position of the last `.` in `n`, or -1 where there is none.
pub open spec fn last_dot(n: Seq<char>) -> int
    decreases n.len(),
{
    if n.len() == 0 {
        -1
    } else if n.last() == '.' {
        n.len() - 1
    } else {
        last_dot(n.drop_last())
    }
}

/// The extension of a file name, as `Path::extension` documents it: none
/// where the name has no `.`, or begins with its only `.`; otherwise what
/// follows the last `.`.
pub open spec fn name_extension(n: Seq<char>) -> Option<Seq<char>> {
    if last_dot(n) <= 0 {
        None
    } else {
        Some(n.skip(last_dot(n) + 1))
    }
}

/// The extension of a path: that of its file name, none without one.
pub open spec fn path_extension(path: Seq<char>) -> Option<Seq<char>> {
    match path_file_name(path) {
        Some(n) => name_extension(n),
        None => None,
    }
}

/// The extension of the path (`Path::extension`), as text.
pub fn extension_of(path: &str) -> (r: Option<String>)
    ensures
        match r {
            Some(e) => path_extension(path@) == Some(e@),
            None => path_extension(path@) is None,
        },
{
    match file_name_of(path) {
        None => None,
        Some(n) => {
            let cs = chars_of(n.as_str());
            let mut k: usize = cs.len();
            proof {
                assert(cs@.take(cs@.len() as int) =~= cs@);
            }
            while k > 0 && cs[k - 1] != '.'
                invariant
                    k <= cs@.len(),
                    last_dot(cs@) == last_dot(cs@.take(k as int)),
                decreases k,
            {
                proof {
                    assert(cs@.take(k as int).drop_last() =~= cs@.take(k - 1));
                }
                k = k - 1;
            }
            proof {
                assert(cs@.take(cs@.len() as int) =~= cs@);
                if k > 0 {
                    assert(cs@.take(k as int).last() == '.');
                }
            }
            if k <= 1 {
                None
            } else {
                proof {
                    assert(cs@.subrange(k as int, cs@.len() as int) =~= cs@.skip(k as int));
                }
                Some(string_of(&cs, k, cs.len()))
            }
        },
    }
}

/// The extensions of TypeScript files: `ts`, `mts`, `cts`, `tsx`.
pub open spec fn is_ts_ext_name(e: Seq<char>) -> bool {
    e == "ts"@ || e == "mts"@ || e == "cts"@ || e == "tsx"@
}

/// Whether the path names a TypeScript file, by its extension.
pub fn is_ts_ext(filepath: &str) -> (b: bool)
    ensures
        b == (path_extension(filepath@) matches Some(e) && is_ts_ext_name(e)),
{
    match extension_of(filepath) {
        Some(e) => {
            let s = e.as_str();
            str_eq(s, "ts") || str_eq(s, "mts") || str_eq(s, "cts") || str_eq(s, "tsx")
        },
        None => false,
    }
}

/// `oxc_transformer::TypeScriptOptions`, the options of the TypeScript
/// transform.
#[verifier::external_type_specification]
#[verifier::external_body]
pub struct ExTypeScriptOptions(oxc_transformer::TypeScriptOptions);

/// What the `oxc` pipeline gives for TypeScript source, with the given
/// transform options (the default ones where none are given): the
/// JavaScript, or the text of the errors that parsing reported.
pub uninterp spec fn stripped_types(
    code: Seq<char>,
    options: Option<oxc_transformer::TypeScriptOptions>,
) -> Result<Seq<char>, Seq<char>>;

/// Runs the `oxc` pipeline on the source (parse as TypeScript, with `return`
/// allowed outside functions; build the scopes; transform with the options,
/// or the default ones; print): the JavaScript, or the `Debug` text of the
/// parse errors where parsing reported any. The arena that the stages share
/// cannot be passed between separate calls, so the stages stand in one body.
#[verifier::external_body]
fn oxc_strip(code: &str, options: Option<oxc_transformer::TypeScriptOptions>) -> (r: Result<String, String>)
    ensures
        match r {
            Ok(s) => stripped_types(code@, options) == Ok::<Seq<char>, Seq<char>>(s@),
            Err(m) => stripped_types(code@, options) == Err::<Seq<char>, Seq<char>>(m@),
        },
{
    let allocator = Allocator::default();
    let opts = ParseOptions { allow_return_outside_function: true, ..ParseOptions::default() };
    let parsed = Parser::new(&allocator, code, SourceType::ts()).with_options(opts).parse();
    if parsed.diagnostics.has_errors() {
        return Err(format!("{:?}", parsed.diagnostics.into_vec()));
    }
    let mut program = parsed.program;
    let scoping = SemanticBuilder::new().with_cfg(false).build(&program).semantic.into_scoping();
    let transform = TransformOptions { typescript: options.unwrap_or_default(), ..TransformOptions::default() };
    let path = std::path::Path::new("mod.ts");
    Transformer::new(&allocator, path, &transform).build_with_scoping(scoping, &mut program);
    Ok(Codegen::new().build(&program).code)
}

/// What stripping the types gives: the JavaScript, or
/// `TS Syntax Errors: <errors>` where the source does not parse.
pub open spec fn strip_result(
    code: Seq<char>,
    options: Option<oxc_transformer::TypeScriptOptions>,
) -> Result<Seq<char>, Seq<char>> {
    match stripped_types(code, options) {
        Ok(s) => Ok(s),
        Err(d) => Err("TS Syntax Errors: "@ + d),
    }
}

/// Turns the pipeline's result into the library's: parse errors are
/// reported under `TS Syntax Errors: `.
fn with_error_prefix(r: Result<String, String>) -> (out: Result<String, String>)
    ensures
        match r {
            Ok(s) => out == Ok::<String, String>(s),
            Err(d) => out matches Err(m) && m@ == "TS Syntax Errors: "@ + d@,
        },
{
    match r {
        Ok(s) => Ok(s),
        Err(d) => {
            let mut m = String::from_str("TS Syntax Errors: ");
            proof {
                reveal_strlit("TS Syntax Errors: ");
            }
            m.append(d.as_str());
            Err(m)
        },
    }
}

/// Strips the types from TypeScript source with the given transform options.
pub fn strip_types_fast(ts_code: &str, ts_options: oxc_transformer::TypeScriptOptions) -> (r: Result<String, String>)
    ensures
        match r {
            Ok(s) => strip_result(ts_code@, Some(ts_options)) == Ok::<Seq<char>, Seq<char>>(s@),
            Err(m) => strip_result(ts_code@, Some(ts_options)) == Err::<Seq<char>, Seq<char>>(m@),
        },
{
    with_error_prefix(oxc_strip(ts_code, Some(ts_options)))
}

/// Strips the types from TypeScript source, with the default options.
pub fn strip_types_fast_default(ts_code: &str) -> (r: Result<String, String>)
    ensures
        match r {
            Ok(s) => strip_result(ts_code@, None) == Ok::<Seq<char>, Seq<char>>(s@),
            Err(m) => strip_result(ts_code@, None) == Err::<Seq<char>, Seq<char>>(m@),
        },
{
    with_error_prefix(oxc_strip(ts_code, None))
}

} // verus!
