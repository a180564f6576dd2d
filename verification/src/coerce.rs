use vstd::prelude::*;

use crate::convert::{int_text, push_int};
use crate::unicode::{chars_of, push_char};

verus! {

/// A value could not be read as the type that was asked for.
#[derive(Debug, Clone, Copy)]
pub struct CoerceError;

/// The type of a script value, as error messages describe it.
pub enum JsType {
    Null,
    Undefined,
    Bool(bool),
    Int(i32),
    /// A non-integer number, with its text.
    Float(String),
    String,
    Symbol,
    BigInt,
    Function,
    Array,
    /// An object, with the `name` of its constructor where it could be read.
    Object(Option<String>),
    Exception,
    Module,
    Unknown,
}

/// How an error message names the type of a value it received.
pub open spec fn type_text(t: JsType) -> Seq<char> {
    match t {
        JsType::Null => "null"@,
        JsType::Undefined => "undefined"@,
        JsType::Bool(b) => "type boolean ("@ + (if b {
            "true"@
        } else {
            "false"@
        }) + ")"@,
        JsType::Int(n) => "type number ("@ + int_text(n as int) + ")"@,
        JsType::Float(t) => "type number ("@ + t@ + ")"@,
        JsType::String => "string"@,
        JsType::Symbol => "symbol"@,
        JsType::BigInt => "type bigint"@,
        JsType::Function => "function"@,
        JsType::Array => "an instance of Array"@,
        JsType::Object(name) => match name {
            Some(n) => if n@.len() > 0 {
                "an instance of "@ + n@
            } else {
                "an instance of Object"@
            },
            None => "an instance of Object"@,
        },
        JsType::Exception => "exception"@,
        JsType::Module => "module"@,
        JsType::Unknown => "unknown"@,
    }
}

/// Names the type of a value for an error message.
pub fn js_type_of(t: &JsType) -> (r: String)
    ensures
        r@ == type_text(*t),
{
    match t {
        JsType::Null => String::from_str("null"),
        JsType::Undefined => String::from_str("undefined"),
        JsType::Bool(b) => {
            let mut s = String::from_str("type boolean (");
            if *b {
                s.append("true");
            } else {
                s.append("false");
            }
            s.append(")");
            s
        },
        JsType::Int(n) => {
            let mut s = String::from_str("type number (");
            push_int(&mut s, *n);
            s.append(")");
            s
        },
        JsType::Float(t) => {
            let mut s = String::from_str("type number (");
            s.append(t.as_str());
            s.append(")");
            s
        },
        JsType::String => String::from_str("string"),
        JsType::Symbol => String::from_str("symbol"),
        JsType::BigInt => String::from_str("type bigint"),
        JsType::Function => String::from_str("function"),
        JsType::Array => String::from_str("an instance of Array"),
        JsType::Object(name) => match name {
            Some(n) => {
                let cs = chars_of(n.as_str());
                if cs.len() > 0 {
                    let mut s = String::from_str("an instance of ");
                    s.append(n.as_str());
                    s
                } else {
                    String::from_str("an instance of Object")
                }
            },
            None => String::from_str("an instance of Object"),
        },
        JsType::Exception => String::from_str("exception"),
        JsType::Module => String::from_str("module"),
        JsType::Unknown => String::from_str("unknown"),
    }
}

/// The message of an `ERR_INVALID_ARG_TYPE` error:
/// `The "<name>" argument must be of type <expected>. Received <received>`.
pub open spec fn arg_type_message_spec(name: Seq<char>, expected: Seq<char>, received: Seq<char>) -> Seq<char> {
    "The \""@ + name + "\" argument must be of type "@ + expected + ". Received "@ + received
}

/// Builds the message of an `ERR_INVALID_ARG_TYPE` error.
pub fn arg_type_message(name: &str, expected: &str, received: &str) -> (s: String)
    ensures
        s@ == arg_type_message_spec(name@, expected@, received@),
{
    let mut s = String::from_str("The \"");
    s.append(name);
    s.append("\" argument must be of type ");
    s.append(expected);
    s.append(". Received ");
    s.append(received);
    s
}

/// A line without the carriage return before its newline.
pub open spec fn strip_cr(line: Seq<char>) -> Seq<char> {
    if line.len() > 0 && line.last() == '\r' {
        line.drop_last()
    } else {
        line
    }
}

/// Scanning `s` for lines: the lines ended by a newline so far, and the
/// chars of the line still open.
pub open spec fn scan_lines(s: Seq<char>) -> (Seq<Seq<char>>, Seq<char>)
    decreases s.len(),
{
    if s.len() == 0 {
        (Seq::empty(), Seq::empty())
    } else {
        let (done, cur) = scan_lines(s.drop_last());
        if s.last() == '\n' {
            (done.push(strip_cr(cur)), Seq::empty())
        } else {
            (done, cur.push(s.last()))
        }
    }
}

/// The lines of `s`, as `str::lines` gives them: split at each newline
/// (a carriage return right before it dropped), the last line counted only
/// where it is not empty.
pub open spec fn lines_of(s: Seq<char>) -> Seq<Seq<char>> {
    let (done, cur) = scan_lines(s);
    if cur.len() > 0 {
        done.push(cur)
    } else {
        done
    }
}

/// The lines joined with newlines.
pub open spec fn join_lines(lines: Seq<Seq<char>>) -> Seq<char>
    decreases lines.len(),
{
    if lines.len() == 0 {
        Seq::empty()
    } else if lines.len() == 1 {
        lines[0]
    } else {
        join_lines(lines.drop_last()) + seq!['\n'] + lines.last()
    }
}

/// The text of a stack trace without its first line (the line that names
/// the error); `None` (no stack could be had) gives
/// `No stack trace available`.
pub open spec fn trace_text(stack: Option<Seq<char>>) -> Seq<char> {
    match stack {
        Some(s) => if lines_of(s).len() > 1 {
            join_lines(lines_of(s).subrange(1, lines_of(s).len() as int))
        } else {
            Seq::empty()
        },
        None => "No stack trace available"@,
    }
}

/// The lines of `s`.
fn split_lines(s: &str) -> (r: Vec<String>)
    ensures
        r@.len() == lines_of(s@).len(),
        forall|i: int| 0 <= i < r@.len() ==> (#[trigger] r@[i])@ == lines_of(s@)[i],
{
    let cs = chars_of(s);
    let mut done: Vec<String> = Vec::new();
    let mut cur = String::new();
    proof {
        assert(cs@.take(0) =~= Seq::<char>::empty());
    }
    for i in 0..cs.len()
        invariant
            cs@ == s@,
            done@.len() == scan_lines(cs@.take(i as int)).0.len(),
            forall|j: int| 0 <= j < done@.len() ==> (#[trigger] done@[j])@ == scan_lines(cs@.take(i as int)).0[j],
            cur@ == scan_lines(cs@.take(i as int)).1,
    {
        proof {
            assert(cs@.take(i + 1).drop_last() =~= cs@.take(i as int));
        }
        let c = cs[i];
        if c == '\n' {
            let line_chars = chars_of(cur.as_str());
            let mut line = String::new();
            let n = if line_chars.len() > 0 && line_chars[line_chars.len() - 1] == '\r' {
                line_chars.len() - 1
            } else {
                line_chars.len()
            };
            let mut k: usize = 0;
            while k < n
                invariant
                    k <= n <= line_chars@.len(),
                    line@ == line_chars@.take(k as int),
                decreases n - k,
            {
                proof {
                    assert(line_chars@.take(k + 1) =~= line_chars@.take(k as int).push(line_chars@[k as int]));
                }
                push_char(&mut line, line_chars[k]);
                k = k + 1;
            }
            proof {
                assert(line@ =~= strip_cr(cur@));
            }
            done.push(line);
            cur = String::new();
        } else {
            push_char(&mut cur, c);
        }
    }
    proof {
        assert(cs@.take(cs@.len() as int) =~= cs@);
    }
    let cur_chars = chars_of(cur.as_str());
    if cur_chars.len() > 0 {
        done.push(cur);
    }
    done
}

/// Drops the first line of a stack trace (`extract_trace`); `stack` is what
/// evaluating `new Error().stack` gave, `None` where it failed.
pub fn extract_trace(stack: Option<String>) -> (r: String)
    ensures
        r@ == trace_text(match stack {
            Some(s) => Some(s@),
            None => None,
        }),
{
    match stack {
        Some(s) => {
            let lines = split_lines(s.as_str());
            let ghost all = lines_of(s@);
            let ghost rest = if all.len() > 1 { all.subrange(1, all.len() as int) } else { Seq::empty() };
            let mut out = String::new();
            if lines.len() > 1 {
                let mut i: usize = 1;
                proof {
                    assert(rest.take(0) =~= Seq::<Seq<char>>::empty());
                }
                while i < lines.len()
                    invariant
                        1 <= i <= lines@.len(),
                        lines@.len() == all.len(),
                        forall|j: int| 0 <= j < lines@.len() ==> (#[trigger] lines@[j])@ == all[j],
                        rest == all.subrange(1, all.len() as int),
                        out@ == join_lines(rest.take(i - 1)),
                    decreases lines@.len() - i,
                {
                    proof {
                        assert(rest.take(i as int).drop_last() =~= rest.take(i - 1));
                        assert(rest[i - 1] == all[i as int]);
                    }
                    if i > 1 {
                        push_char(&mut out, '\n');
                    }
                    out.append(lines[i].as_str());
                    i = i + 1;
                }
                proof {
                    assert(rest.take(i - 1) =~= rest);
                }
            }
            out
        },
        None => String::from_str("No stack trace available"),
    }
}

} // verus!
