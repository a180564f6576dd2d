use vstd::prelude::*;

use crate::unicode::{chars_of, is_whitespace, is_ws, push_char, string_of};

verus! {

/// A script value, as far as printing it goes: what the printer reads of
/// it, taken out of the engine by the caller.
pub enum JsValue {
    Undefined,
    Null,
    Bool(bool),
    Int(i32),
    /// A non-integer number, with its text.
    Float(String),
    Str(String),
    /// A string view object (printed as its text).
    View(String),
    /// A function, with its `name` property where it could be read.
    Function(Option<String>),
    Array(Vec<JsValue>),
    /// A `Map`: its `size` and its entries.
    MapObject(u32, Vec<(JsValue, JsValue)>),
    /// A `Set`: its `size` and its values.
    SetObject(u32, Vec<JsValue>),
    /// A `Date`: what `toISOString()` returned, if it did.
    Date(Option<String>),
    /// An `Error`: what `toString()` returned, if it did.
    Error(Option<String>),
    /// An object of the `Promise` class that is no promise.
    PromiseUnknown,
    PromisePending,
    /// A resolved promise, with its result where it could be read.
    PromiseResolved(Option<Box<JsValue>>),
    /// A rejected promise, with its reason where there is one.
    PromiseRejected(Option<Box<JsValue>>),
    /// A plain object: its own properties, in order.
    Object(Vec<(String, JsValue)>),
    Unknown,
}

/// The decimal digit for `d < 10`.
pub open spec fn digit_char(d: nat) -> char {
    if d == 0 {
        '0'
    } else if d == 1 {
        '1'
    } else if d == 2 {
        '2'
    } else if d == 3 {
        '3'
    } else if d == 4 {
        '4'
    } else if d == 5 {
        '5'
    } else if d == 6 {
        '6'
    } else if d == 7 {
        '7'
    } else if d == 8 {
        '8'
    } else {
        '9'
    }
}

/// The decimal text of `n`, without leading zeros.
pub open spec fn nat_text(n: nat) -> Seq<char>
    decreases n,
{
    if n < 10 {
        seq![digit_char(n)]
    } else {
        nat_text(n / 10).push(digit_char(n % 10))
    }
}

/// The decimal text of `n`, with a minus sign where it is negative.
pub open spec fn int_text(n: int) -> Seq<char> {
    if n < 0 {
        seq!['-'] + nat_text((-n) as nat)
    } else {
        nat_text(n as nat)
    }
}

/// How a char is written inside a quoted string: backslash, double quote,
/// newline, carriage return and tab get a backslash escape.
pub open spec fn escape_char(c: char) -> Seq<char> {
    if c == '\\' {
        seq!['\\', '\\']
    } else if c == '"' {
        seq!['\\', '"']
    } else if c == '\n' {
        seq!['\\', 'n']
    } else if c == '\r' {
        seq!['\\', 'r']
    } else if c == '\t' {
        seq!['\\', 't']
    } else {
        seq![c]
    }
}

/// `s` with each char escaped.
pub open spec fn escaped(s: Seq<char>) -> Seq<char>
    decreases s.len(),
{
    if s.len() == 0 {
        Seq::empty()
    } else {
        escaped(s.drop_last()) + escape_char(s.last())
    }
}

/// `s` without its trailing whitespace.
pub open spec fn trim_end(s: Seq<char>) -> Seq<char>
    decreases s.len(),
{
    if s.len() > 0 && is_ws(s.last()) {
        trim_end(s.drop_last())
    } else {
        s
    }
}

pub open spec fn quoted(s: Seq<char>) -> Seq<char> {
    seq!['"'] + s + seq!['"']
}

/// How a value prints, `depth` levels deep; strings are quoted (and
/// escaped) where `quote` holds. Elements of arrays, maps, sets, objects and
/// promises print one level less deep and always quoted.
pub open spec fn show(v: JsValue, depth: nat, quote: bool) -> Seq<char>
    decreases v,
{
    match v {
        JsValue::Undefined => "undefined"@,
        JsValue::Null => "null"@,
        JsValue::Bool(b) => if b {
            "true"@
        } else {
            "false"@
        },
        JsValue::Int(n) => int_text(n as int),
        JsValue::Float(t) => t@,
        JsValue::Str(s) => if quote {
            quoted(escaped(s@))
        } else {
            s@
        },
        JsValue::View(s) => if quote {
            quoted(s@)
        } else {
            s@
        },
        JsValue::Function(name) => "Function "@ + match name {
            Some(n) => n@,
            None => "anonymous"@,
        },
        JsValue::Array(items) => if depth == 0 {
            "[ ... ]"@
        } else {
            "[ "@ + show_list(items@, (depth - 1) as nat) + " ]"@
        },
        JsValue::MapObject(size, entries) => "Map("@ + nat_text(size as nat) + ")"@ + if depth == 0 {
            " { ... }"@
        } else {
            " { "@ + show_entries(entries@, (depth - 1) as nat) + " }"@
        },
        JsValue::SetObject(size, values) => "Set("@ + nat_text(size as nat) + ")"@ + if depth == 0 {
            " { ... }"@
        } else {
            " { "@ + show_list(values@, (depth - 1) as nat) + " }"@
        },
        JsValue::Date(iso) => match iso {
            Some(t) => "Date("@ + t@ + ")"@,
            None => "Date(Invalid)"@,
        },
        JsValue::Error(text) => match text {
            Some(t) => t@,
            None => "Error"@,
        },
        JsValue::PromiseUnknown => "Promise { }"@,
        JsValue::PromisePending => "Promise { 'pending' }"@,
        JsValue::PromiseResolved(r) => if depth == 0 {
            "Promise { ... }"@
        } else {
            match r {
                Some(b) => "Promise { "@ + show(*b, (depth - 1) as nat, true) + " }"@,
                None => "Promise { }"@,
            }
        },
        JsValue::PromiseRejected(r) => if depth == 0 {
            "Promise { ... }"@
        } else {
            match r {
                Some(b) => "Promise { <rejected> "@ + show(*b, (depth - 1) as nat, true) + " }"@,
                None => "Promise { <rejected> }"@,
            }
        },
        JsValue::Object(props) => if depth == 0 {
            "{ ... }"@
        } else {
            "{ "@ + show_props(props@, (depth - 1) as nat) + " }"@
        },
        JsValue::Unknown => "[object/unknown]"@,
    }
}

/// The values, quoted, separated by `", "`.
pub open spec fn show_list(items: Seq<JsValue>, depth: nat) -> Seq<char>
    decreases items,
{
    if items.len() == 0 {
        Seq::empty()
    } else if items.len() == 1 {
        show(items[0], depth, true)
    } else {
        show_list(items.drop_last(), depth) + ", "@ + show(items.last(), depth, true)
    }
}

/// The entries as `key => value`, separated by `", "`.
pub open spec fn show_entries(entries: Seq<(JsValue, JsValue)>, depth: nat) -> Seq<char>
    decreases entries,
{
    if entries.len() == 0 {
        Seq::empty()
    } else {
        let e = entries.last();
        let one = show(e.0, depth, true) + " => "@ + show(e.1, depth, true);
        if entries.len() == 1 {
            one
        } else {
            show_entries(entries.drop_last(), depth) + ", "@ + one
        }
    }
}

/// The properties as `key: value`, separated by `", "`.
pub open spec fn show_props(props: Seq<(String, JsValue)>, depth: nat) -> Seq<char>
    decreases props,
{
    if props.len() == 0 {
        Seq::empty()
    } else {
        let p = props.last();
        let one = p.0@ + ": "@ + show(p.1, depth, true);
        if props.len() == 1 {
            one
        } else {
            show_props(props.drop_last(), depth) + ", "@ + one
        }
    }
}

/// Each value followed by a space.
pub open spec fn show_args(args: Seq<JsValue>, depth: nat, quote: bool) -> Seq<char>
    decreases args.len(),
{
    if args.len() == 0 {
        Seq::empty()
    } else {
        show_args(args.drop_last(), depth, quote) + show(args.last(), depth, quote) + seq![' ']
    }
}

/// What the console prints never ends in whitespace, and is a prefix of
/// the text before trimming.
pub proof fn lemma_trim_end(s: Seq<char>)
    ensures
        trim_end(s).len() == 0 || !is_ws(trim_end(s).last()),
        trim_end(s).len() <= s.len(),
        trim_end(s) == s.take(trim_end(s).len() as int),
    decreases s.len(),
{
    if s.len() > 0 && is_ws(s.last()) {
        lemma_trim_end(s.drop_last());
        let k = trim_end(s.drop_last()).len() as int;
        assert(trim_end(s) == trim_end(s.drop_last()));
        assert(s.drop_last().take(k) =~= s.take(k));
    } else {
        assert(s.take(s.len() as int) =~= s);
    }
}

/// Appends a string slice.
fn push_str(out: &mut String, s: &str)
    ensures
        final(out)@ == old(out)@ + s@,
{
    out.append(s);
}

/// Appends the decimal text of `n`.
pub fn push_decimal(out: &mut String, n: u64)
    ensures
        final(out)@ == old(out)@ + nat_text(n as nat),
    decreases n,
{
    if n >= 10 {
        push_decimal(out, n / 10);
    }
    let d = n % 10;
    let c = if d == 0 {
        '0'
    } else if d == 1 {
        '1'
    } else if d == 2 {
        '2'
    } else if d == 3 {
        '3'
    } else if d == 4 {
        '4'
    } else if d == 5 {
        '5'
    } else if d == 6 {
        '6'
    } else if d == 7 {
        '7'
    } else if d == 8 {
        '8'
    } else {
        '9'
    };
    push_char(out, c);
}

/// Appends the decimal text of `n`, with a minus sign where it is negative.
pub fn push_int(out: &mut String, n: i32)
    ensures
        final(out)@ == old(out)@ + int_text(n as int),
{
    if n < 0 {
        push_char(out, '-');
        let m: i64 = -(n as i64);
        push_decimal(out, m as u64);
    } else {
        push_decimal(out, n as u64);
    }
}

/// `s` with backslash, double quote, newline, carriage return and tab
/// escaped by a backslash.
pub fn js_string(s: &str) -> (r: String)
    ensures
        r@ == escaped(s@),
{
    let cs = chars_of(s);
    let mut out = String::new();
    proof {
        assert(cs@.take(0) =~= Seq::<char>::empty());
    }
    for i in 0..cs.len()
        invariant
            cs@ == s@,
            out@ == escaped(cs@.take(i as int)),
    {
        let c = cs[i];
        proof {
            assert(cs@.take(i + 1).drop_last() =~= cs@.take(i as int));
        }
        if c == '\\' {
            push_char(&mut out, '\\');
            push_char(&mut out, '\\');
        } else if c == '"' {
            push_char(&mut out, '\\');
            push_char(&mut out, '"');
        } else if c == '\n' {
            push_char(&mut out, '\\');
            push_char(&mut out, 'n');
        } else if c == '\r' {
            push_char(&mut out, '\\');
            push_char(&mut out, 'r');
        } else if c == '\t' {
            push_char(&mut out, '\\');
            push_char(&mut out, 't');
        } else {
            push_char(&mut out, c);
        }
        proof {
            assert(out@ =~= escaped(cs@.take(i as int)) + escape_char(c));
        }
    }
    proof {
        assert(cs@.take(cs@.len() as int) =~= cs@);
    }
    out
}

/// `s` without its trailing whitespace.
pub fn trim_end_string(s: &str) -> (r: String)
    ensures
        r@ == trim_end(s@),
{
    let cs = chars_of(s);
    let mut n = cs.len();
    proof {
        assert(cs@.take(cs@.len() as int) =~= cs@);
    }
    while n > 0 && is_whitespace(cs[n - 1])
        invariant
            n <= cs@.len(),
            trim_end(cs@.take(n as int)) == trim_end(cs@),
        decreases n,
    {
        proof {
            assert(cs@.take(n as int).drop_last() =~= cs@.take(n - 1));
        }
        n = n - 1;
    }
    proof {
        assert(cs@.take(cs@.len() as int) =~= cs@);
        assert(cs@.subrange(0, n as int) =~= cs@.take(n as int));
    }
    string_of(&cs, 0, n)
}

/// Prints the arguments as the console does: each one `depth` levels deep,
/// strings quoted where `quote_str` holds, separated by spaces, with
/// trailing whitespace dropped.
pub fn convert_to_string(args: &Vec<JsValue>, depth: usize, quote_str: bool) -> (r: String)
    ensures
        r@ == trim_end(show_args(args@, depth as nat, quote_str)),
{
    let mut out = String::new();
    proof {
        assert(args@.take(0) =~= Seq::<JsValue>::empty());
    }
    for i in 0..args.len()
        invariant
            out@ == show_args(args@.take(i as int), depth as nat, quote_str),
    {
        proof {
            assert(args@.take(i + 1).drop_last() =~= args@.take(i as int));
        }
        format_one(&args[i], depth, quote_str, &mut out);
        push_char(&mut out, ' ');
    }
    proof {
        assert(args@.take(args@.len() as int) =~= args@);
    }
    trim_end_string(out.as_str())
}

/// The message of a failed `console.assert`: `assertion failed`, or the
/// other arguments as the console prints them, three levels deep.
pub fn assertion_message(args: &Vec<JsValue>) -> (m: String)
    ensures
        args@.len() == 0 ==> m@ == "assertion failed"@,
        args@.len() > 0 ==> m@ == trim_end(show_args(args@, 3, false)),
{
    if args.len() == 0 {
        String::from_str("assertion failed")
    } else {
        convert_to_string(args, 3, false)
    }
}

/// What a failed `console.assert` writes to standard error:
/// `ASSERTION FAILED: <message>`, a newline, and the stack trace.
pub fn assertion_report(message: &str, stack: &str) -> (r: String)
    ensures
        r@ == "ASSERTION FAILED: "@ + message@ + seq!['\n'] + stack@,
{
    let mut r = String::from_str("ASSERTION FAILED: ");
    r.append(message);
    push_char(&mut r, '\n');
    r.append(stack);
    r
}

/// Appends how `arg` prints, `depth` levels deep.
pub fn format_one(arg: &JsValue, depth: usize, quote_str: bool, out: &mut String)
    ensures
        final(out)@ == old(out)@ + show(*arg, depth as nat, quote_str),
    decreases arg, 2nat,
{
    match arg {
        JsValue::Undefined => push_str(out, "undefined"),
        JsValue::Null => push_str(out, "null"),
        JsValue::Bool(b) => format_bool(*b, out),
        JsValue::Int(_) | JsValue::Float(_) => format_number(arg, out),
        JsValue::Str(s) => format_string(s.as_str(), quote_str, out),
        JsValue::View(s) => {
            if quote_str {
                push_char(out, '"');
                push_str(out, s.as_str());
                push_char(out, '"');
            } else {
                push_str(out, s.as_str());
            }
        },
        JsValue::Function(name) => format_function(name, out),
        JsValue::Array(items) => format_array(items, depth, out),
        JsValue::MapObject(size, entries) => format_map(*size, entries, depth, out),
        JsValue::SetObject(size, values) => format_set(*size, values, depth, out),
        JsValue::Date(iso) => format_date(iso, out),
        JsValue::Error(text) => format_error(text, out),
        JsValue::PromiseUnknown => push_str(out, "Promise { }"),
        JsValue::PromisePending => push_str(out, "Promise { 'pending' }"),
        JsValue::PromiseResolved(_) | JsValue::PromiseRejected(_) => format_promise(arg, depth, out),
        JsValue::Object(props) => format_plain(props, depth, out),
        JsValue::Unknown => push_str(out, "[object/unknown]"),
    }
}

/// Appends a number: an integer in decimal, any other number as its text.
pub fn format_number(n: &JsValue, out: &mut String)
    requires
        n is Int || n is Float,
    ensures
        final(out)@ == old(out)@ + show(*n, 0, false),
{
    match n {
        JsValue::Int(i) => push_int(out, *i),
        JsValue::Float(t) => push_str(out, t.as_str()),
        _ => {},
    }
}

/// Appends a settled promise: `Promise { <result> }` or
/// `Promise { <rejected> <reason> }` (`Promise { ... }` at depth zero).
pub fn format_promise(p: &JsValue, depth: usize, out: &mut String)
    requires
        p is PromiseResolved || p is PromiseRejected,
    ensures
        final(out)@ == old(out)@ + show(*p, depth as nat, true),
    decreases p, 1nat,
{
    match p {
        JsValue::PromiseResolved(r) => {
            if depth == 0 {
                push_str(out, "Promise { ... }");
            } else {
                match r {
                    Some(b) => {
                        push_str(out, "Promise { ");
                        format_one(&**b, depth - 1, true, out);
                        push_str(out, " }");
                    },
                    None => push_str(out, "Promise { }"),
                }
            }
        },
        JsValue::PromiseRejected(r) => {
            if depth == 0 {
                push_str(out, "Promise { ... }");
            } else {
                match r {
                    Some(b) => {
                        push_str(out, "Promise { <rejected> ");
                        format_one(&**b, depth - 1, true, out);
                        push_str(out, " }");
                    },
                    None => push_str(out, "Promise { <rejected> }"),
                }
            }
        },
        _ => {},
    }
}

/// Appends `true` or `false`.
pub fn format_bool(b: bool, out: &mut String)
    ensures
        final(out)@ == old(out)@ + show(JsValue::Bool(b), 0, false),
{
    if b {
        push_str(out, "true");
    } else {
        push_str(out, "false");
    }
}

/// Appends a string, quoted and escaped where `quote_str` holds.
pub fn format_string(s: &str, quote_str: bool, out: &mut String)
    ensures
        final(out)@ == old(out)@ + (if quote_str {
            quoted(escaped(s@))
        } else {
            s@
        }),
{
    if quote_str {
        push_char(out, '"');
        let e = js_string(s);
        push_str(out, e.as_str());
        push_char(out, '"');
    } else {
        push_str(out, s);
    }
}

/// Appends `Function <name>`, the name being `anonymous` where it could not
/// be read.
pub fn format_function(name: &Option<String>, out: &mut String)
    ensures
        final(out)@ == old(out)@ + "Function "@ + match name {
            Some(n) => n@,
            None => "anonymous"@,
        },
{
    push_str(out, "Function ");
    match name {
        Some(n) => push_str(out, n.as_str()),
        None => push_str(out, "anonymous"),
    }
}

/// Appends an array: `[ a, b ]`, or `[ ... ]` at depth zero.
pub fn format_array(items: &Vec<JsValue>, depth: usize, out: &mut String)
    ensures
        final(out)@ == old(out)@ + (if depth == 0 {
            "[ ... ]"@
        } else {
            "[ "@ + show_list(items@, (depth - 1) as nat) + " ]"@
        }),
    decreases items, 1nat,
{
    if depth == 0 {
        push_str(out, "[ ... ]");
        return;
    }
    push_str(out, "[ ");
    format_items(items, depth - 1, out);
    push_str(out, " ]");
}

/// Appends the values, quoted, separated by `", "`.
fn format_items(items: &Vec<JsValue>, depth: usize, out: &mut String)
    ensures
        final(out)@ == old(out)@ + show_list(items@, depth as nat),
    decreases items, 0nat,
{
    let ghost start = out@;
    proof {
        assert(items@.take(0) =~= Seq::<JsValue>::empty());
    }
    for i in 0..items.len()
        invariant
            out@ == start + show_list(items@.take(i as int), depth as nat),
    {
        proof {
            assert(items@.take(i + 1).drop_last() =~= items@.take(i as int));
        }
        if i > 0 {
            push_str(out, ", ");
        }
        format_one(&items[i], depth, true, out);
    }
    proof {
        assert(items@.take(items@.len() as int) =~= items@);
    }
}

/// Appends a map: `Map(n) { k => v, ... }`, or `Map(n) { ... }` at depth
/// zero.
pub fn format_map(size: u32, entries: &Vec<(JsValue, JsValue)>, depth: usize, out: &mut String)
    ensures
        final(out)@ == old(out)@ + show(JsValue::MapObject(size, *entries), depth as nat, true),
    decreases entries, 0nat,
{
    let ghost start0 = out@;
    push_str(out, "Map(");
    push_decimal(out, size as u64);
    push_str(out, ")");
    if depth == 0 {
        push_str(out, " { ... }");
        assert(out@ =~= start0 + ("Map("@ + nat_text(size as nat) + ")"@ + " { ... }"@));
        return;
    }
    push_str(out, " { ");
    let ghost start = out@;
    proof {
        assert(entries@.take(0) =~= Seq::<(JsValue, JsValue)>::empty());
    }
    for i in 0..entries.len()
        invariant
            out@ == start + show_entries(entries@.take(i as int), (depth - 1) as nat),
            depth > 0,
    {
        proof {
            assert(entries@.take(i + 1).drop_last() =~= entries@.take(i as int));
        }
        if i > 0 {
            push_str(out, ", ");
        }
        format_one(&entries[i].0, depth - 1, true, out);
        push_str(out, " => ");
        format_one(&entries[i].1, depth - 1, true, out);
    }
    proof {
        assert(entries@.take(entries@.len() as int) =~= entries@);
    }
    push_str(out, " }");
    assert(out@ =~= start0 + ("Map("@ + nat_text(size as nat) + ")"@ + (" { "@ + show_entries(
        entries@,
        (depth - 1) as nat,
    ) + " }"@)));
}

/// Appends a set: `Set(n) { a, b }`, or `Set(n) { ... }` at depth zero.
pub fn format_set(size: u32, values: &Vec<JsValue>, depth: usize, out: &mut String)
    ensures
        final(out)@ == old(out)@ + show(JsValue::SetObject(size, *values), depth as nat, true),
    decreases values, 1nat,
{
    let ghost start0 = out@;
    push_str(out, "Set(");
    push_decimal(out, size as u64);
    push_str(out, ")");
    if depth == 0 {
        push_str(out, " { ... }");
        assert(out@ =~= start0 + ("Set("@ + nat_text(size as nat) + ")"@ + " { ... }"@));
        return;
    }
    push_str(out, " { ");
    format_items(values, depth - 1, out);
    push_str(out, " }");
    assert(out@ =~= start0 + ("Set("@ + nat_text(size as nat) + ")"@ + (" { "@ + show_list(
        values@,
        (depth - 1) as nat,
    ) + " }"@)));
}

/// Appends `Date(<iso>)`, or `Date(Invalid)` where `toISOString()` failed.
pub fn format_date(iso: &Option<String>, out: &mut String)
    ensures
        final(out)@ == old(out)@ + show(JsValue::Date(*iso), 0, true),
{
    match iso {
        Some(t) => {
            let ghost start0 = out@;
            push_str(out, "Date(");
            push_str(out, t.as_str());
            push_str(out, ")");
            assert(out@ =~= start0 + ("Date("@ + t@ + ")"@));
        },
        None => push_str(out, "Date(Invalid)"),
    }
}

/// Appends what the error's `toString()` returned, or `Error`.
pub fn format_error(text: &Option<String>, out: &mut String)
    ensures
        final(out)@ == old(out)@ + show(JsValue::Error(*text), 0, true),
{
    match text {
        Some(t) => push_str(out, t.as_str()),
        None => push_str(out, "Error"),
    }
}

/// Appends a plain object: `{ k: v, ... }`, or `{ ... }` at depth zero.
pub fn format_plain(props: &Vec<(String, JsValue)>, depth: usize, out: &mut String)
    ensures
        final(out)@ == old(out)@ + show(JsValue::Object(*props), depth as nat, true),
    decreases props, 0nat,
{
    if depth == 0 {
        push_str(out, "{ ... }");
        return;
    }
    push_str(out, "{ ");
    let ghost start = out@;
    proof {
        assert(props@.take(0) =~= Seq::<(String, JsValue)>::empty());
    }
    for i in 0..props.len()
        invariant
            out@ == start + show_props(props@.take(i as int), (depth - 1) as nat),
            depth > 0,
    {
        proof {
            assert(props@.take(i + 1).drop_last() =~= props@.take(i as int));
        }
        if i > 0 {
            push_str(out, ", ");
        }
        push_str(out, props[i].0.as_str());
        push_str(out, ": ");
        format_one(&props[i].1, depth - 1, true, out);
    }
    proof {
        assert(props@.take(props@.len() as int) =~= props@);
    }
    push_str(out, " }");
}

} // verus!
