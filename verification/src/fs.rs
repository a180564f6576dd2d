use vstd::prelude::*;
use vstd::string::StrSliceExecFns;
use vstd::utf8::{decode_utf8, valid_utf8};

use crate::codec::{
    base64_standard, base64_text, base64_url_no_pad, decode_windows_1252, hex_encode, hex_text,
    string_from_utf8, utf8_error_text, windows_1252_text,
};
use crate::error::{code_text, IoErrorKind, SystemError};
use crate::unicode::{chars_of, str_eq, string_of};

verus! {

/// How file contents are handed back.
#[derive(Debug, Clone, Copy, PartialEq, Eq, Structural)]
pub enum Encoding {
    Utf8,
    Ascii,
    Latin1,
    Binary,
    Base64,
    Base64Url,
    Hex,
    Buffer,
}

/// Why a file operation failed.
#[derive(Debug, Clone, PartialEq, Eq)]
pub enum Error {
    /// A failed system call.
    System { code: &'static str, syscall: &'static str, message: String, path: Option<String> },
    /// An encoding that is not supported, or bytes that do not decode.
    Encoding(String),
    /// An argument out of range.
    Argument(String),
}

impl Error {
    /// The error for an I/O error of kind `kind` raised by `syscall`.
    pub fn from_io(kind: IoErrorKind, message: String, syscall: &'static str, path: Option<String>) -> (e: Self)
        ensures
            e matches Error::System { code, syscall: sc, message: m, path: p } && code@ == code_text(kind)
                && sc == syscall && m == message && p == path,
    {
        let s = SystemError::from_io(kind, message, syscall, path);
        Error::System { code: s.code, syscall: s.syscall, message: s.message, path: s.path }
    }

    /// The error wrapping a [`SystemError`].
    pub fn system(e: SystemError) -> (r: Self)
        ensures
            r == (Error::System { code: e.code, syscall: e.syscall, message: e.message, path: e.path }),
    {
        Error::System { code: e.code, syscall: e.syscall, message: e.message, path: e.path }
    }
}

/// The encoding that a name stands for, if any.
pub open spec fn encoding_named(s: Seq<char>) -> Option<Encoding> {
    if s == "buffer"@ || s == "null"@ {
        Some(Encoding::Buffer)
    } else if s == "utf-8"@ || s == "utf8"@ {
        Some(Encoding::Utf8)
    } else if s == "ascii"@ {
        Some(Encoding::Ascii)
    } else if s == "latin1"@ || s == "binary"@ {
        Some(Encoding::Latin1)
    } else if s == "base64"@ {
        Some(Encoding::Base64)
    } else if s == "base64url"@ {
        Some(Encoding::Base64Url)
    } else if s == "hex"@ {
        Some(Encoding::Hex)
    } else {
        None
    }
}

impl Encoding {
    /// Reads an encoding name; none means a buffer. An unknown name is an
    /// `Unsupported encoding: <name>` error.
    pub fn from_opt(s: Option<&str>) -> (r: Result<Self, Error>)
        ensures
            s is None ==> r == Ok::<Encoding, Error>(Encoding::Buffer),
            s matches Some(n) ==> match encoding_named(n@) {
                Some(e) => r == Ok::<Encoding, Error>(e),
                None => r matches Err(Error::Encoding(m)) && m@ == "Unsupported encoding: "@ + n@,
            },
    {
        let name = match s {
            None => return Ok(Encoding::Buffer),
            Some(n) => n,
        };
        if str_eq(name, "buffer") || str_eq(name, "null") {
            Ok(Encoding::Buffer)
        } else if str_eq(name, "utf-8") || str_eq(name, "utf8") {
            Ok(Encoding::Utf8)
        } else if str_eq(name, "ascii") {
            Ok(Encoding::Ascii)
        } else if str_eq(name, "latin1") || str_eq(name, "binary") {
            Ok(Encoding::Latin1)
        } else if str_eq(name, "base64") {
            Ok(Encoding::Base64)
        } else if str_eq(name, "base64url") {
            Ok(Encoding::Base64Url)
        } else if str_eq(name, "hex") {
            Ok(Encoding::Hex)
        } else {
            let mut m = String::from_str("Unsupported encoding: ");
            m.append(name);
            Err(Error::Encoding(m))
        }
    }
}

/// What reading a file hands back: its bytes, or text.
#[derive(Debug, Clone, PartialEq, Eq)]
pub enum FileContent {
    Buffer(Vec<u8>),
    Text(String),
}

/// The content of a file with bytes `raw`, read with `encoding`.
pub open spec fn decoded(raw: Seq<u8>, encoding: Encoding, r: Result<FileContent, Error>) -> bool {
    match encoding {
        Encoding::Buffer => r matches Ok(FileContent::Buffer(b)) && b@ == raw,
        Encoding::Utf8 => if valid_utf8(raw) {
            r matches Ok(FileContent::Text(t)) && t@ == decode_utf8(raw)
        } else {
            r matches Err(Error::Encoding(m)) && m@ == utf8_error_text(raw)
        },
        Encoding::Ascii | Encoding::Latin1 | Encoding::Binary => r matches Ok(FileContent::Text(t)) && t@
            == windows_1252_text(raw),
        Encoding::Base64 => r matches Ok(FileContent::Text(t)) && t@ == base64_text(raw, false, true),
        Encoding::Base64Url => r matches Ok(FileContent::Text(t)) && t@ == base64_text(raw, true, false),
        Encoding::Hex => r matches Ok(FileContent::Text(t)) && t@ == hex_text(raw),
    }
}

/// The content of a file that was read as `raw`, in the encoding asked for:
/// the bytes; UTF-8 text (an error where they are no UTF-8); windows-1252
/// text (for `ascii`, `latin1` and `binary`); base64, URL-safe base64
/// without padding, or lowercase hex.
pub fn decode_content(raw: Vec<u8>, encoding: Encoding) -> (r: Result<FileContent, Error>)
    requires
        raw@.len() <= usize::MAX / 4,
    ensures
        decoded(raw@, encoding, r),
{
    match encoding {
        Encoding::Buffer => Ok(FileContent::Buffer(raw)),
        Encoding::Utf8 => match string_from_utf8(raw) {
            Ok(s) => Ok(FileContent::Text(s)),
            Err(m) => Err(Error::Encoding(m)),
        },
        Encoding::Ascii | Encoding::Latin1 | Encoding::Binary => Ok(
            FileContent::Text(decode_windows_1252(raw.as_slice())),
        ),
        Encoding::Base64 => Ok(FileContent::Text(base64_standard(raw.as_slice()))),
        Encoding::Base64Url => Ok(FileContent::Text(base64_url_no_pad(raw.as_slice()))),
        Encoding::Hex => Ok(FileContent::Text(hex_encode(raw.as_slice()))),
    }
}

/// How a file is opened for writing.
#[derive(Debug, Clone, Copy, PartialEq, Eq, Structural)]
pub enum WriteMode {
    /// Created if missing, emptied.
    Truncate,
    /// Created if missing, written at the end.
    Append,
    /// Created if missing, read and written in place.
    ReadWrite,
}

/// `openWrite(path, flags)`: `w` truncates, `a` (the default) appends, `rw`
/// reads and writes in place; anything else is an argument error.
pub fn open_write_mode(flags: Option<&str>) -> (r: Result<WriteMode, Error>)
    ensures
        flags is None ==> r == Ok::<WriteMode, Error>(WriteMode::Append),
        flags matches Some(f) ==> if f@ == "w"@ {
            r == Ok::<WriteMode, Error>(WriteMode::Truncate)
        } else if f@ == "a"@ {
            r == Ok::<WriteMode, Error>(WriteMode::Append)
        } else if f@ == "rw"@ {
            r == Ok::<WriteMode, Error>(WriteMode::ReadWrite)
        } else {
            r matches Err(Error::Argument(m)) && m@ == "invalid flags: '"@ + f@ + "', expected 'w', 'a', or 'rw'"@
        },
{
    let f = match flags {
        Some(f) => f,
        None => "a",
    };
    proof {
        reveal_strlit("a");
        reveal_strlit("w");
        if flags is None {
            assert(f@[0] != "w"@[0]);
        }
    }
    if str_eq(f, "w") {
        Ok(WriteMode::Truncate)
    } else if str_eq(f, "a") {
        Ok(WriteMode::Append)
    } else if str_eq(f, "rw") {
        Ok(WriteMode::ReadWrite)
    } else {
        let mut m = String::from_str("invalid flags: '");
        m.append(f);
        m.append("', expected 'w', 'a', or 'rw'");
        Err(Error::Argument(m))
    }
}

/// `writeFile(path, data, flag)`: `w` (the default) truncates, `a` appends;
/// anything else is an argument error.
pub fn write_file_mode(flag: Option<&str>) -> (r: Result<WriteMode, Error>)
    ensures
        flag is None ==> r == Ok::<WriteMode, Error>(WriteMode::Truncate),
        flag matches Some(f) ==> if f@ == "w"@ {
            r == Ok::<WriteMode, Error>(WriteMode::Truncate)
        } else if f@ == "a"@ {
            r == Ok::<WriteMode, Error>(WriteMode::Append)
        } else {
            r matches Err(Error::Argument(m)) && m@ == "invalid flag: '"@ + f@ + "', expected 'w' or 'a'"@
        },
{
    let f = match flag {
        Some(f) => f,
        None => "w",
    };
    if str_eq(f, "w") {
        Ok(WriteMode::Truncate)
    } else if str_eq(f, "a") {
        Ok(WriteMode::Append)
    } else {
        let mut m = String::from_str("invalid flag: '");
        m.append(f);
        m.append("', expected 'w' or 'a'");
        Err(Error::Argument(m))
    }
}

/// Data handed to a write: a byte buffer, an `ArrayBuffer` (whose bytes may
/// not be readable, when it was detached), a string, or something else.
pub enum WriteData {
    ByteBuffer(Vec<u8>),
    ArrayBuffer(Option<Vec<u8>>),
    Text(String),
    Other,
}

/// Why data could not be written.
#[derive(Debug, Clone, Copy, PartialEq, Eq, Structural)]
pub enum DataError {
    /// The `ArrayBuffer`'s bytes could not be read.
    ArrayBufferUnreadable,
    /// Neither a byte buffer, a string nor an `ArrayBuffer`.
    Unsupported,
}

/// The bytes that a write writes: a buffer's bytes, or a string's UTF-8
/// bytes.
pub fn write_data_bytes(data: WriteData) -> (r: Result<Vec<u8>, DataError>)
    ensures
        match data {
            WriteData::ByteBuffer(b) => r == Ok::<Vec<u8>, DataError>(b),
            WriteData::ArrayBuffer(Some(b)) => r == Ok::<Vec<u8>, DataError>(b),
            WriteData::ArrayBuffer(None) => r == Err::<Vec<u8>, DataError>(DataError::ArrayBufferUnreadable),
            WriteData::Text(s) => r matches Ok(v) && v@ == vstd::utf8::encode_utf8(s@),
            WriteData::Other => r == Err::<Vec<u8>, DataError>(DataError::Unsupported),
        },
{
    match data {
        WriteData::ByteBuffer(b) => Ok(b),
        WriteData::ArrayBuffer(Some(b)) => Ok(b),
        WriteData::ArrayBuffer(None) => Err(DataError::ArrayBufferUnreadable),
        WriteData::Text(s) => Ok(s.as_str().as_bytes_vec()),
        WriteData::Other => Err(DataError::Unsupported),
    }
}

/// The part of a buffer of `len` bytes that `writeFrom(buffer, offset,
/// length)` writes: it starts at `offset` (0 where none is given) and takes
/// `length` bytes (all the rest where none is given), both cut to fit.
/// Returns the start and the count.
pub fn write_range(len: usize, offset: Option<usize>, length: Option<usize>) -> (r: (usize, usize))
    ensures
        r.0 == (match offset {
            Some(o) => if o < len {
                o
            } else {
                len
            },
            None => 0,
        }),
        r.1 == (match length {
            Some(n) => if n < len - r.0 {
                n
            } else {
                (len - r.0) as usize
            },
            None => (len - r.0) as usize,
        }),
        r.0 + r.1 <= len,
{
    let offset = match offset {
        Some(o) => if o < len {
            o
        } else {
            len
        },
        None => 0,
    };
    let rest = len - offset;
    let length = match length {
        Some(n) => if n < rest {
            n
        } else {
            rest
        },
        None => rest,
    };
    (offset, length)
}

/// Where `seek(offset, whence)` moves a write handle.
#[derive(Debug, Clone, Copy, PartialEq, Eq, Structural)]
pub enum SeekPlan {
    /// A handle in append mode does not move; the call returns 0.
    Stay,
    /// From the start; a negative offset is taken as its two's complement.
    Start(u64),
    /// From the current position.
    Current(i64),
    /// From the end.
    End(i64),
    /// `whence` is none of `start`, `current` and `end`.
    BadWhence,
}

/// Decides a seek: append mode stays; otherwise `whence` picks where the
/// offset counts from.
pub fn seek_plan(append: bool, offset: i64, whence: &str) -> (p: SeekPlan)
    ensures
        append ==> p == SeekPlan::Stay,
        !append ==> p == (if whence@ == "start"@ {
            SeekPlan::Start(offset as u64)
        } else if whence@ == "current"@ {
            SeekPlan::Current(offset)
        } else if whence@ == "end"@ {
            SeekPlan::End(offset)
        } else {
            SeekPlan::BadWhence
        }),
{
    if append {
        return SeekPlan::Stay;
    }
    if str_eq(whence, "start") {
        SeekPlan::Start(offset as u64)
    } else if str_eq(whence, "current") {
        SeekPlan::Current(offset)
    } else if str_eq(whence, "end") {
        SeekPlan::End(offset)
    } else {
        SeekPlan::BadWhence
    }
}

/// What a directory walk yields an entry as.
#[derive(Clone, Copy, Debug, PartialEq, Eq, Structural)]
pub enum WalkResType {
    Dir,
    File,
}

/// Which entries a walk yields.
#[derive(Clone, Copy, Debug, PartialEq, Eq, Structural)]
pub enum GlobFilter {
    All,
    FilesOnly,
    DirsOnly,
}

impl Default for GlobFilter {
    fn default() -> (f: Self)
        ensures
            f == GlobFilter::All,
    {
        GlobFilter::All
    }
}

/// The filter that a name stands for: `all`, `files` or `directories`.
pub open spec fn filter_named(s: Seq<char>) -> Option<GlobFilter> {
    if s == "all"@ {
        Some(GlobFilter::All)
    } else if s == "files"@ {
        Some(GlobFilter::FilesOnly)
    } else if s == "directories"@ {
        Some(GlobFilter::DirsOnly)
    } else {
        None
    }
}

impl GlobFilter {
    pub open spec fn admits(self, is_dir: bool) -> bool {
        match self {
            GlobFilter::All => true,
            GlobFilter::FilesOnly => !is_dir,
            GlobFilter::DirsOnly => is_dir,
        }
    }

    /// Whether an entry (a directory where `is_dir`) passes the filter.
    pub fn matches(&self, is_dir: bool) -> (b: bool)
        ensures
            b == self.admits(is_dir),
    {
        match self {
            GlobFilter::All => true,
            GlobFilter::FilesOnly => !is_dir,
            GlobFilter::DirsOnly => is_dir,
        }
    }

    /// Reads the `filter` option: `all` (also where it is missing), `files`
    /// or `directories`; anything else is an error with a message.
    pub fn from_js(value: Option<String>) -> (r: Result<Self, String>)
        ensures
            value is None ==> r == Ok::<GlobFilter, String>(GlobFilter::All),
            value matches Some(s) ==> match filter_named(s@) {
                Some(f) => r == Ok::<GlobFilter, String>(f),
                None => r matches Err(m) && m@ == "filter must be \"all\", \"files\", or \"directories\""@,
            },
    {
        match value {
            None => Ok(GlobFilter::All),
            Some(s) => {
                if str_eq(s.as_str(), "all") {
                    Ok(GlobFilter::All)
                } else if str_eq(s.as_str(), "files") {
                    Ok(GlobFilter::FilesOnly)
                } else if str_eq(s.as_str(), "directories") {
                    Ok(GlobFilter::DirsOnly)
                } else {
                    Err(String::from_str("filter must be \"all\", \"files\", or \"directories\""))
                }
            },
        }
    }
}

/// `s` without its leading copies of `c`.
pub open spec fn trim_start_char(s: Seq<char>, c: char) -> Seq<char>
    decreases s.len(),
{
    if s.len() > 0 && s[0] == c {
        trim_start_char(s.drop_first(), c)
    } else {
        s
    }
}

/// `s` without its trailing copies of `c`.
pub open spec fn trim_end_char(s: Seq<char>, c: char) -> Seq<char>
    decreases s.len(),
{
    if s.len() > 0 && s.last() == c {
        trim_end_char(s.drop_last(), c)
    } else {
        s
    }
}

/// `PathBuf::join` of a base without trailing slash and a relative part: a
/// slash between them unless the base is empty.
pub open spec fn join_path(base: Seq<char>, rel: Seq<char>) -> Seq<char> {
    if base.len() == 0 {
        rel
    } else {
        base + seq!['/'] + rel
    }
}

/// `~`, `~/` and `~/<rest>` with the home directory `home` (trailing slashes
/// dropped) in place of `~`; any other path, or any path where the home
/// directory is unknown, unchanged.
pub open spec fn expanded(path: Seq<char>, home: Option<Seq<char>>) -> Seq<char> {
    if path.len() > 0 && path[0] == '~' && home is Some {
        let h = trim_end_char(home->0, '/');
        let rest = path.drop_first();
        if rest.len() == 0 {
            h
        } else if rest[0] == '/' {
            let t = trim_start_char(rest, '/');
            if t.len() == 0 {
                h
            } else {
                join_path(h, t)
            }
        } else {
            path
        }
    } else {
        path
    }
}

fn skip_leading(cs: &Vec<char>, from: usize, c: char) -> (k: usize)
    requires
        from <= cs@.len(),
    ensures
        from <= k <= cs@.len(),
        trim_start_char(cs@.subrange(from as int, cs@.len() as int), c) == cs@.subrange(k as int, cs@.len() as int),
{
    let mut k = from;
    while k < cs.len() && cs[k] == c
        invariant
            from <= k <= cs@.len(),
            trim_start_char(cs@.subrange(from as int, cs@.len() as int), c) == trim_start_char(
                cs@.subrange(k as int, cs@.len() as int),
                c,
            ),
        decreases cs@.len() - k,
    {
        proof {
            assert(cs@.subrange(k as int, cs@.len() as int).drop_first() =~= cs@.subrange(k + 1, cs@.len() as int));
        }
        k = k + 1;
    }
    k
}

fn skip_trailing(cs: &Vec<char>, c: char) -> (n: usize)
    ensures
        n <= cs@.len(),
        trim_end_char(cs@, c) == cs@.subrange(0, n as int),
{
    let mut n = cs.len();
    proof {
        assert(cs@.subrange(0, cs@.len() as int) =~= cs@);
    }
    while n > 0 && cs[n - 1] == c
        invariant
            n <= cs@.len(),
            trim_end_char(cs@, c) == trim_end_char(cs@.subrange(0, n as int), c),
        decreases n,
    {
        proof {
            assert(cs@.subrange(0, n as int).drop_last() =~= cs@.subrange(0, n - 1));
        }
        n = n - 1;
    }
    n
}

/// Expands a leading `~` with the home directory `home` (`None` where it is
/// unknown).
pub fn expand_home_with(path: &str, home: Option<String>) -> (r: String)
    ensures
        r@ == expanded(
            path@,
            match home {
                Some(h) => Some(h@),
                None => None,
            },
        ),
{
    let cs = chars_of(path);
    if cs.len() == 0 || cs[0] != '~' {
        return string_of(&cs, 0, cs.len());
    }
    let h = match home {
        Some(h) => h,
        None => return string_of(&cs, 0, cs.len()),
    };
    let hs = chars_of(h.as_str());
    let hn = skip_trailing(&hs, '/');
    let home_trimmed = string_of(&hs, 0, hn);
    proof {
        assert(cs@.drop_first() =~= cs@.subrange(1, cs@.len() as int));
        assert(cs@.subrange(0, cs@.len() as int) =~= cs@);
    }
    if cs.len() == 1 {
        return home_trimmed;
    }
    if cs[1] != '/' {
        return string_of(&cs, 0, cs.len());
    }
    let k = skip_leading(&cs, 1, '/');
    if k == cs.len() {
        return home_trimmed;
    }
    let t = string_of(&cs, k, cs.len());
    if hn == 0 {
        return t;
    }
    let mut out = home_trimmed;
    out.append("/");
    out.append(t.as_str());
    proof {
        reveal_strlit("/");
        assert(out@ =~= join_path(hs@.subrange(0, hn as int), cs@.subrange(k as int, cs@.len() as int)));
    }
    out
}

/// Calls `dirs::home_dir`, converting the path lossily to a string. What it
/// returns depends on the environment: nothing is stated of it.
#[verifier::external_body]
fn home_dir_text() -> (r: Option<String>) {
    dirs::home_dir().map(|p| p.to_string_lossy().into_owned())
}

/// `expandHome(path)`: a leading `~` stands for the current user's home
/// directory. A path that does not start with `~` comes back unchanged; any
/// other comes back expanded with whatever home directory the system
/// reports.
pub fn expand_home(path: &str) -> (r: String)
    ensures
        exists|home: Option<Seq<char>>| r@ == expanded(path@, home),
        !(path@.len() > 0 && path@[0] == '~') ==> r@ == path@,
{
    let cs = chars_of(path);
    let home = if cs.len() > 0 && cs[0] == '~' {
        home_dir_text()
    } else {
        None
    };
    let ghost h = match &home {
        Some(h) => Some(h@),
        None => None,
    };
    let r = expand_home_with(path, home);
    assert(r@ == expanded(path@, h));
    r
}


/// The file attribute bits that stats report: archive, hidden and system.
pub enum FileAttribute {
    Archive,
    Hidden,
    System,
}

/// The bit of each reported file attribute.
pub open spec fn attribute_bit(a: FileAttribute) -> u32 {
    match a {
        FileAttribute::Archive => 0x20,
        FileAttribute::Hidden => 0x2,
        FileAttribute::System => 0x4,
    }
}

/// Whether the attribute word `attrs` of a file has the attribute `a` set.
pub fn has_attribute(attrs: u32, a: FileAttribute) -> (b: bool)
    ensures
        b == (attrs & attribute_bit(a) != 0),
{
    let bit: u32 = match a {
        FileAttribute::Archive => 0x20,
        FileAttribute::Hidden => 0x2,
        FileAttribute::System => 0x4,
    };
    attrs & bit != 0
}

/// The `filter` option means what it says: `all` takes every entry,
/// `files` exactly the entries that are no directory, `directories`
/// exactly the directories; no other name is a filter.
pub proof fn lemma_filter_meaning(is_dir: bool, s: Seq<char>)
    ensures
        filter_named("all"@) == Some(GlobFilter::All),
        filter_named("files"@) == Some(GlobFilter::FilesOnly),
        filter_named("directories"@) == Some(GlobFilter::DirsOnly),
        GlobFilter::All.admits(is_dir),
        GlobFilter::FilesOnly.admits(is_dir) == !is_dir,
        GlobFilter::DirsOnly.admits(is_dir) == is_dir,
        filter_named(s) is Some ==> (s == "all"@ || s == "files"@ || s == "directories"@),
{
    reveal_strlit("all");
    reveal_strlit("files");
    reveal_strlit("directories");
    assert("all"@.len() == 3 && "files"@.len() == 5 && "directories"@.len() == 11);
}

/// How `~` expands, for any home directory `h` and any relative path `t`:
/// `~` and `~/` are the home itself (without its trailing `/`s), `~/t` is
/// `t` under the home, however many `/`s follow the `~`, and a trailing `/`
/// of the home changes nothing; without a home, or without a leading `~`,
/// the path stays as it is.
pub proof fn lemma_expand_home_laws(h: Seq<char>, t: Seq<char>, p: Seq<char>)
    requires
        t.len() > 0,
        t[0] != '/',
    ensures
        expanded(seq!['~'], Some(h)) == trim_end_char(h, '/'),
        expanded(seq!['~', '/'], Some(h)) == trim_end_char(h, '/'),
        expanded(seq!['~', '/'] + t, Some(h)) == join_path(trim_end_char(h, '/'), t),
        expanded(seq!['~', '/', '/'] + t, Some(h)) == expanded(seq!['~', '/'] + t, Some(h)),
        expanded(seq!['~', '/'] + t, Some(h.push('/'))) == expanded(seq!['~', '/'] + t, Some(h)),
        expanded(p, None) == p,
        !(p.len() > 0 && p[0] == '~') ==> expanded(p, Some(h)) == p,
{
    let a = seq!['~', '/'] + t;
    let b = seq!['~', '/', '/'] + t;
    assert(a.drop_first() =~= seq!['/'] + t);
    assert(b.drop_first() =~= seq!['/', '/'] + t);
    assert((seq!['/'] + t).drop_first() =~= t);
    assert((seq!['/', '/'] + t).drop_first() =~= seq!['/'] + t);
    assert(trim_start_char(t, '/') == t);
    assert(trim_start_char(seq!['/'] + t, '/') == t);
    assert(trim_start_char(seq!['/', '/'] + t, '/') == t);
    assert(seq!['~', '/'].drop_first() =~= seq!['/']);
    assert(seq!['/'].drop_first() =~= Seq::<char>::empty());
    assert(trim_start_char(Seq::<char>::empty(), '/') == Seq::<char>::empty());
    assert(seq!['/'][0] == '/');
    assert(trim_start_char(seq!['/'], '/') == trim_start_char(Seq::<char>::empty(), '/'));
    assert(seq!['~'].drop_first() =~= Seq::<char>::empty());
    assert(h.push('/').drop_last() =~= h);
    assert(trim_end_char(h.push('/'), '/') == trim_end_char(h, '/'));
}

} // verus!
