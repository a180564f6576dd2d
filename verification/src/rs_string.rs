use vstd::prelude::*;
use vstd::string::*;

use crate::unicode::{
    byte_offset, char_index_of, char_width, chars_of, is_boundary, is_whitespace, is_ws,
    lemma_byte_offset_monotone, lemma_char_index_of, lemma_utf8_len_subrange_le,
    lemma_utf8_len_take_le, lemma_utf8_len_take_step, matches_at, matches_at_exec, str_byte_len,
    utf8_len,
};

verus! {

/// An immutable view into a shared string: the chars of `inner` from char
/// index `start` up to `end`.
pub struct RsString {
    inner: String,
    start: usize,
    end: usize,
}

impl View for RsString {
    type V = Seq<char>;

    closed spec fn view(&self) -> Seq<char> {
        self.inner@.subrange(self.start as int, self.end as int)
    }
}

/// JavaScript's reading of an index that may count from the end.
pub open spec fn from_end(i: int, len: int) -> int {
    if i < 0 {
        i + len
    } else {
        i
    }
}

/// Clamps `x` into `[lo, hi]`.
pub open spec fn clamp(x: int, lo: int, hi: int) -> int {
    if x < lo {
        lo
    } else if x > hi {
        hi
    } else {
        x
    }
}

/// Byte bounds that `substring(start, end)` selects in a view of `len` bytes.
pub open spec fn substring_bounds(len: int, start: int, end: Option<usize>) -> (int, int) {
    let e = match end {
        Some(e) => e as int,
        None => len,
    };
    let be = if e < len {
        e
    } else {
        len
    };
    let bs = if start < be {
        start
    } else {
        be
    };
    (bs, be)
}

/// Byte bounds that `slice(start, end)` selects in a view of `len` bytes.
pub open spec fn slice_bounds(len: int, start: int, end: Option<isize>) -> (int, int) {
    let s = clamp(from_end(start, len), 0, len);
    let e = match end {
        Some(e) => clamp(from_end(e as int, len), 0, len),
        None => len,
    };
    (s, if e < s {
        s
    } else {
        e
    })
}

/// Char range `[from, to)` that `substr(start, length)` selects from `len` chars.
pub open spec fn substr_range(len: int, start: int, length: Option<isize>) -> (int, int) {
    let s = clamp(from_end(start, len), 0, len);
    let n = match length {
        Some(l) => if l <= 0 {
            0
        } else if l < len - s {
            l as int
        } else {
            len - s
        },
        None => len - s,
    };
    if n == 0 {
        (0, 0)
    } else {
        (s, s + n)
    }
}

/// `k` chars of whitespace start `s`, and no more.
pub open spec fn leading_ws(s: Seq<char>, k: int) -> bool {
    &&& 0 <= k <= s.len()
    &&& forall|j: int| 0 <= j < k ==> is_ws(#[trigger] s[j])
    &&& k < s.len() ==> !is_ws(s[k])
}

/// `k` chars of whitespace end `s`, and no more.
pub open spec fn trailing_ws(s: Seq<char>, k: int) -> bool {
    &&& 0 <= k <= s.len()
    &&& forall|j: int| s.len() - k <= j < s.len() ==> is_ws(#[trigger] s[j])
    &&& k < s.len() ==> !is_ws(s[s.len() - k - 1])
}

/// `s` is non-empty and made of whitespace only.
pub open spec fn all_ws(s: Seq<char>) -> bool {
    s.len() > 0 && forall|j: int| 0 <= j < s.len() ==> is_ws(#[trigger] s[j])
}

/// The first match of `pat` in `s` at or after char index `from` is at `k`.
pub open spec fn first_match_from(s: Seq<char>, pat: Seq<char>, from: int, k: int) -> bool {
    &&& from <= k
    &&& matches_at(s, pat, k)
    &&& forall|j: int| from <= j < k ==> !matches_at(s, pat, j)
}

/// The last match of `pat` in `s` that ends at or before char index `to` is at `k`.
pub open spec fn last_match_before(s: Seq<char>, pat: Seq<char>, to: int, k: int) -> bool {
    &&& k + pat.len() <= to
    &&& matches_at(s, pat, k)
    &&& forall|j: int| k < j && j + pat.len() <= to ==> !matches_at(s, pat, j)
}

/// The pad run of `n` chars that repeats `pad` from its start.
pub open spec fn pad_run(pad: Seq<char>, n: nat) -> Seq<char> {
    Seq::new(n, |i: int| pad[i % (pad.len() as int)])
}

/// `count` copies of `s`, one after another.
pub open spec fn repeat_seq(s: Seq<char>, count: nat) -> Seq<char>
    decreases count,
{
    if count == 0 {
        Seq::empty()
    } else {
        repeat_seq(s, (count - 1) as nat) + s
    }
}

/// Code-point order of two char sequences: `a` sorts before `b`.
pub open spec fn lex_lt(a: Seq<char>, b: Seq<char>) -> bool {
    exists|i: int|
        0 <= i <= a.len() && i <= b.len() && a.take(i) =~= b.take(i) && ((i == a.len() && i
            < b.len()) || (i < a.len() && i < b.len() && (a[i] as u32) < (b[i] as u32)))
}

/// The result of `localeCompare`: 0 for equal sequences, -1 where `a`
/// sorts first in code-point order, 1 otherwise.
pub open spec fn compare_order(a: Seq<char>, b: Seq<char>) -> i32 {
    if a == b {
        0i32
    } else if lex_lt(a, b) {
        -1i32
    } else {
        1i32
    }
}

/// Full Unicode lower-casing of `s` (`str::to_lowercase`).
pub uninterp spec fn lowercase_of(s: Seq<char>) -> Seq<char>;

/// Full Unicode upper-casing of `s` (`str::to_uppercase`).
pub uninterp spec fn uppercase_of(s: Seq<char>) -> Seq<char>;

/// Canonical composition (NFC) of `s`.
pub uninterp spec fn nfc_of(s: Seq<char>) -> Seq<char>;

/// Canonical decomposition (NFD) of `s`.
pub uninterp spec fn nfd_of(s: Seq<char>) -> Seq<char>;

/// Compatibility composition (NFKC) of `s`.
pub uninterp spec fn nfkc_of(s: Seq<char>) -> Seq<char>;

/// Compatibility decomposition (NFKD) of `s`.
pub uninterp spec fn nfkd_of(s: Seq<char>) -> Seq<char>;

/// Calls `str::to_lowercase`; its result is named [`lowercase_of`]. Any `String`
/// holds at most `isize::MAX` bytes, which the bound states.
#[verifier::external_body]
fn to_lowercase_std(s: &str) -> (r: String)
    ensures
        r@ == lowercase_of(s@),
        utf8_len(r@) <= isize::MAX,
{
    s.to_lowercase()
}

/// Calls `str::to_uppercase`; its result is named [`uppercase_of`]. Any `String`
/// holds at most `isize::MAX` bytes, which the bound states.
#[verifier::external_body]
fn to_uppercase_std(s: &str) -> (r: String)
    ensures
        r@ == uppercase_of(s@),
        utf8_len(r@) <= isize::MAX,
{
    s.to_uppercase()
}

/// Collects `UnicodeNormalization::nfc` of the chars of `s`; the result is
/// named [`nfc_of`]. The `isize::MAX` bound holds of any `String`.
#[verifier::external_body]
fn nfc_string(s: &str) -> (r: String)
    ensures
        r@ == nfc_of(s@),
        utf8_len(r@) <= isize::MAX,
{
    unicode_normalization::UnicodeNormalization::nfc(s.chars()).collect()
}

/// Collects `UnicodeNormalization::nfd` of the chars of `s`; the result is
/// named [`nfd_of`]. The `isize::MAX` bound holds of any `String`.
#[verifier::external_body]
fn nfd_string(s: &str) -> (r: String)
    ensures
        r@ == nfd_of(s@),
        utf8_len(r@) <= isize::MAX,
{
    unicode_normalization::UnicodeNormalization::nfd(s.chars()).collect()
}

/// Collects `UnicodeNormalization::nfkc` of the chars of `s`; the result is
/// named [`nfkc_of`]. The `isize::MAX` bound holds of any `String`.
#[verifier::external_body]
fn nfkc_string(s: &str) -> (r: String)
    ensures
        r@ == nfkc_of(s@),
        utf8_len(r@) <= isize::MAX,
{
    unicode_normalization::UnicodeNormalization::nfkc(s.chars()).collect()
}

/// Collects `UnicodeNormalization::nfkd` of the chars of `s`; the result is
/// named [`nfkd_of`]. The `isize::MAX` bound holds of any `String`.
#[verifier::external_body]
fn nfkd_string(s: &str) -> (r: String)
    ensures
        r@ == nfkd_of(s@),
        utf8_len(r@) <= isize::MAX,
{
    unicode_normalization::UnicodeNormalization::nfkd(s.chars()).collect()
}

/// Calls `char::from_u32`, which returns the char of a Unicode scalar value and
/// `None` for any other number.
#[verifier::external_body]
fn char_from_u32(v: u32) -> (r: Option<char>)
    ensures
        r == (if vstd::utf8::is_scalar(v) {
            Some(v as char)
        } else {
            None::<char>
        }),
{
    char::from_u32(v)
}

/// Exec: converts a byte offset of `cs` that starts a char into its char index.
fn byte_to_char(cs: &Vec<char>, b: usize) -> (k: usize)
    requires
        is_boundary(cs@, b as int),
    ensures
        k == char_index_of(cs@, b as int),
        byte_offset(cs@, k as int) == b,
        k <= cs.len(),
{
    let ghost kt = char_index_of(cs@, b as int);
    let mut k: usize = 0;
    let mut acc: usize = 0;
    proof {
        assert(cs@.take(0) =~= Seq::<char>::empty());
        lemma_byte_offset_monotone(cs@, 0, kt);
    }
    while acc < b
        invariant
            0 <= kt <= cs.len(),
            byte_offset(cs@, kt) == b,
            k <= kt,
            acc == byte_offset(cs@, k as int),
        decreases kt - k,
    {
        proof {
            if k == kt {
                assert(false);
            }
            lemma_utf8_len_take_step(cs@, k as int);
            lemma_byte_offset_monotone(cs@, k + 1, kt);
        }
        acc = acc + char_width(cs[k]);
        k = k + 1;
    }
    proof {
        if k < kt {
            lemma_byte_offset_monotone(cs@, k + 1, kt);
            lemma_utf8_len_take_step(cs@, k as int);
        }
        lemma_char_index_of(cs@, k as int);
    }
    k
}

impl RsString {
    #[verifier::type_invariant]
    closed spec fn well_formed(&self) -> bool {
        &&& self.start <= self.end <= self.inner@.len()
        &&& utf8_len(self.inner@) <= isize::MAX
    }

    /// The view holds at most `isize::MAX` bytes and at least one byte per char.
    pub fn bounds(&self)
        ensures
            self@.len() <= utf8_len(self@) <= isize::MAX,
    {
        proof {
            use_type_invariant(self);
            lemma_utf8_len_subrange_le(self.inner@, self.start as int, self.end as int);
        }
    }

    /// The chars of the view as a string slice.
    pub fn get_slice(&self) -> (s: &str)
        ensures
            s@ == self@,
    {
        proof {
            use_type_invariant(self);
        }
        self.inner.as_str().substring_char(self.start, self.end)
    }

    /// The view made of chars `from..to` of this view.
    fn sub(&self, from: usize, to: usize) -> (r: Self)
        requires
            from <= to <= self@.len(),
        ensures
            r@ == self@.subrange(from as int, to as int),
    {
        proof {
            use_type_invariant(self);
        }
        let r = RsString { inner: self.inner.clone(), start: self.start + from, end: self.start + to };
        proof {
            assert(r@ =~= self@.subrange(from as int, to as int));
        }
        r
    }

    /// A copy of this view.
    fn same(&self) -> (r: Self)
        ensures
            r@ == self@,
    {
        proof {
            use_type_invariant(self);
        }
        RsString { inner: self.inner.clone(), start: self.start, end: self.end }
    }

    /// The number of bytes in the UTF-8 encoding of the view.
    pub fn byte_len(&self) -> (n: usize)
        ensures
            n == utf8_len(self@),
    {
        self.bounds();
        str_byte_len(self.get_slice())
    }

    /// Wraps a whole string.
    pub fn owned(s: String) -> (r: Self)
        requires
            utf8_len(s@) <= isize::MAX,
        ensures
            r@ == s@,
    {
        let n = s.as_str().unicode_len();
        let r = RsString { inner: s, start: 0, end: n };
        proof {
            assert(r@ =~= s@);
        }
        r
    }

    /// The byte offset at which char `char_index` starts, if there is such a char.
    pub fn char_to_byte(&self, char_index: usize) -> (r: Option<usize>)
        ensures
            r == (if char_index < self@.len() {
                Some(byte_offset(self@, char_index as int) as usize)
            } else {
                None::<usize>
            }),
    {
        let cs = chars_of(self.get_slice());
        if char_index >= cs.len() {
            return None;
        }
        self.bounds();
        proof {
            assert(cs@.take(0) =~= Seq::<char>::empty());
        }
        let mut k: usize = 0;
        let mut acc: usize = 0;
        while k < char_index
            invariant
                cs@ == self@,
                char_index < cs.len(),
                utf8_len(cs@) <= isize::MAX,
                k <= char_index,
                acc == byte_offset(cs@, k as int),
            decreases char_index - k,
        {
            proof {
                lemma_utf8_len_take_step(cs@, k as int);
                lemma_utf8_len_take_le(cs@, k + 1);
            }
            acc = acc + char_width(cs[k]);
            k = k + 1;
        }
        Some(acc)
    }

    /// An empty view at the start of this one.
    pub fn empty(&self) -> (r: Self)
        ensures
            r@ == Seq::<char>::empty(),
    {
        proof {
            use_type_invariant(self);
        }
        let r = RsString { inner: self.inner.clone(), start: self.start, end: self.start };
        proof {
            assert(r@ =~= Seq::<char>::empty());
        }
        r
    }

    /// Whether the view holds no chars.
    pub fn is_empty(&self) -> (b: bool)
        ensures
            b == (self@.len() == 0),
    {
        proof {
            use_type_invariant(self);
        }
        self.start == self.end
    }

    /// Number of chars (the JavaScript `length`).
    pub fn length(&self) -> (n: usize)
        ensures
            n == self@.len(),
    {
        proof {
            use_type_invariant(self);
        }
        self.end - self.start
    }

    /// `at(index)`: the char at `index`, counting from the end when negative;
    /// empty when out of range.
    pub fn at_method(&self, index: Option<isize>) -> (r: Self)
        ensures
            ({
                let i = from_end(
                    match index {
                        Some(i) => i as int,
                        None => 0,
                    },
                    self@.len() as int,
                );
                if 0 <= i < self@.len() {
                    r@ == seq![self@[i]]
                } else {
                    r@ == Seq::<char>::empty()
                }
            }),
    {
        self.bounds();
        let index = match index {
            Some(i) => i,
            None => 0,
        };
        let len = self.length() as isize;
        let mut idx = index;
        if idx < 0 {
            idx = idx + len;
        }
        if idx < 0 || idx >= len {
            return self.empty();
        }
        let r = self.sub(idx as usize, idx as usize + 1);
        proof {
            assert(r@ =~= seq![self@[idx as int]]);
        }
        r
    }

    /// `charAt(index)`: the char at `index`, or empty when out of range.
    pub fn char_at(&self, index: usize) -> (r: Self)
        ensures
            index < self@.len() ==> r@ == seq![self@[index as int]],
            index >= self@.len() ==> r@ == Seq::<char>::empty(),
    {
        if index < self.length() {
            let r = self.sub(index, index + 1);
            proof {
                assert(r@ =~= seq![self@[index as int]]);
            }
            r
        } else {
            self.empty()
        }
    }

    /// `charCodeAt(index)`: the code point of the char at `index`, or -1.
    pub fn char_code_at(&self, index: usize) -> (r: i32)
        ensures
            r == (if index < self@.len() {
                self@[index as int] as u32 as i32
            } else {
                -1i32
            }),
    {
        let cs = chars_of(self.get_slice());
        if index < cs.len() {
            cs[index] as u32 as i32
        } else {
            -1
        }
    }

    /// `codePointAt(index)`: the code point of the char at `index`, or -1.
    pub fn code_point_at(&self, index: usize) -> (r: i32)
        ensures
            r == (if index < self@.len() {
                self@[index as int] as i32
            } else {
                -1i32
            }),
    {
        let cs = chars_of(self.get_slice());
        if index < cs.len() {
            cs[index] as i32
        } else {
            -1
        }
    }

    /// `substring(start, end)` on byte offsets: both are clamped to the byte
    /// length and the start to the end; the bounds must start chars.
    pub fn substring(&self, start: usize, end: Option<usize>) -> (r: Self)
        requires
            is_boundary(self@, substring_bounds(utf8_len(self@) as int, start as int, end).0),
            is_boundary(self@, substring_bounds(utf8_len(self@) as int, start as int, end).1),
        ensures
            ({
                let (bs, be) = substring_bounds(utf8_len(self@) as int, start as int, end);
                r@ == self@.subrange(char_index_of(self@, bs), char_index_of(self@, be))
            }),
    {
        let bl = self.byte_len();
        let end = match end {
            Some(e) => e,
            None => bl,
        };
        let bound_end = if end < bl {
            end
        } else {
            bl
        };
        let bound_start = if start < bound_end {
            start
        } else {
            bound_end
        };
        let cs = chars_of(self.get_slice());
        let ks = byte_to_char(&cs, bound_start);
        let ke = byte_to_char(&cs, bound_end);
        proof {
            if ke < ks {
                lemma_byte_offset_monotone(cs@, ke as int, ks as int);
            }
        }
        self.sub(ks, ke)
    }

    /// `slice(start, end)` on byte offsets, negative values counting from the
    /// end; the clamped bounds must start chars.
    pub fn slice(&self, start: isize, end: Option<isize>) -> (r: Self)
        requires
            is_boundary(self@, slice_bounds(utf8_len(self@) as int, start as int, end).0),
            is_boundary(self@, slice_bounds(utf8_len(self@) as int, start as int, end).1),
        ensures
            ({
                let (bs, be) = slice_bounds(utf8_len(self@) as int, start as int, end);
                r@ == self@.subrange(char_index_of(self@, bs), char_index_of(self@, be))
            }),
    {
        self.bounds();
        let len = self.byte_len() as isize;
        let mut start = start;
        if start < 0 {
            start = start + len;
        }
        if start < 0 {
            start = 0;
        }
        if start > len {
            start = len;
        }
        let mut real_end_pos = len;
        match end {
            Some(e) => {
                let mut e = e;
                if e < 0 {
                    e = e + len;
                }
                if e < 0 {
                    e = 0;
                }
                if e > len {
                    e = len;
                }
                real_end_pos = e;
            },
            None => {},
        }
        if real_end_pos < start {
            real_end_pos = start;
        }
        let cs = chars_of(self.get_slice());
        let ks = byte_to_char(&cs, start as usize);
        let ke = byte_to_char(&cs, real_end_pos as usize);
        proof {
            if ke < ks {
                lemma_byte_offset_monotone(cs@, ke as int, ks as int);
            }
        }
        self.sub(ks, ke)
    }

    /// `substr(start, length)` on char positions, a negative start counting
    /// from the end.
    pub fn substr(&self, start: isize, length: Option<isize>) -> (r: Self)
        ensures
            ({
                let (from, to) = substr_range(self@.len() as int, start as int, length);
                r@ == self@.subrange(from, to)
            }),
    {
        self.bounds();
        let char_count = self.length() as isize;
        let mut s = start;
        if s < 0 {
            s = s + char_count;
        }
        if s < 0 {
            s = 0;
        }
        if s > char_count {
            s = char_count;
        }
        let len: usize = match length {
            Some(l) => {
                if l <= 0 {
                    let r = self.empty();
                    proof {
                        assert(r@ =~= self@.subrange(0, 0));
                    }
                    return r;
                }
                if l < char_count - s {
                    l as usize
                } else {
                    (char_count - s) as usize
                }
            },
            None => (char_count - s) as usize,
        };
        if len == 0 {
            let r = self.empty();
            proof {
                assert(r@ =~= self@.subrange(0, 0));
            }
            return r;
        }
        self.sub(s as usize, s as usize + len)
    }

    /// Number of whitespace chars that start the view.
    fn leading_ws_count(cs: &Vec<char>) -> (k: usize)
        ensures
            leading_ws(cs@, k as int),
    {
        let mut k: usize = 0;
        while k < cs.len() && is_whitespace(cs[k])
            invariant
                k <= cs.len(),
                forall|j: int| 0 <= j < k ==> is_ws(#[trigger] cs@[j]),
            decreases cs.len() - k,
        {
            k = k + 1;
        }
        k
    }

    /// Number of whitespace chars that end the view.
    fn trailing_ws_count(cs: &Vec<char>) -> (k: usize)
        ensures
            trailing_ws(cs@, k as int),
    {
        let mut k: usize = 0;
        while k < cs.len() && is_whitespace(cs[cs.len() - k - 1])
            invariant
                k <= cs.len(),
                forall|j: int| cs.len() - k <= j < cs.len() ==> is_ws(#[trigger] cs@[j]),
            decreases cs.len() - k,
        {
            k = k + 1;
        }
        k
    }

    /// `trim()`: drops leading and trailing whitespace; a view made of
    /// whitespace only becomes the empty view, as `String.prototype.trim`
    /// gives.
    pub fn trim(&self) -> (r: Self)
        ensures
            all_ws(self@) ==> r@ == Seq::<char>::empty(),
            !all_ws(self@) ==> exists|a: int, b: int|
                leading_ws(self@, a) && trailing_ws(self@, b) && a <= self@.len() - b && r@
                    == self@.subrange(a, self@.len() - b),
    {
        let cs = chars_of(self.get_slice());
        let a = Self::leading_ws_count(&cs);
        if a == cs.len() {
            let r = self.empty();
            proof {
                if cs.len() > 0 {
                    assert(all_ws(cs@));
                } else {
                    assert(leading_ws(self@, 0) && trailing_ws(self@, 0));
                    assert(self@.subrange(0, 0) =~= r@);
                }
            }
            return r;
        }
        let b = Self::trailing_ws_count(&cs);
        if a > cs.len() - b {
            proof {
                assert forall|j: int| 0 <= j < cs@.len() implies is_ws(#[trigger] cs@[j]) by {
                    if j >= a {
                        assert(cs@.len() - b <= j);
                    }
                }
            }
            assert(false);
        }
        proof {
            assert(!is_ws(cs@[a as int]));
        }
        self.sub(a, cs.len() - b)
    }

    /// `trimStart()`: drops leading whitespace.
    pub fn trim_start_method(&self) -> (r: Self)
        ensures
            exists|a: int| leading_ws(self@, a) && r@ == self@.subrange(a, self@.len() as int),
    {
        let cs = chars_of(self.get_slice());
        let a = Self::leading_ws_count(&cs);
        self.sub(a, cs.len())
    }

    /// `trimEnd()`: drops trailing whitespace.
    pub fn trim_end_method(&self) -> (r: Self)
        ensures
            exists|b: int| trailing_ws(self@, b) && r@ == self@.subrange(0, self@.len() - b),
    {
        let cs = chars_of(self.get_slice());
        let b = Self::trailing_ws_count(&cs);
        self.sub(0, cs.len() - b)
    }

    /// `indexOf(search, fromIndex)`: the byte offset of the first occurrence of
    /// `search` at or after byte `fromIndex`, or -1; a `fromIndex` at or past
    /// the end gives -1, and one inside must start a char.
    pub fn index_of(&self, search: String, from_index: Option<usize>) -> (r: isize)
        requires
            ({
                let f = match from_index {
                    Some(f) => f as int,
                    None => 0,
                };
                f < utf8_len(self@) ==> is_boundary(self@, f)
            }),
        ensures
            ({
                let f = match from_index {
                    Some(f) => f as int,
                    None => 0,
                };
                if f >= utf8_len(self@) {
                    r == -1
                } else {
                    let k0 = char_index_of(self@, f);
                    &&& r == -1 <==> forall|j: int| k0 <= j ==> !matches_at(self@, search@, j)
                    &&& r != -1 ==> exists|k: int|
                        first_match_from(self@, search@, k0, k) && r == byte_offset(self@, k)
                }
            }),
    {
        self.bounds();
        let start_pos = match from_index {
            Some(f) => f,
            None => 0,
        };
        let bl = self.byte_len();
        if start_pos >= bl {
            return -1;
        }
        let cs = chars_of(self.get_slice());
        let pat = chars_of(search.as_str());
        let k0 = byte_to_char(&cs, start_pos);
        let mut k = k0;
        while k <= cs.len()
            invariant
                cs@ == self@,
                pat@ == search@,
                cs.len() <= isize::MAX,
                k0 <= k <= cs.len() + 1,
                utf8_len(cs@) <= isize::MAX,
                k0 == char_index_of(self@, start_pos as int),
                start_pos == (match from_index {
                    Some(f) => f,
                    None => 0,
                }),
                start_pos < utf8_len(self@),
                forall|j: int| k0 <= j < k ==> !matches_at(cs@, pat@, j),
            decreases cs.len() + 1 - k,
        {
            if matches_at_exec(&cs, &pat, k) {
                let ghost kk = k as int;
                proof {
                    lemma_utf8_len_take_le(cs@, kk);
                }
                let p = self.char_to_byte_or_len(&cs, k);
                proof {
                    assert(first_match_from(self@, search@, k0 as int, kk));
                    assert(matches_at(self@, search@, kk));
                }
                let r = p as isize;
                proof {
                    assert(r as int == p as int);
                    assert(r != -1);
                }
                return r;
            }
            k = k + 1;
        }
        proof {
            assert forall|j: int| k0 <= j implies !matches_at(self@, search@, j) by {
                if j < k {
                } else {
                    assert(!matches_at(cs@, pat@, j));
                }
            }
        }
        -1
    }

    /// The byte offset at which char `k` of the chars `cs` of this view starts.
    fn char_to_byte_or_len(&self, cs: &Vec<char>, k: usize) -> (p: usize)
        requires
            cs@ == self@,
            k <= cs.len(),
        ensures
            p == byte_offset(self@, k as int),
            p <= isize::MAX,
    {
        self.bounds();
        proof {
            assert(cs@.take(0) =~= Seq::<char>::empty());
        }
        let mut i: usize = 0;
        let mut acc: usize = 0;
        while i < k
            invariant
                cs@ == self@,
                k <= cs.len(),
                utf8_len(cs@) <= isize::MAX,
                i <= k,
                acc == byte_offset(cs@, i as int),
            decreases k - i,
        {
            proof {
                lemma_utf8_len_take_step(cs@, i as int);
                lemma_utf8_len_take_le(cs@, i + 1);
            }
            acc = acc + char_width(cs[i]);
            i = i + 1;
        }
        proof {
            lemma_utf8_len_take_le(cs@, k as int);
        }
        acc
    }

    /// `lastIndexOf(search, fromIndex)`: the byte offset of the last occurrence
    /// of `search` that ends at or before byte `min(fromIndex, length)`, or -1;
    /// that bound must start a char.
    pub fn last_index_of(&self, search: String, from_index: Option<usize>) -> (r: isize)
        requires
            is_boundary(
                self@,
                match from_index {
                    Some(f) => if f < utf8_len(self@) {
                        f as int
                    } else {
                        utf8_len(self@) as int
                    },
                    None => utf8_len(self@) as int,
                },
            ),
        ensures
            ({
                let f = match from_index {
                    Some(f) => if f < utf8_len(self@) {
                        f as int
                    } else {
                        utf8_len(self@) as int
                    },
                    None => utf8_len(self@) as int,
                };
                let kf = char_index_of(self@, f);
                &&& r == -1 <==> forall|j: int| j + search@.len() <= kf ==> !matches_at(self@, search@, j)
                &&& r != -1 ==> exists|k: int|
                    last_match_before(self@, search@, kf, k) && r == byte_offset(self@, k)
            }),
    {
        self.bounds();
        let bl = self.byte_len();
        let from = match from_index {
            Some(f) => if f < bl {
                f
            } else {
                bl
            },
            None => bl,
        };
        let cs = chars_of(self.get_slice());
        let pat = chars_of(search.as_str());
        let kf = byte_to_char(&cs, from);
        if pat.len() > kf {
            proof {
                assert forall|j: int| j + search@.len() <= kf implies !matches_at(self@, search@, j) by {
                }
            }
            return -1;
        }
        let mut k: usize = kf - pat.len() + 1;
        while k > 0
            invariant
                cs@ == self@,
                pat@ == search@,
                pat.len() <= kf <= cs.len(),
                k <= kf - pat.len() + 1,
                kf == char_index_of(self@, from as int),
                from == (match from_index {
                    Some(f) => if f < utf8_len(self@) {
                        f
                    } else {
                        utf8_len(self@) as usize
                    },
                    None => utf8_len(self@) as usize,
                }),
                utf8_len(self@) <= isize::MAX,
                forall|j: int| k <= j && j + pat@.len() <= kf ==> !matches_at(cs@, pat@, j),
            decreases k,
        {
            if matches_at_exec(&cs, &pat, k - 1) {
                let p = self.char_to_byte_or_len(&cs, k - 1);
                proof {
                    assert(last_match_before(self@, search@, kf as int, k - 1));
                    assert(matches_at(self@, search@, k - 1));
                    assert((k - 1) + search@.len() <= kf);
                }
                let r = p as isize;
                proof {
                    assert(r as int == p as int);
                }
                return r;
            }
            k = k - 1;
        }
        proof {
            assert forall|j: int| j + search@.len() <= kf implies !matches_at(self@, search@, j) by {
                if j < 0 {
                }
            }
        }
        -1
    }

    /// `includes(search)`: whether `search` occurs anywhere in the view.
    pub fn includes(&self, search: String) -> (b: bool)
        ensures
            b == exists|k: int| matches_at(self@, search@, k),
    {
        let cs = chars_of(self.get_slice());
        let pat = chars_of(search.as_str());
        self.bounds();
        let mut k: usize = 0;
        while k <= cs.len()
            invariant
                cs@ == self@,
                pat@ == search@,
                cs.len() <= isize::MAX,
                k <= cs.len() + 1,
                forall|j: int| 0 <= j < k ==> !matches_at(cs@, pat@, j),
            decreases cs.len() + 1 - k,
        {
            if matches_at_exec(&cs, &pat, k) {
                return true;
            }
            k = k + 1;
        }
        proof {
            assert forall|j: int| !matches_at(self@, search@, j) by {
                if 0 <= j < k {
                }
            }
        }
        false
    }

    /// `startsWith(search)`.
    pub fn starts_with(&self, search: String) -> (b: bool)
        ensures
            b == matches_at(self@, search@, 0),
    {
        let cs = chars_of(self.get_slice());
        let pat = chars_of(search.as_str());
        matches_at_exec(&cs, &pat, 0)
    }

    /// `endsWith(search)`.
    pub fn ends_with(&self, search: String) -> (b: bool)
        ensures
            b == (search@.len() <= self@.len() && matches_at(
                self@,
                search@,
                self@.len() - search@.len(),
            )),
    {
        let cs = chars_of(self.get_slice());
        let pat = chars_of(search.as_str());
        if pat.len() > cs.len() {
            return false;
        }
        matches_at_exec(&cs, &pat, cs.len() - pat.len())
    }

    /// `concat(str1)`: a new string holding this view followed by `str1`.
    pub fn concat(&self, str1: String) -> (r: Self)
        requires
            utf8_len(self@ + str1@) <= isize::MAX,
        ensures
            r@ == self@ + str1@,
    {
        let mut result = self.get_slice().to_owned();
        result.append(str1.as_str());
        RsString::owned(result)
    }

    /// `repeat(count)`: `count` copies of the view; empty for zero copies or
    /// an empty view.
    pub fn repeat(&self, count: usize) -> (r: Self)
        requires
            utf8_len(self@) * count <= isize::MAX,
        ensures
            r@ == repeat_seq(self@, count as nat),
    {
        if count == 0 || self.is_empty() {
            let r = self.empty();
            proof {
                if count != 0 {
                    lemma_repeat_empty(self@, count as nat);
                }
            }
            return r;
        }
        let piece = self.get_slice();
        let mut result = String::new();
        let mut i: usize = 0;
        while i < count
            invariant
                i <= count,
                piece@ == self@,
                result@ == repeat_seq(self@, i as nat),
                utf8_len(self@) * count <= isize::MAX,
            decreases count - i,
        {
            result.append(piece);
            i = i + 1;
        }
        proof {
            lemma_repeat_utf8_len(self@, count as nat);
        }
        RsString::owned(result)
    }
}

/// UTF-8 length of repeated copies.
pub proof fn lemma_repeat_utf8_len(s: Seq<char>, n: nat)
    ensures
        utf8_len(repeat_seq(s, n)) == utf8_len(s) * n,
    decreases n,
{
    if n > 0 {
        let m = (n - 1) as nat;
        lemma_repeat_utf8_len(s, m);
        crate::unicode::lemma_utf8_len_concat(repeat_seq(s, m), s);
        assert(repeat_seq(s, n) == repeat_seq(s, m) + s);
        let l = utf8_len(s);
        assert(l * n == l * m + l) by (nonlinear_arith)
            requires
                n == m + 1,
        ;
    } else {
        assert(repeat_seq(s, n) =~= Seq::<char>::empty());
        assert(utf8_len(Seq::<char>::empty()) == 0);
        assert(utf8_len(s) * n == 0) by (nonlinear_arith)
            requires
                n == 0,
        ;
    }
}

/// Copies of an empty sequence are empty.
pub proof fn lemma_repeat_empty(s: Seq<char>, n: nat)
    requires
        s.len() == 0,
    ensures
        repeat_seq(s, n) =~= Seq::<char>::empty(),
    decreases n,
{
    if n > 0 {
        assert(repeat_seq(s, n) == repeat_seq(s, (n - 1) as nat) + s);
        lemma_repeat_empty(s, (n - 1) as nat);
    }
}

impl RsString {

    /// The pad run of `n` chars cycling through `pad`, as a string.
    fn pad_string(pad: &Vec<char>, n: usize) -> (r: String)
        requires
            pad.len() > 0,
        ensures
            r@ == pad_run(pad@, n as nat),
    {
        let mut result = String::new();
        let mut i: usize = 0;
        while i < n
            invariant
                pad.len() > 0,
                i <= n,
                result@ =~= pad_run(pad@, i as nat),
            decreases n - i,
        {
            crate::unicode::push_char(&mut result, pad[i % pad.len()]);
            i = i + 1;
        }
        result
    }

    /// The pad of `padStart` and `padEnd`: the string given, else a space.
    pub open spec fn pad_text(pad_string: Option<String>) -> Seq<char> {
        match pad_string {
            Some(p) => p@,
            None => seq![' '],
        }
    }

    /// `padStart(targetLength, padString)`: pads the front with `padString`
    /// (a space when absent) repeated and cut to reach `targetLength` chars;
    /// the view itself when it is long enough or the pad is empty.
    pub fn pad_start(&self, target_length: usize, pad_string: Option<String>) -> (r: Self)
        requires
            ({
                let pad = match pad_string {
                    Some(p) => p@,
                    None => seq![' '],
                };
                target_length > self@.len() && pad.len() > 0 ==> utf8_len(pad_run(pad, (target_length - self@.len()) as nat) + self@) <= isize::MAX
            }),
        ensures
            ({
                let pad = match pad_string {
                    Some(p) => p@,
                    None => seq![' '],
                };
                if target_length <= self@.len() || pad.len() == 0 {
                    r@ == self@
                } else {
                    r@ == pad_run(pad, (target_length - self@.len()) as nat) + self@
                }
            }),
    {
        let ghost padv = Self::pad_text(pad_string);
        let char_len = self.length();
        if target_length <= char_len {
            return self.same();
        }
        let pad = match pad_string {
            Some(p) => chars_of(p.as_str()),
            None => {
                let v = vec![' '];
                v
            },
        };
        assert(pad@ =~= padv);
        if pad.len() == 0 {
            return self.same();
        }
        let mut result = Self::pad_string(&pad, target_length - char_len);
        result.append(self.get_slice());
        assert(result@ =~= pad_run(padv, (target_length - self@.len()) as nat) + self@);
        self.bounds();
        proof {
            lemma_pad_len(pad@, (target_length - char_len) as nat, self@);
            lemma_utf8_len_at_most_four(self@);
        }
        RsString::owned(result)
    }

    /// `padEnd(targetLength, padString)`: like `padStart`, at the back.
    pub fn pad_end(&self, target_length: usize, pad_string: Option<String>) -> (r: Self)
        requires
            ({
                let pad = match pad_string {
                    Some(p) => p@,
                    None => seq![' '],
                };
                target_length > self@.len() && pad.len() > 0 ==> utf8_len(self@ + pad_run(pad, (target_length - self@.len()) as nat)) <= isize::MAX
            }),
        ensures
            ({
                let pad = match pad_string {
                    Some(p) => p@,
                    None => seq![' '],
                };
                if target_length <= self@.len() || pad.len() == 0 {
                    r@ == self@
                } else {
                    r@ == self@ + pad_run(pad, (target_length - self@.len()) as nat)
                }
            }),
    {
        let ghost padv = Self::pad_text(pad_string);
        let char_len = self.length();
        if target_length <= char_len {
            return self.same();
        }
        let pad = match pad_string {
            Some(p) => chars_of(p.as_str()),
            None => {
                let v = vec![' '];
                v
            },
        };
        assert(pad@ =~= padv);
        if pad.len() == 0 {
            return self.same();
        }
        let run = Self::pad_string(&pad, target_length - char_len);
        let mut result = self.get_slice().to_owned();
        result.append(run.as_str());
        assert(result@ =~= self@ + pad_run(padv, (target_length - self@.len()) as nat));
        self.bounds();
        proof {
            lemma_pad_len(pad@, (target_length - char_len) as nat, self@);
            lemma_utf8_len_at_most_four(self@);
            crate::unicode::lemma_utf8_len_concat(self@, pad_run(pad@, (target_length - char_len) as nat));
        }
        RsString::owned(result)
    }

    /// `toLowerCase()`.
    pub fn to_lower_case(&self) -> (r: Self)
        ensures
            r@ == lowercase_of(self@),
    {
        RsString::owned(to_lowercase_std(self.get_slice()))
    }

    /// `toUpperCase()`.
    pub fn to_upper_case(&self) -> (r: Self)
        ensures
            r@ == uppercase_of(self@),
    {
        RsString::owned(to_uppercase_std(self.get_slice()))
    }

    /// `toLocaleLowerCase()`: the same as `toLowerCase()`.
    pub fn to_locale_lower_case(&self) -> (r: Self)
        ensures
            r@ == lowercase_of(self@),
    {
        self.to_lower_case()
    }

    /// `toLocaleUpperCase()`: the same as `toUpperCase()`.
    pub fn to_locale_upper_case(&self) -> (r: Self)
        ensures
            r@ == uppercase_of(self@),
    {
        self.to_upper_case()
    }

    /// `localeCompare(other)`: 0 when equal, -1 when the view sorts first in
    /// code-point order, 1 otherwise.
    pub fn locale_compare(&self, other: String) -> (r: i32)
        ensures
            r == compare_order(self@, other@),
    {
        let a = chars_of(self.get_slice());
        let b = chars_of(other.as_str());
        let mut i: usize = 0;
        while i < a.len() && i < b.len() && a[i] == b[i]
            invariant
                i <= a.len(),
                i <= b.len(),
                a@.take(i as int) =~= b@.take(i as int),
            decreases a.len() - i,
        {
            proof {
                assert(a@.take(i + 1) =~= a@.take(i as int).push(a@[i as int]));
                assert(b@.take(i + 1) =~= b@.take(i as int).push(b@[i as int]));
            }
            i = i + 1;
        }
        proof {
            assert(a@.take(a@.len() as int) =~= a@);
            assert(b@.take(b@.len() as int) =~= b@);
        }
        if i == a.len() && i == b.len() {
            proof {
                assert(self@ =~= other@);
            }
            return 0;
        }
        if i == a.len() || (i < b.len() && (a[i] as u32) < (b[i] as u32)) {
            proof {
                assert(lex_lt(self@, other@));
                assert(self@ != other@);
            }
            return -1;
        }
        proof {
            assert(self@ != other@) by {
                if self@ == other@ {
                    assert(a@[i as int] == b@[i as int]);
                }
            }
            assert(!lex_lt(self@, other@)) by {
                if lex_lt(self@, other@) {
                    let j = choose|j: int|
                        0 <= j <= a@.len() && j <= b@.len() && a@.take(j) =~= b@.take(j) && ((j
                            == a@.len() && j < b@.len()) || (j < a@.len() && j < b@.len() && (
                        a@[j] as u32) < (b@[j] as u32)));
                    if j < i {
                        assert(a@.take(i as int)[j] == b@.take(i as int)[j]);
                    } else if j > i {
                        assert(a@.take(j)[i as int] == b@.take(j)[i as int]);
                    }
                }
            }
        }
        1
    }

    /// `normalize(form)`: the Unicode normal form named by `form` ("NFC",
    /// "NFD", "NFKC" or "NFKD"); NFC when absent or unknown.
    pub fn normalize(&self, form: Option<String>) -> (r: Self)
        ensures
            ({
                let f = match form {
                    Some(f) => f@,
                    None => Seq::<char>::empty(),
                };
                if f == "NFD"@ {
                    r@ == nfd_of(self@)
                } else if f == "NFKC"@ {
                    r@ == nfkc_of(self@)
                } else if f == "NFKD"@ {
                    r@ == nfkd_of(self@)
                } else {
                    r@ == nfc_of(self@)
                }
            }),
    {
        let form_str = match form {
            Some(f) => f,
            None => String::new(),
        };
        let s = self.get_slice();
        let result = if crate::unicode::str_eq(form_str.as_str(), "NFD") {
            nfd_string(s)
        } else if crate::unicode::str_eq(form_str.as_str(), "NFKC") {
            nfkc_string(s)
        } else if crate::unicode::str_eq(form_str.as_str(), "NFKD") {
            nfkd_string(s)
        } else {
            nfc_string(s)
        };
        RsString::owned(result)
    }
}

/// UTF-8 length of a padded result: each char takes at most four bytes.
proof fn lemma_pad_len(pad: Seq<char>, n: nat, s: Seq<char>)
    requires
        pad.len() > 0,
    ensures
        utf8_len(pad_run(pad, n) + s) == utf8_len(pad_run(pad, n)) + utf8_len(s),
        utf8_len(pad_run(pad, n)) <= 4 * n,
{
    crate::unicode::lemma_utf8_len_concat(pad_run(pad, n), s);
    lemma_utf8_len_at_most_four(pad_run(pad, n));
}

/// Each char takes at most four bytes.
pub proof fn lemma_utf8_len_at_most_four(s: Seq<char>)
    ensures
        utf8_len(s) <= 4 * s.len(),
    decreases s.len(),
{
    if s.len() > 0 {
        lemma_utf8_len_at_most_four(s.drop_last());
    }
}

/// `String.fromCharCode(...codes)`: the chars of the codes that are Unicode
/// scalar values, in order; other codes are skipped.
pub fn from_char_code(codes: &Vec<u32>) -> (r: RsString)
    requires
        codes.len() * 4 <= isize::MAX,
    ensures
        r@ == scalars_of(codes@),
{
    RsString::owned(string_of_scalars(codes))
}

/// `String.fromCodePoint(...points)`: the same filtering as `fromCharCode`.
pub fn from_code_point(points: &Vec<u32>) -> (r: RsString)
    requires
        points.len() * 4 <= isize::MAX,
    ensures
        r@ == scalars_of(points@),
{
    RsString::owned(string_of_scalars(points))
}

/// The chars of the values in `codes` that are Unicode scalar values.
pub open spec fn scalars_of(codes: Seq<u32>) -> Seq<char>
    decreases codes.len(),
{
    if codes.len() == 0 {
        Seq::empty()
    } else if vstd::utf8::is_scalar(codes.last()) {
        scalars_of(codes.drop_last()).push(codes.last() as char)
    } else {
        scalars_of(codes.drop_last())
    }
}

proof fn lemma_scalars_len(codes: Seq<u32>)
    ensures
        scalars_of(codes).len() <= codes.len(),
    decreases codes.len(),
{
    if codes.len() > 0 {
        lemma_scalars_len(codes.drop_last());
    }
}

fn string_of_scalars(codes: &Vec<u32>) -> (s: String)
    requires
        codes.len() * 4 <= isize::MAX,
    ensures
        s@ == scalars_of(codes@),
        utf8_len(s@) <= isize::MAX,
{
    let mut s = String::new();
    let mut i: usize = 0;
    while i < codes.len()
        invariant
            i <= codes.len(),
            s@ == scalars_of(codes@.take(i as int)),
        decreases codes.len() - i,
    {
        proof {
            assert(codes@.take(i + 1).drop_last() =~= codes@.take(i as int));
        }
        match char_from_u32(codes[i]) {
            Some(c) => crate::unicode::push_char(&mut s, c),
            None => {},
        }
        i = i + 1;
    }
    proof {
        assert(codes@.take(codes@.len() as int) =~= codes@);
        lemma_scalars_len(codes@);
        lemma_utf8_len_at_most_four(s@);
    }
    s
}

impl RsString {
}

/// Two sequences that agree on their first `i` chars are equal, or one sorts
/// before the other.
proof fn lemma_lex_total_from(a: Seq<char>, b: Seq<char>, i: int)
    requires
        0 <= i <= a.len(),
        i <= b.len(),
        a.take(i) =~= b.take(i),
        a != b,
    ensures
        lex_lt(a, b) || lex_lt(b, a),
    decreases a.len() - i,
{
    if i == a.len() || i == b.len() {
        if a.len() == b.len() {
            assert(a =~= a.take(i));
            assert(b =~= b.take(i));
        } else if i == a.len() {
            assert(i < b.len());
            assert(lex_lt(a, b));
        } else {
            assert(i < a.len());
            assert(b.take(i) =~= a.take(i));
            assert(lex_lt(b, a));
        }
    } else if a[i] != b[i] {
        vstd::utf8::char_u32_cast(a[i], a[i] as u32);
        vstd::utf8::char_u32_cast(b[i], b[i] as u32);
        if (a[i] as u32) < (b[i] as u32) {
            assert(lex_lt(a, b));
        } else {
            assert((b[i] as u32) < (a[i] as u32));
            assert(b.take(i) =~= a.take(i));
            assert(lex_lt(b, a));
        }
    } else {
        assert(a.take(i + 1) =~= b.take(i + 1)) by {
            assert(a.take(i + 1) =~= a.take(i).push(a[i]));
            assert(b.take(i + 1) =~= b.take(i).push(b[i]));
        }
        lemma_lex_total_from(a, b, i + 1);
    }
}

/// `localeCompare` is antisymmetric: comparing the other way round gives
/// the opposite answer, and only equal strings compare as 0.
pub proof fn lemma_compare_antisymmetric(a: Seq<char>, b: Seq<char>)
    ensures
        compare_order(a, b) == -compare_order(b, a),
        compare_order(a, b) == 0 <==> a == b,
{
    if a != b {
        assert(a.take(0) =~= b.take(0));
        lemma_lex_total_from(a, b, 0);
        if lex_lt(a, b) && lex_lt(b, a) {
            let i = choose|i: int|
                0 <= i <= a.len() && i <= b.len() && a.take(i) =~= b.take(i) && ((i == a.len() && i
                    < b.len()) || (i < a.len() && i < b.len() && (a[i] as u32) < (b[i] as u32)));
            let j = choose|j: int|
                0 <= j <= b.len() && j <= a.len() && b.take(j) =~= a.take(j) && ((j == b.len() && j
                    < a.len()) || (j < b.len() && j < a.len() && (b[j] as u32) < (a[j] as u32)));
            if i < j {
                assert(a.take(j)[i] == b.take(j)[i]);
            } else if j < i {
                assert(a.take(i)[j] == b.take(i)[j]);
            }
            assert(false);
        }
    }
}

/// A padded view has exactly the target length: the pad run has as many
/// chars as were missing.
pub proof fn lemma_pad_reaches_target(pad: Seq<char>, target: nat, s: Seq<char>)
    requires
        pad.len() > 0,
        s.len() < target,
    ensures
        (pad_run(pad, (target - s.len()) as nat) + s).len() == target,
        (s + pad_run(pad, (target - s.len()) as nat)).len() == target,
{
}

/// `repeat(count)` has `count` times as many chars as the view.
pub proof fn lemma_repeat_len(s: Seq<char>, count: nat)
    ensures
        repeat_seq(s, count).len() == count * s.len(),
    decreases count,
{
    if count == 0 {
        assert(repeat_seq(s, count).len() == 0);
        assert(count * s.len() == 0) by (nonlinear_arith)
            requires
                count == 0,
        ;
    } else {
        let m = (count - 1) as nat;
        lemma_repeat_len(s, m);
        assert(repeat_seq(s, count) == repeat_seq(s, m) + s);
        assert(repeat_seq(s, count).len() == m * s.len() + s.len());
        assert(count * s.len() == m * s.len() + s.len()) by (nonlinear_arith)
            requires
                m == count - 1,
        ;
    }
}

/// On offsets in order and in range, `slice` and `substring` pick the same
/// part.
pub proof fn lemma_slice_agrees_with_substring(len: int, start: int, end: int)
    requires
        0 <= start <= end <= len,
        end <= isize::MAX,
    ensures
        slice_bounds(len, start, Some(end as isize)) == substring_bounds(len, start, Some(end as usize)),
{
}

/// `slice` reads its start the same way whether or not an end is given:
/// slicing to the end of the view, explicitly or not, selects the same
/// bytes.
pub proof fn lemma_slice_start_ignores_end(len: int, start: int)
    requires
        0 <= len <= isize::MAX,
    ensures
        slice_bounds(len, start, Some(len as isize)) == slice_bounds(len, start, None),
{
}

/// A negative start or end counts back from the end of the view: it selects
/// what the offset `len` bytes further on selects, and the slice starts at
/// `max(len + start, 0)` for a negative start and at `min(start, len)` for
/// any other; the bounds always lie in order within the view.
pub proof fn lemma_slice_negative_offsets(len: int, start: int, end: Option<isize>)
    requires
        0 <= len <= isize::MAX,
    ensures
        ({
            let (s, e) = slice_bounds(len, start, end);
            &&& 0 <= s <= e <= len
            &&& start < 0 ==> s == (if len + start > 0 { len + start } else { 0 })
            &&& start >= 0 ==> s == (if start < len { start } else { len })
            &&& end is None ==> e == len
        }),
        -len <= start < 0 ==> slice_bounds(len, start, end) == slice_bounds(len, start + len, end),
        forall|x: isize|
            end == Some(x) && -len <= x < 0 ==> #[trigger] slice_bounds(len, start, Some(x)) == slice_bounds(
                len,
                start,
                Some((x + len) as isize),
            ),
{
}

} // verus!
