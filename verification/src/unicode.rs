use vstd::prelude::*;

verus! {

/// Number of bytes that the UTF-8 encoding of `c` occupies.
pub open spec fn width(c: char) -> nat {
    let v = c as u32;
    if v < 0x80 {
        1
    } else if v < 0x800 {
        2
    } else if v < 0x10000 {
        3
    } else {
        4
    }
}

/// Number of bytes in the UTF-8 encoding of `s`.
pub open spec fn utf8_len(s: Seq<char>) -> nat
    decreases s.len(),
{
    if s.len() == 0 {
        0
    } else {
        utf8_len(s.drop_last()) + width(s.last())
    }
}

/// The byte offset at which the `k`-th char of `s` starts.
pub open spec fn byte_offset(s: Seq<char>, k: int) -> nat {
    utf8_len(s.take(k))
}

/// `b` is a byte offset at which a char of `s` starts, or the end of `s`.
pub open spec fn is_boundary(s: Seq<char>, b: int) -> bool {
    exists|k: int| 0 <= k <= s.len() && byte_offset(s, k) == b
}

/// The char index that starts at byte offset `b` (meaningful when `is_boundary(s, b)`).
pub open spec fn char_index_of(s: Seq<char>, b: int) -> int {
    choose|k: int| 0 <= k <= s.len() && byte_offset(s, k) == b
}

/// Byte length of UTF-8 grows with each char.
pub proof fn lemma_utf8_len_take_step(s: Seq<char>, k: int)
    requires
        0 <= k < s.len(),
    ensures
        utf8_len(s.take(k + 1)) == utf8_len(s.take(k)) + width(s[k]),
{
    assert(s.take(k + 1).drop_last() =~= s.take(k));
}

/// Byte offsets are strictly increasing in the char index.
pub proof fn lemma_byte_offset_monotone(s: Seq<char>, i: int, j: int)
    requires
        0 <= i <= j <= s.len(),
    ensures
        byte_offset(s, i) + (j - i) <= byte_offset(s, j),
    decreases j - i,
{
    if i < j {
        lemma_byte_offset_monotone(s, i, j - 1);
        lemma_utf8_len_take_step(s, j - 1);
    }
}

/// UTF-8 length of a concatenation.
pub proof fn lemma_utf8_len_concat(a: Seq<char>, b: Seq<char>)
    ensures
        utf8_len(a + b) == utf8_len(a) + utf8_len(b),
    decreases b.len(),
{
    if b.len() > 0 {
        assert((a + b).drop_last() =~= a + b.drop_last());
        lemma_utf8_len_concat(a, b.drop_last());
    } else {
        assert(a + b =~= a);
    }
}

/// The UTF-8 length of a prefix is at most that of the whole sequence.
pub proof fn lemma_utf8_len_take_le(s: Seq<char>, k: int)
    requires
        0 <= k <= s.len(),
    ensures
        utf8_len(s.take(k)) <= utf8_len(s),
        utf8_len(s.take(k)) + utf8_len(s.skip(k)) == utf8_len(s),
{
    assert(s =~= s.take(k) + s.skip(k));
    lemma_utf8_len_concat(s.take(k), s.skip(k));
}

/// The char index of a boundary is unique.
pub proof fn lemma_char_index_of(s: Seq<char>, k: int)
    requires
        0 <= k <= s.len(),
    ensures
        is_boundary(s, byte_offset(s, k) as int),
        char_index_of(s, byte_offset(s, k) as int) == k,
{
    let b = byte_offset(s, k) as int;
    assert(is_boundary(s, b));
    let k2 = char_index_of(s, b);
    if k2 < k {
        lemma_byte_offset_monotone(s, k2, k);
    } else if k < k2 {
        lemma_byte_offset_monotone(s, k, k2);
    }
}

/// Exec: the number of bytes that `c` occupies in UTF-8.
pub fn char_width(c: char) -> (w: usize)
    ensures
        w == width(c),
{
    let v = c as u32;
    if v < 0x80 {
        1
    } else if v < 0x800 {
        2
    } else if v < 0x10000 {
        3
    } else {
        4
    }
}

} // verus!

verus! {

/// Exec: the UTF-8 byte length of a string slice.
pub fn str_byte_len(s: &str) -> (n: usize)
    requires
        utf8_len(s@) <= usize::MAX,
    ensures
        n == utf8_len(s@),
{
    broadcast use vstd::string::group_string_axioms;
    let mut total: usize = 0;
    for c in it: s.chars()
        invariant
            it.seq() == s@,
            utf8_len(s@) <= usize::MAX,
            total == utf8_len(s@.take(it.index() as int)),
    {
        proof {
            lemma_utf8_len_take_step(s@, it.index() as int);
            lemma_utf8_len_take_le(s@, it.index() + 1);
        }
        total = total + char_width(c);
    }
    proof {
        assert(s@.take(s@.len() as int) =~= s@);
    }
    total
}

} // verus!

verus! {

/// UTF-8 length of a sub-range is bounded by that of the whole.
pub proof fn lemma_utf8_len_subrange_le(s: Seq<char>, a: int, b: int)
    requires
        0 <= a <= b <= s.len(),
    ensures
        utf8_len(s.subrange(a, b)) <= utf8_len(s),
        s.subrange(a, b).len() <= utf8_len(s.subrange(a, b)),
{
    lemma_utf8_len_take_le(s, b);
    let t = s.take(b);
    lemma_utf8_len_take_le(t, a);
    assert(t.skip(a) =~= s.subrange(a, b));
    let u = s.subrange(a, b);
    lemma_byte_offset_monotone(u, 0, u.len() as int);
    assert(u.take(u.len() as int) =~= u);
    assert(u.take(0) =~= Seq::<char>::empty());
}

/// Rust's `char::is_whitespace`: the Unicode `White_Space` property.
pub open spec fn is_ws(c: char) -> bool {
    let v = c as u32;
    ||| 0x09 <= v <= 0x0D
    ||| v == 0x20
    ||| v == 0x85
    ||| v == 0xA0
    ||| v == 0x1680
    ||| 0x2000 <= v <= 0x200A
    ||| v == 0x2028
    ||| v == 0x2029
    ||| v == 0x202F
    ||| v == 0x205F
    ||| v == 0x3000
}

/// Exec counterpart of [`is_ws`].
pub fn is_whitespace(c: char) -> (b: bool)
    ensures
        b == is_ws(c),
{
    let v = c as u32;
    (0x09 <= v && v <= 0x0D) || v == 0x20 || v == 0x85 || v == 0xA0 || v == 0x1680 || (0x2000
        <= v && v <= 0x200A) || v == 0x2028 || v == 0x2029 || v == 0x202F || v == 0x205F || v
        == 0x3000
}

/// Appends one char to a string (`String::push`).
#[verifier::external_body]
pub fn push_char(s: &mut String, c: char)
    ensures
        final(s)@ == old(s)@.push(c),
{
    s.push(c)
}

/// Exec: the chars of a string slice.
pub fn chars_of(s: &str) -> (v: Vec<char>)
    ensures
        v@ == s@,
{
    broadcast use vstd::string::group_string_axioms;
    let mut v: Vec<char> = Vec::new();
    for c in it: s.chars()
        invariant
            it.seq() == s@,
            v@ == s@.take(it.index() as int),
    {
        proof {
            assert(s@.take(it.index() + 1) =~= s@.take(it.index() as int).push(c));
        }
        v.push(c);
    }
    proof {
        assert(s@.take(s@.len() as int) =~= s@);
    }
    v
}

/// Exec: the string made of the chars `v[from..to]`.
pub fn string_of(v: &Vec<char>, from: usize, to: usize) -> (s: String)
    requires
        from <= to <= v.len(),
    ensures
        s@ == v@.subrange(from as int, to as int),
{
    let mut s = String::new();
    let mut i = from;
    while i < to
        invariant
            from <= i <= to <= v.len(),
            s@ == v@.subrange(from as int, i as int),
        decreases to - i,
    {
        push_char(&mut s, v[i]);
        proof {
            assert(v@.subrange(from as int, i + 1) =~= v@.subrange(from as int, i as int).push(
                v@[i as int],
            ));
        }
        i = i + 1;
    }
    s
}

/// `pat` occurs in `s` at char index `k`.
pub open spec fn matches_at(s: Seq<char>, pat: Seq<char>, k: int) -> bool {
    0 <= k && k + pat.len() <= s.len() && s.subrange(k, k + pat.len()) =~= pat
}

/// Exec: whether `pat` occurs in `s` at char index `k`.
pub fn matches_at_exec(s: &Vec<char>, pat: &Vec<char>, k: usize) -> (b: bool)
    ensures
        b == matches_at(s@, pat@, k as int),
{
    if k > s.len() || pat.len() > s.len() - k {
        return false;
    }
    let mut j: usize = 0;
    while j < pat.len()
        invariant
            k + pat.len() <= s.len(),
            j <= pat.len(),
            forall|i: int| 0 <= i < j ==> s@[k + i] == pat@[i],
        decreases pat.len() - j,
    {
        if s[k + j] != pat[j] {
            proof {
                assert(s@.subrange(k as int, k + pat.len())[j as int] != pat@[j as int]);
            }
            return false;
        }
        j = j + 1;
    }
    proof {
        assert(s@.subrange(k as int, k + pat.len()) =~= pat@);
    }
    true
}

/// Exec: whether two string slices hold the same chars.
pub fn str_eq(a: &str, b: &str) -> (r: bool)
    ensures
        r == (a@ == b@),
{
    let va = chars_of(a);
    let vb = chars_of(b);
    if va.len() != vb.len() {
        return false;
    }
    let r = matches_at_exec(&va, &vb, 0);
    proof {
        if r {
            assert(va@.subrange(0, vb@.len() as int) =~= va@);
        } else {
            if a@ == b@ {
                assert(va@.subrange(0, vb@.len() as int) =~= vb@);
            }
        }
    }
    r
}

} // verus!
