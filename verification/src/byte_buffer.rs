use vstd::prelude::*;
use vstd::utf8::{decode_utf8, valid_utf8};

verus! {

/// What `String::from_utf8_lossy` gives for these bytes.
pub uninterp spec fn utf8_lossy_text(bytes: Seq<u8>) -> Seq<char>;

/// Calls `String::from_utf8_lossy`: the text, with U+FFFD for each invalid
/// sequence; valid UTF-8 decodes as it is.
#[verifier::external_body]
fn from_utf8_lossy(bytes: &[u8]) -> (s: String)
    ensures
        s@ == utf8_lossy_text(bytes@),
        valid_utf8(bytes@) ==> s@ == decode_utf8(bytes@),
{
    String::from_utf8_lossy(bytes).into_owned()
}

/// A buffer of bytes of a fixed length.
pub struct ByteBuffer {
    data: Vec<u8>,
}

impl View for ByteBuffer {
    type V = Seq<u8>;

    closed spec fn view(&self) -> Seq<u8> {
        self.data@
    }
}

/// The part of a buffer of `len` bytes that `slice(start, end)` copies: the
/// end (the length where none is given) and then the start are cut to fit.
pub open spec fn slice_range(len: int, start: int, end: Option<usize>) -> (int, int) {
    let e = match end {
        Some(e) => if e < len {
            e as int
        } else {
            len
        },
        None => len,
    };
    let s = if start < e {
        start
    } else {
        e
    };
    (s, e)
}

impl ByteBuffer {
    /// A buffer holding these bytes.
    pub fn new(data: Vec<u8>) -> (b: Self)
        ensures
            b@ == data@,
    {
        ByteBuffer { data }
    }

    /// `new ByteBuffer(size)` and `ByteBuffer.alloc(size)`: `size` zero bytes.
    pub fn alloc_zeroed(size: usize) -> (b: Self)
        ensures
            b@ == Seq::new(size as nat, |i: int| 0u8),
    {
        let mut data: Vec<u8> = Vec::new();
        for i in 0..size
            invariant
                data@ == Seq::new(i as nat, |j: int| 0u8),
        {
            data.push(0);
            proof {
                assert(data@ =~= Seq::new((i + 1) as nat, |j: int| 0u8));
            }
        }
        ByteBuffer { data }
    }

    /// `ByteBuffer.fromArray(array)`: a buffer holding the array's bytes.
    pub fn from_array(bytes: Vec<u8>) -> (b: Self)
        ensures
            b@ == bytes@,
    {
        ByteBuffer { data: bytes }
    }

    /// The number of bytes.
    pub fn length(&self) -> (n: usize)
        ensures
            n == self@.len(),
    {
        self.data.len()
    }

    /// The bytes.
    pub fn as_slice(&self) -> (s: &[u8])
        ensures
            s@ == self@,
    {
        self.data.as_slice()
    }

    /// The bytes, to write into.
    pub fn as_mut_slice(&mut self) -> (s: &mut [u8])
        ensures
            s@ == old(self)@,
            final(s)@ == final(self)@,
    {
        self.data.as_mut_slice()
    }

    /// `slice(start, end)`: a new buffer with a copy of the bytes from
    /// `start` up to `end`, both cut to fit.
    pub fn slice(&self, start: usize, end: Option<usize>) -> (b: Self)
        ensures
            ({
                let (s, e) = slice_range(self@.len() as int, start as int, end);
                b@ == self@.subrange(s, e)
            }),
    {
        let len = self.data.len();
        let e = match end {
            Some(e) => if e < len {
                e
            } else {
                len
            },
            None => len,
        };
        let s = if start < e {
            start
        } else {
            e
        };
        let mut out: Vec<u8> = Vec::new();
        for i in s..e
            invariant
                s <= e <= self.data@.len(),
                out@ == self.data@.subrange(s as int, i as int),
        {
            out.push(self.data[i]);
            proof {
                assert(out@ =~= self.data@.subrange(s as int, i + 1));
            }
        }
        ByteBuffer { data: out }
    }

    /// `toString()` and `toStr()`: the bytes read as UTF-8, each invalid
    /// sequence replaced by U+FFFD.
    pub fn to_string_lossy(&self) -> (s: String)
        ensures
            s@ == utf8_lossy_text(self@),
            valid_utf8(self@) ==> s@ == decode_utf8(self@),
    {
        from_utf8_lossy(self.data.as_slice())
    }
}

} // verus!
