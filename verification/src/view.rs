use crate::datatype::be_value;
use crate::datatype::le_value;
use crate::datatype::lemma_be_value_bound;
use crate::datatype::lemma_le_value_bound;
use crate::datatype::lemma_pow256_values;
use crate::datatype::u64_from_be_slice;
use crate::datatype::u64_from_le_slice;
use vstd::prelude::*;
use vstd::slice::slice_index_get;
use vstd::view::View as _;
use vstd::slice::slice_subrange;

verus! {

/// The data index that the view index `i` denotes for a window that begins at
/// `start` and advances `stride` bytes per logical step.
pub open spec fn index_of(start: int, stride: int, i: int) -> int {
    start + i * stride
}

/// The byte that a strided, bounds-checked read of view index `i` yields:
/// no value whenever the data index falls outside the buffer.
pub open spec fn byte_of(data: Seq<u8>, start: int, stride: int, i: int) -> Option<u8> {
    let di = index_of(start, stride, i);
    if 0 <= di < data.len() {
        Some(data[di])
    } else {
        None
    }
}

/// The `n`-byte window that a read at view index `i` yields: the contiguous
/// bytes at data indices `[index_of(i), index_of(i) + n)`, or no value unless
/// that whole range lies inside the buffer.  There are no partial windows.
pub open spec fn window_of(data: Seq<u8>, start: int, stride: int, i: int, n: int) -> Option<
    Seq<u8>,
> {
    let di = index_of(start, stride, i);
    if 0 <= di && di + n <= data.len() {
        Some(data.subrange(di, di + n))
    } else {
        None
    }
}

/// Truncating (round-toward-zero) signed division, the behaviour of the `/`
/// operator of the executable language, for a positive divisor.
pub open spec fn div_toward_zero(a: int, b: int) -> int {
    if a >= 0 {
        a / b
    } else {
        -((-a) / b)
    }
}

/// A read-only logical window over a byte buffer, parameterized by a start
/// offset and a stride.  View index `i` maps to data index `start + i *
/// stride`; every read primitive is bounds-checked and yields no value rather
/// than a partial or out-of-range result.
pub struct View<'a> {
    stride: isize,
    start: isize,
    data: &'a [u8],
}

impl<'a> View<'a> {
    /// The underlying bytes as a mathematical sequence.
    pub closed spec fn spec_data(&self) -> Seq<u8> {
        self.data@
    }

    /// The start offset of the window.
    pub closed spec fn spec_start(&self) -> int {
        self.start as int
    }

    /// The number of raw bytes advanced per logical index increment.
    pub closed spec fn spec_stride(&self) -> int {
        self.stride as int
    }

    /// A well-formed view advances by at least one byte per logical step.
    pub open spec fn wf(&self) -> bool {
        self.spec_stride() >= 1
    }

    /// The data index denoted by `view_index`.
    pub open spec fn spec_data_index(&self, view_index: int) -> int {
        index_of(self.spec_start(), self.spec_stride(), view_index)
    }

    /// What `byte_at` returns.
    pub open spec fn spec_byte_at(&self, view_index: int) -> Option<u8> {
        byte_of(self.spec_data(), self.spec_start(), self.spec_stride(), view_index)
    }

    /// What `slice_at` returns, as a sequence.
    pub open spec fn spec_slice_at(&self, view_index: int, n: int) -> Option<Seq<u8>> {
        window_of(self.spec_data(), self.spec_start(), self.spec_stride(), view_index, n)
    }

    /// The number of view indices whose first byte lies inside the buffer,
    /// `(len - start + stride - 1) / stride` rounded toward zero; meaningless
    /// (possibly negative) when `start` lies beyond the buffer.
    pub open spec fn spec_len(&self) -> int {
        div_toward_zero(
            self.spec_data().len() - self.spec_start() + self.spec_stride() - 1,
            self.spec_stride(),
        )
    }

    /// Builds a view over `data`.  A stride below one is a contract
    /// violation, not a recoverable error.
    pub fn new(data: &'a [u8], start: isize, stride: isize) -> (v: Self)
        requires
            stride >= 1,
        ensures
            v.spec_data() == data@,
            v.spec_start() == start as int,
            v.spec_stride() == stride as int,
            v.wf(),
    {
        View { start, stride, data }
    }

    /// The length of the logical index space, rounded toward positive
    /// infinity for the trailing partial stride.  Callers must not rely on
    /// this for bounds correctness; only the checks of `byte_at` and
    /// `slice_at` matter.
    pub fn len(&self) -> (n: isize)
        requires
            self.wf(),
            isize::MIN <= self.spec_data().len() - self.spec_start() + self.spec_stride()
                - 1 <= isize::MAX,
        ensures
            n == self.spec_len(),
    {
        let num: i128 = self.data.len() as i128 - self.start as i128 + self.stride as i128 - 1;
        if num >= 0 {
            ((num as u128) / (self.stride as u128)) as isize
        } else {
            proof {
                vstd::arithmetic::div_mod::lemma_div_nonincreasing(
                    (-num) as int,
                    self.stride as int,
                );
            }
            -((((-num) as u128) / (self.stride as u128)) as i128) as isize
        }
    }

    /// The data index that `view_index` denotes.  The result is exact: the
    /// computation is carried out in a type wide enough that it cannot
    /// overflow.
    pub fn data_index(&self, view_index: isize) -> (di: i128)
        ensures
            di == self.spec_data_index(view_index as int),
    {
        proof {
            lemma_index_product_bounded(view_index as int, self.stride as int);
        }
        self.start as i128 + (view_index as i128) * (self.stride as i128)
    }

    /// The byte at `view_index`, or no value iff its data index lies outside
    /// `[0, len)`.
    pub fn byte_at(&self, view_index: isize) -> (r: Option<u8>)
        ensures
            r == self.spec_byte_at(view_index as int),
    {
        let di = self.data_index(view_index);
        if 0 <= di && di < self.data.len() as i128 {
            Some(*slice_index_get(self.data, di as usize))
        } else {
            None
        }
    }

    /// The four bytes at `view_index` decoded as a little-endian 32-bit
    /// integer; no value unless the whole window is inside the buffer.
    pub fn le_u32_at(&self, view_index: isize) -> (r: Option<u32>)
        ensures
            match (r, self.spec_slice_at(view_index as int, 4)) {
                (Some(v), Some(w)) => v == le_value(w),
                (None, None) => true,
                _ => false,
            },
    {
        match self.slice_at(view_index, 4) {
            Some(s) => {
                proof {
                    lemma_le_value_bound(s@);
                    lemma_pow256_values();
                }
                Some(u64_from_le_slice(s) as u32)
            },
            None => None,
        }
    }

    /// The four bytes at `view_index` decoded as a big-endian 32-bit
    /// integer; no value unless the whole window is inside the buffer.
    pub fn be_u32_at(&self, view_index: isize) -> (r: Option<u32>)
        ensures
            match (r, self.spec_slice_at(view_index as int, 4)) {
                (Some(v), Some(w)) => v == be_value(w),
                (None, None) => true,
                _ => false,
            },
    {
        match self.slice_at(view_index, 4) {
            Some(s) => {
                proof {
                    lemma_be_value_bound(s@);
                    lemma_pow256_values();
                }
                Some(u64_from_be_slice(s) as u32)
            },
            None => None,
        }
    }

    /// The two bytes at `view_index` decoded as a 16-bit integer, read
    /// least-significant byte first, the name notwithstanding; no value
    /// unless the whole window is inside the buffer.
    pub fn be_u16_at(&self, view_index: isize) -> (r: Option<u16>)
        ensures
            match (r, self.spec_slice_at(view_index as int, 2)) {
                (Some(v), Some(w)) => v == le_value(w),
                (None, None) => true,
                _ => false,
            },
    {
        match self.slice_at(view_index, 2) {
            Some(s) => {
                proof {
                    lemma_le_value_bound(s@);
                    lemma_pow256_values();
                }
                Some(u64_from_le_slice(s) as u16)
            },
            None => None,
        }
    }

    /// The three bytes at `view_index`, in buffer order; no value unless the
    /// whole window is inside the buffer.
    pub fn rgb_at(&self, view_index: isize) -> (r: Option<[u8; 3]>)
        ensures
            match (r, self.spec_slice_at(view_index as int, 3)) {
                (Some(t), Some(w)) => t@ == w,
                (None, None) => true,
                _ => false,
            },
    {
        match self.slice_at(view_index, 3) {
            Some(s) => {
                let t = [*slice_index_get(s, 0), *slice_index_get(s, 1), *slice_index_get(s, 2)];
                proof {
                    assert(t@ =~= s@);
                }
                Some(t)
            },
            None => None,
        }
    }

    /// The `n` contiguous bytes starting at the data index of `view_index`,
    /// or no value unless the whole window lies inside the buffer.  A window
    /// that straddles the end of the buffer yields no value, never a
    /// truncated slice.
    pub fn slice_at(&self, view_index: isize, n: usize) -> (r: Option<&'a [u8]>)
        ensures
            match r {
                Some(s) => self.spec_slice_at(view_index as int, n as int) == Some(s@),
                None => self.spec_slice_at(view_index as int, n as int) is None,
            },
    {
        let di = self.data_index(view_index);
        if 0 <= di && di <= self.data.len() as i128 && n as i128 <= self.data.len() as i128 - di {
            Some(slice_subrange(self.data, di as usize, di as usize + n))
        } else {
            None
        }
    }
}

/// The product of two values of the pointer-sized signed type stays within
/// the doubled-width signed type.
proof fn lemma_index_product_bounded(a: int, b: int)
    requires
        isize::MIN <= a <= isize::MAX,
        isize::MIN <= b <= isize::MAX,
    ensures
        -0x4000_0000_0000_0000_0000_0000_0000_0000 <= a * b
            <= 0x4000_0000_0000_0000_0000_0000_0000_0000,
{
    assert(-0x4000_0000_0000_0000_0000_0000_0000_0000 <= a * b
        <= 0x4000_0000_0000_0000_0000_0000_0000_0000) by (nonlinear_arith)
        requires
            -0x8000_0000_0000_0000 <= a <= 0x7fff_ffff_ffff_ffff,
            -0x8000_0000_0000_0000 <= b <= 0x7fff_ffff_ffff_ffff,
    ;
}

} // verus!
