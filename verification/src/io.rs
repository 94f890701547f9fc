//! Reading little-endian values out of the bytes of an image.
use crate::error::{Error, ErrorModel};
use vstd::prelude::*;
use vstd::string::*;

verus! {

/// The result with its error as a model.
pub open spec fn outcome<T>(r: Result<T, Error>) -> Result<T, ErrorModel> {
    match r {
        Ok(v) => Ok(v),
        Err(e) => Err(e@),
    }
}

/// The value of the `n` little-endian bytes of `s` from `at` on.
pub open spec fn little_endian(s: Seq<u8>, at: int, n: nat) -> nat
    decreases n,
{
    if n == 0 {
        0
    } else {
        s[at] as nat + 256 * little_endian(s, at + 1, (n - 1) as nat)
    }
}

/// The word of `n` bytes at the offset `at`; reading past the end fails.
pub open spec fn word_at(s: Seq<u8>, at: u64, n: nat) -> Result<nat, ErrorModel> {
    if at + n <= s.len() {
        Ok(little_endian(s, at as int, n))
    } else {
        Err(ErrorModel::OutOfBounds { offset: at as nat, size: n })
    }
}

/// The number that a 32-bit word holds in two's complement.
pub open spec fn signed(v: nat) -> int {
    if v < 0x8000_0000 {
        v as int
    } else {
        v - 0x1_0000_0000
    }
}

/// An array of `count` elements is plausible: not too long, and not longer than what is left.
pub open spec fn array_fits(count: nat, elem_size: nat, remaining: nat, limit: nat) -> bool {
    count <= limit && count * elem_size <= remaining
}

/// The number of elements of a plausible array.
pub open spec fn array_len(
    count: u64,
    elem_size: nat,
    remaining: nat,
    context: Seq<char>,
    limit: usize,
) -> Result<usize, ErrorModel> {
    if array_fits(count as nat, elem_size, remaining, limit as nat) {
        Ok(count as usize)
    } else {
        Err(ErrorModel::InvalidArraySize { count: count as nat, elem_size, context })
    }
}

/// Checks the length of an array against a limit and against the bytes that are left.
pub fn checked_array_len(
    count: u64,
    elem_size: usize,
    remaining: u64,
    context: &str,
    limit: usize,
) -> (r: Result<usize, Error>)
    ensures
        outcome(r) == array_len(count, elem_size as nat, remaining as nat, context@, limit),
{
    assert(count * elem_size <= u64::MAX * u64::MAX) by (nonlinear_arith)
        requires
            count <= u64::MAX,
            elem_size <= u64::MAX,
    ;
    if count <= limit as u64 && (count as u128) * (elem_size as u128) <= remaining as u128 {
        Ok(count as usize)
    } else {
        Err(Error::InvalidArraySize { count, elem_size, context: context.to_owned() })
    }
}

/// The bytes of an image, with what is known of their format.
pub struct BinaryStream {
    pub bytes: Vec<u8>,
    pub version: u32,
    pub is_32bit: bool,
    pub image_base: u64,
    /// The longest array that is taken for plausible.
    pub max_array_elems: usize,
}

/// The size of a pointer.
pub open spec fn pointer_len(is_32bit: bool) -> nat {
    if is_32bit {
        4
    } else {
        8
    }
}

/// The `n` pointers that stand one after the other from the offset `at` on.
pub open spec fn pointers_at(s: Seq<u8>, is_32bit: bool, at: u64, n: nat) -> Seq<u64> {
    Seq::new(
        n,
        |i: int|
            little_endian(s, at + i * pointer_len(is_32bit), pointer_len(is_32bit)) as u64,
    )
}

/// The array of `count` pointers at the offset `at`.
pub open spec fn pointer_array(
    s: Seq<u8>,
    is_32bit: bool,
    limit: usize,
    at: u64,
    count: u64,
    context: Seq<char>,
) -> Result<Seq<u64>, ErrorModel> {
    match array_len(count, pointer_len(is_32bit), left_from(s, at), context, limit) {
        Ok(n) => Ok(pointers_at(s, is_32bit, at, n as nat)),
        Err(e) => Err(e),
    }
}

/// The number of bytes from the offset `at` on.
pub open spec fn left_from(s: Seq<u8>, at: u64) -> nat {
    if at <= s.len() {
        (s.len() - at) as nat
    } else {
        0
    }
}

/// The result with its vector as a sequence and its error as a model.
pub open spec fn array_outcome<T>(r: Result<Vec<T>, Error>) -> Result<Seq<T>, ErrorModel> {
    match r {
        Ok(v) => Ok(v@),
        Err(e) => Err(e@),
    }
}

proof fn lemma_little_endian_bound(s: Seq<u8>, at: int)
    ensures
        little_endian(s, at, 4) == s[at] + 256 * (s[at + 1] + 256 * (s[at + 2] + 256 * s[at + 3])),
        little_endian(s, at, 4) < 0x1_0000_0000,
        little_endian(s, at, 8) == little_endian(s, at, 4) + 0x1_0000_0000 * little_endian(s, at + 4, 4),
        little_endian(s, at, 8) < 0x1_0000_0000_0000_0000,
{
    reveal_with_fuel(little_endian, 9);
}

impl BinaryStream {
    /// The size of a pointer in the image.
    pub fn pointer_size(&self) -> (r: usize)
        ensures
            r == pointer_len(self.is_32bit),
    {
        if self.is_32bit {
            4
        } else {
            8
        }
    }

    /// The number of bytes.
    pub fn len(&self) -> (r: u64)
        ensures
            r == self.bytes@.len(),
            r <= usize::MAX,
    {
        self.bytes.len() as u64
    }

    /// The number of bytes from the offset `at` on.
    pub fn remaining_from(&self, at: u64) -> (r: u64)
        ensures
            r == left_from(self.bytes@, at),
            self.bytes@.len() <= usize::MAX,
    {
        let len: u64 = self.len();
        if at <= len {
            len - at
        } else {
            0
        }
    }

    /// The 32-bit word at the offset `at`.
    pub fn peek_u32_at(&self, at: u64) -> (r: Result<u32, Error>)
        ensures
            outcome(r) == match word_at(self.bytes@, at, 4) {
                Ok(v) => Ok(v as u32),
                Err(e) => Err(e),
            },
            word_at(self.bytes@, at, 4) matches Ok(v) ==> v <= u32::MAX,
    {
        proof {
            lemma_little_endian_bound(self.bytes@, at as int);
        }
        if self.remaining_from(at) < 4 {
            return Err(Error::OutOfBounds { offset: at, size: 4 });
        }
        let i: usize = at as usize;
        let b0: u32 = self.bytes[i] as u32;
        let b1: u32 = self.bytes[i + 1] as u32;
        let b2: u32 = self.bytes[i + 2] as u32;
        let b3: u32 = self.bytes[i + 3] as u32;
        Ok(b0 + 256 * (b1 + 256 * (b2 + 256 * b3)))
    }

    /// The 64-bit word at the offset `at`.
    pub fn peek_u64_at(&self, at: u64) -> (r: Result<u64, Error>)
        ensures
            outcome(r) == match word_at(self.bytes@, at, 8) {
                Ok(v) => Ok(v as u64),
                Err(e) => Err(e),
            },
            word_at(self.bytes@, at, 8) matches Ok(v) ==> v <= u64::MAX,
    {
        proof {
            lemma_little_endian_bound(self.bytes@, at as int);
            lemma_little_endian_bound(self.bytes@, at + 4);
        }
        if self.remaining_from(at) < 8 {
            return Err(Error::OutOfBounds { offset: at, size: 8 });
        }
        let low = self.peek_u32_at(at);
        let high = self.peek_u32_at(at + 4);
        match (low, high) {
            (Ok(l), Ok(h)) => Ok(l as u64 + 0x1_0000_0000 * (h as u64)),
            (Err(e), _) => Err(e),
            (_, Err(e)) => Err(e),
        }
    }

    /// The signed 32-bit word at the offset `at`.
    pub fn peek_i32_at(&self, at: u64) -> (r: Result<i32, Error>)
        ensures
            outcome(r) == match word_at(self.bytes@, at, 4) {
                Ok(v) => Ok(signed(v) as i32),
                Err(e) => Err(e),
            },
            word_at(self.bytes@, at, 4) matches Ok(v) ==> v <= u32::MAX,
    {
        match self.peek_u32_at(at) {
            Ok(v) => if v < 0x8000_0000 {
                Ok(v as i32)
            } else {
                Ok(-((0xFFFF_FFFF - v) as i32) - 1)
            },
            Err(e) => Err(e),
        }
    }

    /// The pointer at the offset `at`.
    pub fn peek_ptr_at(&self, at: u64) -> (r: Result<u64, Error>)
        ensures
            outcome(r) == match word_at(self.bytes@, at, pointer_len(self.is_32bit)) {
                Ok(v) => Ok(v as u64),
                Err(e) => Err(e),
            },
            word_at(self.bytes@, at, pointer_len(self.is_32bit)) matches Ok(v) ==> v <= u64::MAX,
    {
        if self.is_32bit {
            match self.peek_u32_at(at) {
                Ok(v) => Ok(v as u64),
                Err(e) => Err(e),
            }
        } else {
            self.peek_u64_at(at)
        }
    }

    /// The array of `count` pointers at the offset `at`.
    pub fn read_ptr_array(&self, at: u64, count: u64, context: &str) -> (r: Result<Vec<u64>, Error>)
        ensures
            array_outcome(r) == pointer_array(
                self.bytes@,
                self.is_32bit,
                self.max_array_elems,
                at,
                count,
                context@,
            ),
    {
        let size: usize = self.pointer_size();
        let n: usize = match checked_array_len(
            count,
            size,
            self.remaining_from(at),
            context,
            self.max_array_elems,
        ) {
            Ok(n) => n,
            Err(e) => {
                return Err(e);
            },
        };
        let mut out: Vec<u64> = Vec::new();
        let mut i: usize = 0;
        let ghost want = pointers_at(self.bytes@, self.is_32bit, at, n as nat);
        while i < n
            invariant
                size == pointer_len(self.is_32bit),
                n * size <= left_from(self.bytes@, at),
                self.bytes@.len() <= usize::MAX,
                i <= n,
                want == pointers_at(self.bytes@, self.is_32bit, at, n as nat),
                out@ == want.take(i as int),
            decreases n - i,
        {
            assert(0 <= i * size && i * size + size <= n * size) by (nonlinear_arith)
                requires
                    0 <= i < n,
                    0 < size,
            ;
            assert(at <= self.bytes@.len());
            let offset: u64 = at + (i as u64) * (size as u64);
            match self.peek_ptr_at(offset) {
                Ok(v) => {
                    out.push(v);
                    assert(want.take(i + 1) =~= want.take(i as int).push(want[i as int]));
                },
                Err(e) => {
                    return Err(e);
                },
            }
            i = i + 1;
        }
        assert(want.take(n as int) =~= want);
        Ok(out)
    }
}

} // verus!
