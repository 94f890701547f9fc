//! What the words of a file are made of.
use crate::error::ErrorModel;
use crate::io;
use vstd::prelude::*;

verus! {

/// The number that a metadata version is given by.
pub open spec fn version_number(major: int, minor: int) -> int {
    100 * major + 10 * minor
}

/// The four bytes from `at` on as a number, the first byte counting least.
pub open spec fn word32(s: Seq<u8>, at: int) -> int {
    s[at] + 0x100 * s[at + 1] + 0x1_0000 * s[at + 2] + 0x100_0000 * s[at + 3]
}

/// The eight bytes from `at` on as a number, the first byte counting least.
pub open spec fn word64(s: Seq<u8>, at: int) -> int {
    word32(s, at) + 0x1_0000_0000 * word32(s, at + 4)
}

/// The number of bytes of a pointer.
pub open spec fn pointer_bytes(is_32bit: bool) -> int {
    if is_32bit {
        4
    } else {
        8
    }
}

/// The pointer that stands at `at`.
pub open spec fn pointer_word(s: Seq<u8>, is_32bit: bool, at: int) -> int {
    if is_32bit {
        word32(s, at)
    } else {
        word64(s, at)
    }
}

/// A word of four or eight bytes is made of these bytes, the first one counting least. It can be
/// read where all its bytes stand in the file; elsewhere reading fails with the place and the size.
pub proof fn law_words(s: Seq<u8>, at: u64)
    ensures
        io::little_endian(s, at as int, 4) == word32(s, at as int),
        io::little_endian(s, at as int, 8) == word64(s, at as int),
        0 <= word32(s, at as int) < 0x1_0000_0000,
        0 <= word64(s, at as int) < 0x1_0000_0000_0000_0000,
        at + 4 <= s.len() ==> io::word_at(s, at, 4) == Ok::<nat, ErrorModel>(
            word32(s, at as int) as nat,
        ),
        at + 8 <= s.len() ==> io::word_at(s, at, 8) == Ok::<nat, ErrorModel>(
            word64(s, at as int) as nat,
        ),
        forall|n: nat|
            at + n > s.len() ==> #[trigger] io::word_at(s, at, n) == Err::<nat, ErrorModel>(
                ErrorModel::OutOfBounds { offset: at as nat, size: n },
            ),
{
    lemma_words(s, at as int);
}

pub(crate) proof fn lemma_words(s: Seq<u8>, at: int)
    ensures
        io::little_endian(s, at, 4) == word32(s, at),
        io::little_endian(s, at, 8) == word64(s, at),
        0 <= word32(s, at) < 0x1_0000_0000,
        0 <= word64(s, at) < 0x1_0000_0000_0000_0000,
{
    reveal_with_fuel(io::little_endian, 9);
}

/// The same 32 bits stand for a number from 0 on and for a number in two's complement: the two
/// agree below the middle, and differ by the whole range from there on.
pub proof fn law_signed(v: nat)
    requires
        v < 0x1_0000_0000,
    ensures
        -0x8000_0000 <= io::signed(v) < 0x8000_0000,
        (io::signed(v) - v) % 0x1_0000_0000 == 0,
        io::signed(v) >= 0 <==> v < 0x8000_0000,
{
}

/// An array of pointers at an offset is read as many pointers as are asked for, each from the place
/// that its number gives, if and only if they are not more than the limit and stand in the file.
pub proof fn law_pointer_array(
    s: Seq<u8>,
    is_32bit: bool,
    limit: usize,
    at: u64,
    count: u64,
    context: Seq<char>,
)
    ensures
        ({
            let r = io::pointer_array(s, is_32bit, limit, at, count, context);
            &&& r is Ok <==> count == 0 || (count <= limit && at + count * pointer_bytes(is_32bit)
                <= s.len())
            &&& r matches Ok(v) ==> v.len() == count && forall|i: int|
                0 <= i < count ==> #[trigger] v[i] == pointer_word(
                    s,
                    is_32bit,
                    at + i * pointer_bytes(is_32bit),
                )
            &&& r matches Err(e) ==> e == (ErrorModel::InvalidArraySize {
                count: count as nat,
                elem_size: pointer_bytes(is_32bit) as nat,
                context,
            })
        }),
{
    let r = io::pointer_array(s, is_32bit, limit, at, count, context);
    if let Ok(v) = r {
        assert forall|i: int| 0 <= i < count implies #[trigger] v[i] == pointer_word(
            s,
            is_32bit,
            at + i * pointer_bytes(is_32bit),
        ) by {
            lemma_words(s, at + i * pointer_bytes(is_32bit));
        }
    }
}

/// The length of an array is taken as it is given if and only if it is within the limit and the
/// array is not longer than what is left.
pub proof fn law_array_len(
    count: u64,
    elem_size: nat,
    left: nat,
    context: Seq<char>,
    limit: usize,
)
    ensures
        ({
            let r = io::array_len(count, elem_size, left, context, limit);
            &&& r is Ok <==> count <= limit && count * elem_size <= left
            &&& r matches Ok(n) ==> n == count
            &&& r matches Err(e) ==> e == (ErrorModel::InvalidArraySize {
                count: count as nat,
                elem_size,
                context,
            })
        }),
{
}

} // verus!
