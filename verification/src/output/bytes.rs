//! Bytes as texts: hexadecimal, base 64, dumps and previews.
use crate::numeral;
use crate::text;
use vstd::prelude::*;
use vstd::string::*;

verus! {

// Hexadecimal.

/// Two digits for each byte.
pub open spec fn hex_text(bytes: Seq<u8>) -> Seq<char> {
    Seq::new(
        2 * bytes.len(),
        |i: int|
            if i % 2 == 0 {
                numeral::digit(bytes[i / 2] as int / 16, true)
            } else {
                numeral::digit(bytes[i / 2] as int % 16, true)
            },
    )
}

/// The digit for a value below 16.
fn hex_digit(d: u8) -> (c: char)
    requires
        d < 16,
    ensures
        c == numeral::digit(d as int, true),
{
    if d < 10 {
        (48u8 + d) as char
    } else {
        (55u8 + d) as char
    }
}

/// Writes two digits for each byte.
pub fn bytes_to_hex(bytes: &[u8]) -> (r: String)
    ensures
        r@ == hex_text(bytes@),
{
    let mut out = String::new();
    let mut i: usize = 0;
    while i < bytes.len()
        invariant
            i <= bytes@.len(),
            out@ == hex_text(bytes@.take(i as int)),
        decreases bytes@.len() - i,
    {
        let b: u8 = bytes[i];
        out.push(hex_digit(b / 16));
        out.push(hex_digit(b % 16));
        proof {
            let before = hex_text(bytes@.take(i as int));
            let after = hex_text(bytes@.take(i + 1));
            assert(after =~= before.push(numeral::digit(b as int / 16, true)).push(
                numeral::digit(b as int % 16, true),
            ));
        }
        i = i + 1;
    }
    assert(bytes@.take(i as int) =~= bytes@);
    assert(bytes@.take(0) =~= Seq::<u8>::empty());
    out
}

proof fn lemma_digit_injective(d: int, e: int)
    requires
        0 <= d < 16,
        0 <= e < 16,
        numeral::digit(d, true) == numeral::digit(e, true),
    ensures
        d == e,
{
}

/// Different bytes have different hexadecimal texts.
pub proof fn law_hex_injective(a: Seq<u8>, b: Seq<u8>)
    requires
        hex_text(a) == hex_text(b),
    ensures
        a == b,
{
    assert(hex_text(a).len() == 2 * a.len() && hex_text(b).len() == 2 * b.len());
    assert forall|i: int| 0 <= i < a.len() implies a[i] == b[i] by {
        assert(hex_text(a)[2 * i] == hex_text(b)[2 * i]);
        assert(hex_text(a)[2 * i + 1] == hex_text(b)[2 * i + 1]);
        assert((2 * i) / 2 == i && (2 * i + 1) / 2 == i && (2 * i) % 2 == 0 && (2 * i + 1) % 2
            == 1);
        assert(hex_text(b)[2 * i] == numeral::digit(b[i] as int / 16, true));
        assert(hex_text(b)[2 * i + 1] == numeral::digit(b[i] as int % 16, true));
        assert(hex_text(a)[2 * i] == numeral::digit(a[i] as int / 16, true));
        assert(hex_text(a)[2 * i + 1] == numeral::digit(a[i] as int % 16, true));
        lemma_digit_injective(a[i] as int / 16, b[i] as int / 16);
        lemma_digit_injective(a[i] as int % 16, b[i] as int % 16);
    }
    assert(a =~= b);
}

/// The hexadecimal text of up to `max` bytes; dots stand for those that are left out.
pub open spec fn hex_preview(bytes: Seq<u8>, max: nat) -> Seq<char> {
    if bytes.len() <= max {
        hex_text(bytes)
    } else {
        hex_text(bytes.take(max as int)) + "..."@
    }
}

/// Writes up to `max_bytes` bytes in hexadecimal.
pub fn bytes_to_hex_preview(bytes: &[u8], max_bytes: usize) -> (r: String)
    ensures
        r@ == hex_preview(bytes@, max_bytes as nat),
{
    if bytes.len() <= max_bytes {
        return bytes_to_hex(bytes);
    }
    let shown = vstd::slice::slice_subrange(bytes, 0, max_bytes);
    assert(shown@ =~= bytes@.take(max_bytes as int));
    bytes_to_hex(shown).concat("...")
}

// Base 64.

/// The character for a value below 64.
pub open spec fn base64_char(v: int) -> char {
    if v < 26 {
        ((65 + v) as u8) as char
    } else if v < 52 {
        ((71 + v) as u8) as char
    } else if v < 62 {
        ((v - 4) as u8) as char
    } else if v == 62 {
        '+'
    } else {
        '/'
    }
}

/// The four characters for a group of one, two or three bytes.
pub open spec fn base64_group(g: Seq<u8>) -> Seq<char> {
    let b0 = g[0] as int;
    let b1 = if g.len() > 1 {
        g[1] as int
    } else {
        0
    };
    let b2 = if g.len() > 2 {
        g[2] as int
    } else {
        0
    };
    seq![
        base64_char(b0 / 4),
        base64_char((b0 % 4) * 16 + b1 / 16),
        if g.len() > 1 {
            base64_char((b1 % 16) * 4 + b2 / 64)
        } else {
            '='
        },
        if g.len() > 2 {
            base64_char(b2 % 64)
        } else {
            '='
        },
    ]
}

/// The bytes in groups of three, the last of which may be shorter.
pub open spec fn base64_text(bytes: Seq<u8>) -> Seq<char>
    decreases bytes.len(),
{
    if bytes.len() == 0 {
        Seq::empty()
    } else if bytes.len() <= 3 {
        base64_group(bytes)
    } else {
        base64_group(bytes.take(3)) + base64_text(bytes.skip(3))
    }
}

fn base64_symbol(v: u8) -> (c: char)
    requires
        v < 64,
    ensures
        c == base64_char(v as int),
{
    if v < 26 {
        (65 + v) as char
    } else if v < 52 {
        (71 + v) as char
    } else if v < 62 {
        (v - 4) as char
    } else if v == 62 {
        '+'
    } else {
        '/'
    }
}

/// Writes the bytes in base 64.
pub fn bytes_to_base64(bytes: &[u8]) -> (r: String)
    ensures
        r@ == base64_text(bytes@),
{
    let mut out = String::new();
    let mut i: usize = 0;
    let n: usize = bytes.len();
    assert(bytes@.skip(0) =~= bytes@);
    assert(out@ + base64_text(bytes@.skip(0)) =~= base64_text(bytes@));
    while i < n
        invariant
            n == bytes@.len(),
            i <= n,
            out@ + base64_text(bytes@.skip(i as int)) == base64_text(bytes@),
        decreases n - i,
    {
        let left: usize = n - i;
        let b0: u8 = bytes[i];
        let b1: u8 = if left > 1 {
            bytes[i + 1]
        } else {
            0
        };
        let b2: u8 = if left > 2 {
            bytes[i + 2]
        } else {
            0
        };
        let ghost was = out@;
        out.push(base64_symbol(b0 / 4));
        out.push(base64_symbol((b0 % 4) * 16 + b1 / 16));
        out.push(
            if left > 1 {
                base64_symbol((b1 % 16) * 4 + b2 / 64)
            } else {
                '='
            },
        );
        out.push(
            if left > 2 {
                base64_symbol(b2 % 64)
            } else {
                '='
            },
        );
        let step: usize = if left > 3 {
            3
        } else {
            left
        };
        proof {
            let rest = bytes@.skip(i as int);
            let group = if rest.len() <= 3 {
                rest
            } else {
                rest.take(3)
            };
            assert(out@ =~= was + base64_group(group));
            assert(rest.skip(step as int) =~= bytes@.skip(i + step));
            if rest.len() > 3 {
                assert(out@ + base64_text(bytes@.skip(i + step)) =~= was + (base64_group(group)
                    + base64_text(rest.skip(3))));
            } else {
                assert(bytes@.skip(i + step) =~= Seq::<u8>::empty());
                assert(out@ + base64_text(bytes@.skip(i + step)) =~= was + base64_group(group));
            }
        }
        i = i + step;
    }
    assert(bytes@.skip(i as int) =~= Seq::<u8>::empty());
    assert(out@ + base64_text(bytes@.skip(i as int)) =~= out@);
    out
}

/// The value of a character of base 64.
pub open spec fn base64_value(c: char) -> int {
    let n = c as int;
    if 65 <= n <= 90 {
        n - 65
    } else if 97 <= n <= 122 {
        n - 71
    } else if 48 <= n <= 57 {
        n + 4
    } else if c == '+' {
        62
    } else {
        63
    }
}

/// The bytes that four characters stand for.
pub open spec fn base64_ungroup(g: Seq<char>) -> Seq<u8> {
    let v0 = base64_value(g[0]);
    let v1 = base64_value(g[1]);
    let v2 = base64_value(g[2]);
    let v3 = base64_value(g[3]);
    if g[2] == '=' {
        seq![(v0 * 4 + v1 / 16) as u8]
    } else if g[3] == '=' {
        seq![(v0 * 4 + v1 / 16) as u8, ((v1 % 16) * 16 + v2 / 4) as u8]
    } else {
        seq![
            (v0 * 4 + v1 / 16) as u8,
            ((v1 % 16) * 16 + v2 / 4) as u8,
            ((v2 % 4) * 64 + v3) as u8,
        ]
    }
}

/// The bytes that a base 64 text stands for.
pub open spec fn base64_bytes(t: Seq<char>) -> Seq<u8>
    decreases t.len(),
{
    if t.len() < 4 {
        Seq::empty()
    } else {
        base64_ungroup(t.take(4)) + base64_bytes(t.skip(4))
    }
}

proof fn lemma_base64_value(v: int)
    requires
        0 <= v < 64,
    ensures
        base64_value(base64_char(v)) == v,
        base64_char(v) != '=',
{
}

proof fn lemma_base64_group(g: Seq<u8>)
    requires
        1 <= g.len() <= 3,
    ensures
        base64_ungroup(base64_group(g)) == g,
        base64_group(g).len() == 4,
{
    let b0 = g[0] as int;
    let b1 = if g.len() > 1 {
        g[1] as int
    } else {
        0
    };
    let b2 = if g.len() > 2 {
        g[2] as int
    } else {
        0
    };
    lemma_base64_value(b0 / 4);
    lemma_base64_value((b0 % 4) * 16 + b1 / 16);
    lemma_base64_value((b1 % 16) * 4 + b2 / 64);
    lemma_base64_value(b2 % 64);
    assert(base64_ungroup(base64_group(g)) =~= g);
}

/// The bytes that the base 64 text of some bytes stands for are those bytes.
pub proof fn law_base64_round_trip(bytes: Seq<u8>)
    ensures
        base64_bytes(base64_text(bytes)) == bytes,
    decreases bytes.len(),
{
    let t = base64_text(bytes);
    if bytes.len() == 0 {
        assert(base64_bytes(t) =~= bytes);
    } else if bytes.len() <= 3 {
        lemma_base64_group(bytes);
        assert(t.take(4) =~= t);
        assert(t.skip(4) =~= Seq::<char>::empty());
        assert(base64_bytes(t.skip(4)) =~= Seq::<u8>::empty());
        assert(base64_bytes(t) =~= bytes);
    } else {
        let head = bytes.take(3);
        lemma_base64_group(head);
        law_base64_round_trip(bytes.skip(3));
        assert(t.take(4) =~= base64_group(head));
        assert(t.skip(4) =~= base64_text(bytes.skip(3)));
        assert(head + bytes.skip(3) =~= bytes);
    }
}

// Dumps and previews.

/// The bytes with two digits each.
pub open spec fn hex_pairs(bytes: Seq<u8>) -> Seq<Seq<char>> {
    Seq::new(bytes.len(), |i: int| numeral::hex_padded(bytes[i] as nat, 2))
}

/// A line of a dump: where it starts, and its bytes.
pub open spec fn dump_line(start: nat, bytes: Seq<u8>) -> Seq<char> {
    numeral::hex_padded(start, 4) + ": "@ + text::joined(hex_pairs(bytes), " "@) + "\n"@
}

/// The end of the line that starts at `start`.
pub open spec fn line_end(len: nat, per_line: nat, start: nat) -> nat {
    if start + per_line <= len {
        start + per_line
    } else {
        len
    }
}

/// The lines of a dump from `start` on.
pub open spec fn dump_from(bytes: Seq<u8>, per_line: nat, start: nat) -> Seq<char>
    decreases bytes.len() - start,
{
    if start >= bytes.len() || per_line == 0 {
        Seq::empty()
    } else {
        let end = line_end(bytes.len(), per_line, start);
        dump_line(start, bytes.subrange(start as int, end as int)) + dump_from(
            bytes,
            per_line,
            end,
        )
    }
}

/// A dump with a number of bytes in each line; 0 counts as 1.
pub open spec fn hex_dump(bytes: Seq<u8>, per_line: nat) -> Seq<char> {
    dump_from(
        bytes,
        if per_line == 0 {
            1
        } else {
            per_line
        },
        0,
    )
}

fn dump_line_text(bytes: &[u8], start: usize, end: usize) -> (r: String)
    requires
        start <= end <= bytes@.len(),
    ensures
        r@ == dump_line(start as nat, bytes@.subrange(start as int, end as int)),
{
    let mut pairs: Vec<String> = Vec::new();
    let mut i: usize = start;
    let ghost line = bytes@.subrange(start as int, end as int);
    while i < end
        invariant
            start <= i <= end <= bytes@.len(),
            line == bytes@.subrange(start as int, end as int),
            pairs@.len() == i - start,
            forall|k: int|
                0 <= k < i - start ==> (#[trigger] pairs@[k])@ == numeral::hex_padded(
                    line[k] as nat,
                    2,
                ),
        decreases end - i,
    {
        pairs.push(numeral::hex_padded_string(bytes[i] as u64, 2));
        i = i + 1;
    }
    assert(text::texts(pairs@) =~= hex_pairs(line));
    numeral::hex_padded_string(start as u64, 4).concat(": ").concat(
        text::join(&pairs, " ").as_str(),
    ).concat("\n")
}

/// Writes a dump with a number of bytes in each line.
pub fn format_hex_dump(bytes: &[u8], bytes_per_line: usize) -> (r: String)
    ensures
        r@ == hex_dump(bytes@, bytes_per_line as nat),
{
    let bpl: usize = if bytes_per_line == 0 {
        1
    } else {
        bytes_per_line
    };
    let mut out = String::new();
    let mut start: usize = 0;
    let n: usize = bytes.len();
    assert(out@ + dump_from(bytes@, bpl as nat, 0) =~= dump_from(bytes@, bpl as nat, 0));
    while start < n
        invariant
            n == bytes@.len(),
            start <= n,
            bpl > 0,
            out@ + dump_from(bytes@, bpl as nat, start as nat) == dump_from(
                bytes@,
                bpl as nat,
                0,
            ),
        decreases n - start,
    {
        let end: usize = if bpl <= n - start {
            start + bpl
        } else {
            n
        };
        let line = dump_line_text(bytes, start, end);
        let ghost was = out@;
        out.append(line.as_str());
        assert(out@ + dump_from(bytes@, bpl as nat, end as nat) =~= was + (line@ + dump_from(
            bytes@,
            bpl as nat,
            end as nat,
        )));
        start = end;
    }
    assert(out@ + dump_from(bytes@, bpl as nat, start as nat) =~= out@);
    out
}

/// The printable characters among up to `max` bytes; dots stand for the others.
pub open spec fn ascii_text(bytes: Seq<u8>, max: nat) -> Seq<char> {
    Seq::new(
        if bytes.len() <= max {
            bytes.len()
        } else {
            max
        },
        |i: int|
            if 0x20 <= bytes[i] <= 0x7E {
                bytes[i] as char
            } else {
                '.'
            },
    )
}

/// Writes the printable characters among up to `max` bytes.
pub fn ascii_preview(bytes: &[u8], max: usize) -> (r: String)
    ensures
        r@ == ascii_text(bytes@, max as nat),
{
    let mut out = String::new();
    let mut i: usize = 0;
    while i < bytes.len() && i < max
        invariant
            i <= bytes@.len(),
            i <= max,
            out@ == ascii_text(bytes@, i as nat),
        decreases bytes@.len() - i,
    {
        let b: u8 = bytes[i];
        out.push(
            if 0x20 <= b && b <= 0x7E {
                b as char
            } else {
                '.'
            },
        );
        i = i + 1;
        assert(out@ =~= ascii_text(bytes@, i as nat));
    }
    assert(out@ =~= ascii_text(bytes@, max as nat));
    out
}

} // verus!
