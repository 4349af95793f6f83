//! Hex dumps of memory, one line per 16 bytes:
//! `00000000  23 20 42 4c 49 47 48 54  20 62 79 20 4a 6f 6c 61  |# BLIGHT by Jola|`
use vstd::prelude::*;
use vstd::string::StringSliceAdditionalSpecFns;
use vstd::utf8::valid_utf8;
use crate::parse::{parse_usize, parse_usize_spec};
use crate::fixed_string::FixedString;
use crate::screen::VGA_WIDTH;

verus! {

/// How many bytes the `STACK` command dumps: its argument, or 128 without
/// one; `None` where the argument is not a number (nothing is dumped).
pub open spec fn stack_dump_size_spec(args: Seq<Seq<u8>>) -> Option<usize> {
    let a = if args.len() > 0 {
        args[0]
    } else {
        "128".spec_bytes()
    };
    match parse_usize_spec(a) {
        Ok(v) => Some(v as usize),
        Err(_) => None,
    }
}

/// The size the `STACK` command with arguments `args` dumps (see
/// `stack_dump_size_spec`).
pub fn stack_dump_cmd(args: &[Vec<u8>]) -> (r: Option<usize>)
    ensures
        r == stack_dump_size_spec(args@.map_values(|w: Vec<u8>| w@)),
{
    let r = if args.len() > 0 {
        parse_usize(args[0].as_slice())
    } else {
        parse_usize("128".as_bytes())
    };
    match r {
        Ok(size) => Some(size),
        Err(_) => None,
    }
}


/// The character shown for byte `c` in the text column of a dump: itself
/// where printable ASCII, a dot otherwise.
pub open spec fn ascii_repr(c: u8) -> u8 {
    if 32 <= c <= 126 {
        c
    } else {
        0x2e
    }
}

/// The character shown for byte `c` in the text column of a dump.
pub fn get_ascii_representation(c: u8) -> (r: char)
    ensures
        r == ascii_repr(c) as char,
{
    if c >= 32 && c <= 126 {
        c as char
    } else {
        '.'
    }
}

/// A lowercase hexadecimal digit.
pub open spec fn hex_digit(d: int) -> u8 {
    if d < 10 {
        (0x30 + d) as u8
    } else {
        (0x61 + d - 10) as u8
    }
}

/// The `w` lowest hexadecimal digits of `n`, most significant first: for
/// `n < 16^w`, `n` in lowercase hexadecimal zero-padded to `w` digits.
pub open spec fn hex_fixed(n: nat, w: nat) -> Seq<u8>
    decreases w,
{
    if w == 0 {
        Seq::empty()
    } else {
        hex_fixed(n / 16, (w - 1) as nat).push(hex_digit((n % 16) as int))
    }
}

/// Column `i` of the hex part of a dump line of `s`: a separating space
/// before columns 0 and 8, then the byte in two digits and a space, or
/// three spaces past the end of `s`.
pub open spec fn hex_column(s: Seq<u8>, i: int) -> Seq<u8> {
    (if i % 8 == 0 {
        seq![0x20u8]
    } else {
        Seq::empty()
    }) + (if i < s.len() {
        hex_fixed(s[i] as nat, 2).push(0x20)
    } else {
        seq![0x20u8, 0x20, 0x20]
    })
}

/// The first `k` hex columns.
pub open spec fn hex_columns(s: Seq<u8>, k: nat) -> Seq<u8>
    decreases k,
{
    if k == 0 {
        Seq::empty()
    } else {
        hex_columns(s, (k - 1) as nat) + hex_column(s, k - 1)
    }
}

/// The dump line of the (at most 16) bytes `s` at address `count`: the
/// address in eight hex digits, sixteen hex columns, and the bytes as text
/// between bars.
pub open spec fn dump_line(s: Seq<u8>, count: nat) -> Seq<u8> {
    hex_fixed(count, 8) + seq![0x20u8] + hex_columns(s, 16) + seq![0x20u8, 0x7c] + s.map_values(
        |c: u8| ascii_repr(c),
    ) + seq![0x7cu8]
}

proof fn lemma_hex_fixed_len(n: nat, w: nat)
    ensures
        hex_fixed(n, w).len() == w,
    decreases w,
{
    if w > 0 {
        lemma_hex_fixed_len(n / 16, (w - 1) as nat);
    }
}

proof fn lemma_hex_columns_len(s: Seq<u8>, k: nat)
    requires
        k <= 16,
    ensures
        hex_columns(s, k).len() == 3 * k + (k + 7) / 8,
    decreases k,
{
    if k > 0 {
        lemma_hex_columns_len(s, (k - 1) as nat);
        lemma_hex_fixed_len(s[k - 1] as nat, 2);
    }
}

/// `n` in `w` lowercase hex digits, for `n < 16^w`.
fn hex(n: u32, w: usize) -> (r: Vec<u8>)
    requires
        w <= 8,
    ensures
        r@ == hex_fixed(n as nat, w as nat),
    decreases w,
{
    if w == 0 {
        return Vec::new();
    }
    let mut r = hex(n / 16, w - 1);
    let d = n % 16;
    let c = if d < 10 {
        0x30 + d as u8
    } else {
        0x61 + (d as u8 - 10)
    };
    r.push(c);
    r
}

/// Writes `bytes`; the caller knows they fit.
fn put(buffer: &mut FixedString<VGA_WIDTH>, bytes: &[u8])
    requires
        old(buffer)@.len() + bytes@.len() <= VGA_WIDTH,
    ensures
        final(buffer)@ == old(buffer)@ + bytes@,
{
    let _ = buffer.write_bytes(bytes);
}

/// The dump line of the (at most 16) bytes `slice` at address `count` (see
/// `dump_line`).
pub fn dump_slice(slice: &[u8], count: usize) -> (line: FixedString<VGA_WIDTH>)
    requires
        slice@.len() <= 16,
        count <= u32::MAX,
    ensures
        line@ == dump_line(slice@, count as nat),
        line@.len() == 62 + slice@.len(),
{
    let mut buffer = FixedString::<VGA_WIDTH>::new();
    let h = hex(count as u32, 8);
    proof {
        lemma_hex_fixed_len(count as nat, 8);
    }
    put(&mut buffer, h.as_slice());
    let sp: [u8; 1] = [0x20];
    put(&mut buffer, vstd::array::array_as_slice(&sp));
    let ghost cols_start = buffer@;
    let mut i: usize = 0;
    while i < 16
        invariant
            i <= 16,
            slice@.len() <= 16,
            sp@ == seq![0x20u8],
            cols_start.len() == 9,
            buffer@ == cols_start + hex_columns(slice@, i as nat),
        decreases 16 - i,
    {
        proof {
            lemma_hex_columns_len(slice@, i as nat);
            lemma_hex_columns_len(slice@, (i + 1) as nat);
        }
        let ghost before = buffer@;
        if i % 8 == 0 {
            put(&mut buffer, vstd::array::array_as_slice(&sp));
        }
        if i < slice.len() {
            let mut col = hex(slice[i] as u32, 2);
            col.push(0x20);
            put(&mut buffer, col.as_slice());
        } else {
            let blank: [u8; 3] = [0x20, 0x20, 0x20];
            put(&mut buffer, vstd::array::array_as_slice(&blank));
        }
        assert(buffer@ =~= before + hex_column(slice@, i as int));
        i = i + 1;
    }
    proof {
        lemma_hex_columns_len(slice@, 16);
    }
    let bar: [u8; 2] = [0x20, 0x7c];
    put(&mut buffer, vstd::array::array_as_slice(&bar));
    let ghost text_start = buffer@;
    let mut j: usize = 0;
    while j < slice.len()
        invariant
            j <= slice@.len() <= 16,
            text_start.len() == 61,
            buffer@ == text_start + slice@.take(j as int).map_values(|c: u8| ascii_repr(c)),
        decreases slice@.len() - j,
    {
        let c = slice[j];
        let a: [u8; 1] = [if c >= 32 && c <= 126 {
            c
        } else {
            0x2e
        }];
        put(&mut buffer, vstd::array::array_as_slice(&a));
        assert(slice@.take(j + 1).map_values(|c: u8| ascii_repr(c)) =~= slice@.take(
            j as int,
        ).map_values(|c: u8| ascii_repr(c)).push(ascii_repr(c)));
        j = j + 1;
    }
    assert(slice@.take(slice@.len() as int) =~= slice@);
    let end: [u8; 1] = [0x7c];
    put(&mut buffer, vstd::array::array_as_slice(&end));
    assert(buffer@ =~= dump_line(slice@, count as nat));
    buffer
}


/// Printable ASCII: space to tilde.
pub open spec fn printable(s: Seq<u8>) -> bool {
    forall|i: int| 0 <= i < s.len() ==> 0x20 <= #[trigger] s[i] <= 0x7e
}

proof fn lemma_hex_fixed_printable(n: nat, w: nat)
    ensures
        printable(hex_fixed(n, w)),
    decreases w,
{
    if w > 0 {
        lemma_hex_fixed_printable(n / 16, (w - 1) as nat);
        let h = hex_fixed(n, w);
        assert forall|i: int| 0 <= i < h.len() implies 0x20 <= #[trigger] h[i] <= 0x7e by {
            if i < h.len() - 1 {
                assert(h[i] == hex_fixed(n / 16, (w - 1) as nat)[i]);
            }
        }
    }
}

proof fn lemma_hex_columns_printable(s: Seq<u8>, k: nat)
    ensures
        printable(hex_columns(s, k)),
    decreases k,
{
    if k > 0 {
        lemma_hex_columns_printable(s, (k - 1) as nat);
        let i = k - 1;
        if i < s.len() {
            lemma_hex_fixed_printable(s[i] as nat, 2);
        }
        let a = hex_columns(s, (k - 1) as nat);
        let b = hex_column(s, i);
        assert(printable(b));
        assert forall|j: int| 0 <= j < (a + b).len() implies 0x20 <= #[trigger] (a + b)[j]
            <= 0x7e by {
            if j < a.len() {
                assert((a + b)[j] == a[j]);
            } else {
                assert((a + b)[j] == b[j - a.len()]);
            }
        }
    }
}

/// Every dump line is printable ASCII, so it is valid UTF-8 and can be
/// shown as a string without a check.
pub proof fn lemma_dump_line_printable(s: Seq<u8>, count: nat)
    ensures
        printable(dump_line(s, count)),
        valid_utf8(dump_line(s, count)),
{
    lemma_hex_fixed_printable(count, 8);
    lemma_hex_columns_printable(s, 16);
    lemma_hex_fixed_len(count, 8);
    let l = dump_line(s, count);
    let p0 = hex_fixed(count, 8) + seq![0x20u8];
    let p1 = p0 + hex_columns(s, 16);
    let p2 = p1 + seq![0x20u8, 0x7c];
    let p3 = p2 + s.map_values(|c: u8| ascii_repr(c));
    assert(printable(p0)) by {
        assert forall|j: int| 0 <= j < p0.len() implies 0x20 <= #[trigger] p0[j] <= 0x7e by {
            if j < 8 {
                assert(p0[j] == hex_fixed(count, 8)[j]);
            }
        }
    }
    assert(printable(p1)) by {
        assert forall|j: int| 0 <= j < p1.len() implies 0x20 <= #[trigger] p1[j] <= 0x7e by {
            if j < p0.len() {
                assert(p1[j] == p0[j]);
            } else {
                assert(p1[j] == hex_columns(s, 16)[j - p0.len()]);
            }
        }
    }
    assert(printable(p2)) by {
        assert forall|j: int| 0 <= j < p2.len() implies 0x20 <= #[trigger] p2[j] <= 0x7e by {
            if j < p1.len() {
                assert(p2[j] == p1[j]);
            }
        }
    }
    assert(printable(p3)) by {
        assert forall|j: int| 0 <= j < p3.len() implies 0x20 <= #[trigger] p3[j] <= 0x7e by {
            if j < p2.len() {
                assert(p3[j] == p2[j]);
            } else {
                assert(p3[j] == s.map_values(|c: u8| ascii_repr(c))[j - p2.len()]);
            }
        }
    }
    assert(printable(l)) by {
        assert(l == p3 + seq![0x7cu8]);
        assert forall|j: int| 0 <= j < l.len() implies 0x20 <= #[trigger] l[j] <= 0x7e by {
            if j < p3.len() {
                assert(l[j] == p3[j]);
            }
        }
    }
    crate::fixed_string::lemma_ascii_valid_utf8(l);
}

/// The `k`-th chunk of 16 bytes of `data` (the last may be shorter).
pub open spec fn chunk(data: Seq<u8>, k: int) -> Seq<u8> {
    data.subrange(16 * k, if 16 * k + 16 <= data.len() { 16 * k + 16 } else { data.len() as int })
}

/// The number of dump lines of `n` bytes.
pub open spec fn chunk_count(n: nat) -> nat {
    (n + 15) / 16
}

/// The chunks of a dump cover the data exactly, in order: chunk `k` starts
/// at byte `16 * k`, holds 16 bytes whenever that many are left and the
/// rest otherwise, and only the last chunk is short.
pub proof fn lemma_chunks_cover(data: Seq<u8>)
    ensures
        16 * chunk_count(data.len()) >= data.len(),
        chunk_count(data.len()) > 0 ==> 16 * (chunk_count(data.len()) - 1) < data.len(),
        forall|k: int|
            0 <= k < chunk_count(data.len()) ==> {
                &&& (#[trigger] chunk(data, k)).len() == if 16 * k + 16 <= data.len() {
                    16
                } else {
                    data.len() - 16 * k
                }
                &&& k + 1 < chunk_count(data.len()) ==> chunk(data, k).len() == 16
                &&& forall|j: int|
                    0 <= j < chunk(data, k).len() ==> chunk(data, k)[j] == data[16 * k + j]
            },
{
}

/// The dump of `data` at address `address`: a line per chunk of 16 bytes,
/// then the address just past the data in eight hex digits.
pub open spec fn dump_spec(data: Seq<u8>, address: nat) -> Seq<Seq<u8>> {
    Seq::new(chunk_count(data.len()), |k: int| dump_line(chunk(data, k), (address + 16 * k) as nat)).push(
        hex_fixed(address + data.len(), 8),
    )
}

/// The dump of the bytes `data` found at address `address` (see
/// `dump_spec`).
pub fn dump_memory(data: &[u8], address: usize) -> (lines: Vec<FixedString<VGA_WIDTH>>)
    requires
        address + data@.len() <= u32::MAX,
    ensures
        lines@.map_values(|l: FixedString<VGA_WIDTH>| l@) == dump_spec(data@, address as nat),
{
    let size = data.len();
    let mut lines: Vec<FixedString<VGA_WIDTH>> = Vec::new();
    let mut count: usize = 0;
    while count < size
        invariant
            size == data@.len(),
            address + size <= u32::MAX,
            count == if 16 * lines@.len() < size { (16 * lines@.len()) as int } else { size as int },
            lines@.len() > 0 ==> 16 * (lines@.len() - 1) < size,
            forall|k: int|
                0 <= k < lines@.len() ==> (#[trigger] lines@[k])@ == dump_line(
                    chunk(data@, k),
                    (address + 16 * k) as nat,
                ),
        decreases size - count,
    {
        let end = if size - count >= 16 {
            count + 16
        } else {
            size
        };
        let subslice = vstd::slice::slice_subrange(data, count, end);
        let line = dump_slice(subslice, count + address);
        lines.push(line);
        count = count + subslice.len();
    }
    let mut last = FixedString::<VGA_WIDTH>::new();
    let h = hex((count + address) as u32, 8);
    proof {
        lemma_hex_fixed_len((count + address) as nat, 8);
    }
    put(&mut last, h.as_slice());
    lines.push(last);
    assert(lines@.map_values(|l: FixedString<VGA_WIDTH>| l@) =~= dump_spec(data@, address as nat));
    lines
}

} // verus!
