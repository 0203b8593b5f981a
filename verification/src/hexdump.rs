//! The classic hex dump: sixteen bytes to a line, as hexadecimal and as
//! text.

use vstd::prelude::*;

verus! {

/// Bytes shown on one line.
pub const BYTES_PER_LINE: usize = 16;

/// Width to which the hexadecimal part of a line is filled with spaces.
pub const HEX_PART_WIDTH: usize = 50;

/// The lower-case hexadecimal digit of `d`, which is below 16.
pub open spec fn hex_digit(d: nat) -> char {
    if d < 10 {
        ('0' as nat + d) as char
    } else {
        ('a' as nat + d - 10) as char
    }
}

/// The `digits` low-order hexadecimal digits of `v`, most significant
/// first.
pub open spec fn hex_fixed(v: nat, digits: nat) -> Seq<char>
    decreases digits,
{
    if digits == 0 {
        Seq::empty()
    } else {
        hex_fixed(v / 16, (digits - 1) as nat).push(hex_digit(v % 16))
    }
}

/// `s` without leading zeros, as far as `min_width` characters remain.
pub open spec fn trim_zeros(s: Seq<char>, min_width: nat) -> Seq<char>
    decreases s.len(),
{
    if s.len() > min_width && s[0] == '0' {
        trim_zeros(s.drop_first(), min_width)
    } else {
        s
    }
}

/// The offset `v` as it stands at the head of a line: in hexadecimal, with
/// leading zeros up to eight digits, and with more digits where it needs
/// them.
pub open spec fn offset_label(v: nat) -> Seq<char> {
    trim_zeros(hex_fixed(v, 32), 8)
}

/// The hexadecimal part of a line: two digits and a space for each byte,
/// with one more space before the ninth byte.
pub open spec fn hex_cells(chunk: Seq<u8>) -> Seq<char>
    decreases chunk.len(),
{
    if chunk.len() == 0 {
        Seq::empty()
    } else {
        hex_cells(chunk.drop_last()) + (if chunk.len() == 9 {
            seq![' ']
        } else {
            Seq::empty()
        }) + hex_fixed(chunk.last() as nat, 2) + seq![' ']
    }
}

/// `s`, with spaces after it up to `width` characters.
pub open spec fn pad_right(s: Seq<char>, width: nat) -> Seq<char> {
    if s.len() >= width {
        s
    } else {
        s + Seq::new((width - s.len()) as nat, |i: int| ' ')
    }
}

/// The character that stands for `b` in the text part of a line: itself
/// where it is printable ASCII, a dot otherwise.
pub open spec fn printable(b: u8) -> char {
    if 32 <= b <= 126 {
        b as char
    } else {
        '.'
    }
}

/// The text part of a line.
pub open spec fn text_cells(chunk: Seq<u8>) -> Seq<char> {
    Seq::new(chunk.len(), |i: int| printable(chunk[i]))
}

/// The line that shows `chunk`, which starts at `offset`.
pub open spec fn dump_line(chunk: Seq<u8>, offset: nat) -> Seq<char> {
    offset_label(offset) + seq![':', ' '] + pad_right(hex_cells(chunk), HEX_PART_WIDTH as nat)
        + seq![' ', '|'] + text_cells(chunk) + seq!['|']
}

/// Number of lines that `len` bytes take.
pub open spec fn line_count(len: nat) -> nat {
    (len + 15) / 16
}

/// The bytes of line `i`.
pub open spec fn chunk_at(data: Seq<u8>, i: int) -> Seq<u8> {
    data.subrange(
        16 * i,
        if 16 * i + 16 <= data.len() {
            16 * i + 16
        } else {
            data.len() as int
        },
    )
}

/// The dump of `data`, whose first byte is at `base`.
pub open spec fn hex_dump(data: Seq<u8>, base: nat) -> Seq<Seq<char>> {
    Seq::new(line_count(data.len()), |i: int| dump_line(chunk_at(data, i), (base + 16 * i) as nat))
}

/// The views of the strings of `lines`.
pub open spec fn texts(lines: Seq<String>) -> Seq<Seq<char>> {
    Seq::new(lines.len(), |i: int| lines[i]@)
}

fn hex_digit_of(d: u8) -> (c: char)
    requires
        d < 16,
    ensures
        c == hex_digit(d as nat),
{
    if d < 10 {
        (48u8 + d) as char
    } else {
        (87u8 + d) as char
    }
}

fn hex_fixed_chars(value: u128, digits: usize) -> (buf: Vec<char>)
    ensures
        buf@ == hex_fixed(value as nat, digits as nat),
{
    let mut buf: Vec<char> = Vec::new();
    let mut n: usize = 0;
    while n < digits
        invariant
            n <= digits,
            buf@.len() == n,
        decreases digits - n,
    {
        buf.push('0');
        n = n + 1;
    }
    let mut k: usize = digits;
    let mut rest: u128 = value;
    while k > 0
        invariant
            k <= digits,
            buf@.len() == digits,
            hex_fixed(value as nat, digits as nat) == hex_fixed(rest as nat, k as nat) + buf@.subrange(
                k as int,
                digits as int,
            ),
        decreases k,
    {
        let digit: char = hex_digit_of((rest % 16) as u8);
        k = k - 1;
        buf.set(k, digit);
        rest = rest / 16;
    }
    buf
}

fn push_offset_label(line: &mut String, value: u128)
    ensures
        final(line)@ == old(line)@ + offset_label(value as nat),
{
    let digits: Vec<char> = hex_fixed_chars(value, 32);
    proof {
        lemma_hex_fixed_len(value as nat, 32);
    }
    let mut skip: usize = 0;
    assert(digits@.subrange(0, 32) =~= digits@);
    while skip < 24 && digits[skip] == '0'
        invariant
            skip <= 24,
            digits@.len() == 32,
            trim_zeros(digits@, 8) == trim_zeros(digits@.subrange(skip as int, 32), 8),
        decreases 24 - skip,
    {
        assert(digits@.subrange(skip as int, 32).drop_first() =~= digits@.subrange(skip + 1, 32));
        skip = skip + 1;
    }
    let mut i: usize = skip;
    while i < 32
        invariant
            skip <= i <= 32,
            digits@.len() == 32,
            line@ == old(line)@ + digits@.subrange(skip as int, i as int),
        decreases 32 - i,
    {
        line.push(digits[i]);
        i = i + 1;
    }
}

/// `hex_fixed` gives as many digits as it is asked for.
pub proof fn lemma_hex_fixed_len(v: nat, digits: nat)
    ensures
        hex_fixed(v, digits).len() == digits,
    decreases digits,
{
    if digits > 0 {
        lemma_hex_fixed_len(v / 16, (digits - 1) as nat);
    }
}

/// Formats one line of the dump.
fn format_dump_line(chunk: &[u8], offset: u128) -> (line: String)
    requires
        chunk@.len() <= BYTES_PER_LINE,
    ensures
        line@ == dump_line(chunk@, offset as nat),
{
    let mut line: String = String::new();
    push_offset_label(&mut line, offset);
    line.push(':');
    line.push(' ');
    let ghost head = line@;
    let mut j: usize = 0;
    while j < chunk.len()
        invariant
            j <= chunk@.len() <= 16,
            line@ == head + hex_cells(chunk@.take(j as int)),
        decreases chunk@.len() - j,
    {
        let byte: u8 = chunk[j];
        proof {
            assert(chunk@.take(j + 1).drop_last() =~= chunk@.take(j as int));
            assert(hex_fixed(byte as nat, 2) =~= seq![
                hex_digit((byte as nat / 16) % 16),
                hex_digit(byte as nat % 16),
            ]) by {
                reveal_with_fuel(hex_fixed, 3);
            }
        }
        if j == 8 {
            line.push(' ');
        }
        line.push(hex_digit_of(byte / 16));
        line.push(hex_digit_of(byte % 16));
        line.push(' ');
        j = j + 1;
    }
    assert(chunk@.take(chunk@.len() as int) =~= chunk@);
    let ghost cells = hex_cells(chunk@);
    let mut width: usize = 3 * chunk.len() + if chunk.len() > 8 {
        1usize
    } else {
        0usize
    };
    proof {
        lemma_hex_cells_len(chunk@);
    }
    let ghost filled = width as nat;
    while width < HEX_PART_WIDTH
        invariant
            cells.len() == filled,
            filled <= width <= HEX_PART_WIDTH,
            line@ == head + cells + Seq::new((width - filled) as nat, |i: int| ' '),
        decreases HEX_PART_WIDTH - width,
    {
        line.push(' ');
        width = width + 1;
    }
    line.push(' ');
    line.push('|');
    let ghost body = line@;
    let mut t: usize = 0;
    while t < chunk.len()
        invariant
            t <= chunk@.len(),
            line@ == body + text_cells(chunk@).take(t as int),
        decreases chunk@.len() - t,
    {
        let byte: u8 = chunk[t];
        let shown: char = if 32 <= byte && byte <= 126 {
            byte as char
        } else {
            '.'
        };
        line.push(shown);
        t = t + 1;
    }
    line.push('|');
    line
}

/// The hexadecimal part of `n` bytes is three characters per byte, and one
/// more from the ninth byte on.
pub proof fn lemma_hex_cells_len(chunk: Seq<u8>)
    ensures
        hex_cells(chunk).len() == 3 * chunk.len() + if chunk.len() > 8 {
            1nat
        } else {
            0nat
        },
    decreases chunk.len(),
{
    if chunk.len() > 0 {
        lemma_hex_cells_len(chunk.drop_last());
        reveal_with_fuel(hex_fixed, 3);
    }
}

/// Formats `data` as a hex dump, one string per line; `base_offset` is the
/// offset shown for the first byte.
pub fn hex_dump_lines(data: &[u8], base_offset: u64) -> (lines: Vec<String>)
    ensures
        texts(lines@) == hex_dump(data@, base_offset as nat),
{
    let mut lines: Vec<String> = Vec::new();
    let len: usize = data.len();
    let mut start: usize = 0;
    let mut i: usize = 0;
    while start < len
        invariant
            len == data@.len(),
            start == 16 * i || (start == len && 16 * i >= len),
            start <= len,
            i <= line_count(len as nat),
            start < len ==> i < line_count(len as nat),
            start == len ==> i == line_count(len as nat),
            lines@.len() == i,
            forall|k: int| 0 <= k < i ==> (#[trigger] lines@[k])@ == dump_line(
                chunk_at(data@, k),
                (base_offset + 16 * k) as nat,
            ),
        decreases len - start,
    {
        let end: usize = if len - start >= BYTES_PER_LINE {
            start + BYTES_PER_LINE
        } else {
            len
        };
        let chunk: &[u8] = vstd::slice::slice_subrange(data, start, end);
        let offset: u128 = base_offset as u128 + start as u128;
        let line: String = format_dump_line(chunk, offset);
        lines.push(line);
        start = end;
        i = i + 1;
    }
    lines
}

} // verus!
