//! Fixed-width hex dump rendering.
//!
//! A dump is a sequence of rows of 16 bytes. Each row shows every byte as a
//! three-character cell (a space and two uppercase hex digits), then a ` |`
//! separator, then the one-character printable image of each byte, then a
//! newline. The final row, when it holds fewer than 16 bytes, is padded with
//! blank cells and blank gutter slots so that all rows have the same width.

use vstd::prelude::*;

verus! {

use vstd::string::StringExecFns;
use crate::render::{ascii_of, push_char, format_ascii_u8};

/// The uppercase hex digit for a nibble.
pub open spec fn hex_digit(n: u8) -> char {
    if n < 10 {
        ((0x30 + n) as u8) as char
    } else {
        ((0x37 + n) as u8) as char
    }
}

/// The three-character cell of one byte: a space and two uppercase digits.
pub open spec fn hex_cell(b: u8) -> Seq<char> {
    seq![' ', hex_digit(b / 16), hex_digit(b % 16)]
}

/// The concatenated cells of a row of bytes.
pub open spec fn hex_cells(row: Seq<u8>) -> Seq<char>
    decreases row.len(),
{
    if row.len() == 0 {
        seq![]
    } else {
        hex_cells(row.drop_last()) + hex_cell(row.last())
    }
}

/// `n` blank characters (none when `n` is not positive).
pub open spec fn blanks(n: int) -> Seq<char> {
    Seq::new(if n >= 0 { n as nat } else { 0 }, |_i: int| ' ')
}

/// One output row for up to 16 bytes: cells, padding to 16 cells, the ` |`
/// separator, the printable gutter padded to 16 slots, and a newline.
pub open spec fn hex_row(row: Seq<u8>) -> Seq<char> {
    hex_cells(row) + blanks(3 * (16 - row.len())) + seq![' ', '|'] + ascii_of(row) + blanks(
        16 - row.len(),
    ) + seq!['\n']
}

/// The whole dump: rows of 16 bytes, a shorter padded row for a final
/// remainder, and nothing at all for the empty input.
pub open spec fn hex_dump(v: Seq<u8>) -> Seq<char>
    decreases v.len(),
{
    if v.len() == 0 {
        seq![]
    } else if v.len() >= 16 {
        hex_row(v.take(16)) + hex_dump(v.skip(16))
    } else {
        hex_row(v)
    }
}

/// The number of rows in the dump of `v`.
pub open spec fn hex_row_count(v: Seq<u8>) -> int {
    (v.len() + 15) as int / 16
}

/// The bytes shown by row `k` of the dump of `v`.
pub open spec fn row_slice(v: Seq<u8>, k: int) -> Seq<u8> {
    if 16 * k + 16 <= v.len() {
        v.subrange(16 * k, 16 * k + 16)
    } else {
        v.subrange(16 * k, v.len() as int)
    }
}

pub proof fn lemma_hex_cells_len(row: Seq<u8>)
    ensures
        hex_cells(row).len() == 3 * row.len(),
    decreases row.len(),
{
    if row.len() > 0 {
        lemma_hex_cells_len(row.drop_last());
    }
}

/// Law: every row has the same column widths: 48 characters of (padded) hex
/// cells, the two-character ` |` separator, 16 (padded) gutter slots, and a
/// closing newline — 67 characters in all, whatever the row holds.
pub proof fn lemma_hex_row_shape(row: Seq<u8>)
    requires
        row.len() <= 16,
    ensures
        hex_row(row).len() == 67,
        hex_row(row).subrange(0, 48) == hex_cells(row) + blanks(3 * (16 - row.len())),
        hex_row(row).subrange(48, 50) == seq![' ', '|'],
        hex_row(row).subrange(50, 66) == ascii_of(row) + blanks(16 - row.len()),
        hex_row(row)[66] == '\n',
{
    lemma_hex_cells_len(row);
    assert(hex_row(row).subrange(0, 48) =~= hex_cells(row) + blanks(3 * (16 - row.len())));
    assert(hex_row(row).subrange(48, 50) =~= seq![' ', '|']);
    assert(hex_row(row).subrange(50, 66) =~= ascii_of(row) + blanks(16 - row.len()));
}

/// Law: the dump of `v` consists of `hex_row_count(v)` rows of 67 characters;
/// row `k` is the rendering of bytes `16k..16k+16`, so every row except
/// possibly the last shows exactly 16 bytes, and the last shows the nonempty
/// remainder.
pub proof fn lemma_hex_dump_rows(v: Seq<u8>)
    ensures
        hex_dump(v).len() == 67 * hex_row_count(v),
        forall|k: int|
            0 <= k < hex_row_count(v) ==> hex_dump(v).subrange(67 * k, 67 * k + 67) == hex_row(
                row_slice(v, k),
            ),
        forall|k: int| 0 <= k < hex_row_count(v) - 1 ==> row_slice(v, k).len() == 16,
        hex_row_count(v) > 0 ==> 0 < row_slice(v, hex_row_count(v) - 1).len() <= 16,
    decreases v.len(),
{
    if v.len() == 0 {
    } else if v.len() < 16 {
        lemma_hex_row_shape(v);
        assert(row_slice(v, 0) =~= v);
        assert(hex_dump(v).subrange(0, 67) =~= hex_dump(v));
    } else {
        let head = v.take(16);
        let tail = v.skip(16);
        lemma_hex_row_shape(head);
        lemma_hex_dump_rows(tail);
        assert(hex_row_count(v) == hex_row_count(tail) + 1);
        assert(hex_dump(v) == hex_row(head) + hex_dump(tail));
        assert(hex_dump(v).len() == 67 * hex_row_count(v));
        assert(row_slice(v, 0) =~= head);
        assert(hex_dump(v).subrange(0, 67) =~= hex_row(head));
        assert forall|k: int| 1 <= k < hex_row_count(v) implies hex_dump(v).subrange(
            67 * k,
            67 * k + 67,
        ) == hex_row(row_slice(v, k)) by {
            assert(hex_dump(tail).subrange(67 * (k - 1), 67 * (k - 1) + 67) == hex_row(
                row_slice(tail, k - 1),
            ));
            assert(row_slice(tail, k - 1) =~= row_slice(v, k));
            assert(hex_dump(v).subrange(67 * k, 67 * k + 67) =~= hex_dump(tail).subrange(
                67 * (k - 1),
                67 * (k - 1) + 67,
            ));
        }
        assert forall|k: int| 0 <= k < hex_row_count(v) - 1 implies row_slice(v, k).len()
            == 16 by {
            if k > 0 {
                assert(row_slice(tail, k - 1) =~= row_slice(v, k));
            }
        }
        if tail.len() == 0 {
            assert(hex_row_count(v) == 1);
        } else {
            assert(row_slice(tail, hex_row_count(tail) - 1) =~= row_slice(
                v,
                hex_row_count(v) - 1,
            ));
        }
    }
}

/// The uppercase hex digit character for a nibble.
pub fn hex_digit_char(n: u8) -> (c: char)
    requires
        n < 16,
    ensures
        c == hex_digit(n),
{
    if n < 10 {
        (0x30 + n) as char
    } else {
        (0x37 + n) as char
    }
}

/// Render `val` as a fixed-width hex dump with an ASCII gutter.
pub fn format_hex_ascii(val: &[u8]) -> (r: String)
    ensures
        r@ == hex_dump(val@),
{
    let mut result = String::new();
    let len = val.len();
    let mut i: usize = 0;
    proof {
        assert(val@.skip(0) =~= val@);
        assert(result@ + hex_dump(val@) =~= hex_dump(val@));
    }
    while i < len
        invariant
            len == val@.len(),
            i <= len,
            result@ + hex_dump(val@.skip(i as int)) == hex_dump(val@),
        decreases len - i,
    {
        let end = if len - i >= 16 {
            i + 16
        } else {
            len
        };
        let mut hex_part = String::new();
        let mut ascii_part = String::new();
        let mut j = i;
        while j < end
            invariant
                len == val@.len(),
                i <= j <= end <= len,
                end - i <= 16,
                hex_part@ == hex_cells(val@.subrange(i as int, j as int)),
                ascii_part@ == ascii_of(val@.subrange(i as int, j as int)),
            decreases end - j,
        {
            let b = val[j];
            push_char(&mut hex_part, ' ');
            push_char(&mut hex_part, hex_digit_char(b / 16));
            push_char(&mut hex_part, hex_digit_char(b % 16));
            push_char(&mut ascii_part, format_ascii_u8(b));
            proof {
                let prev = val@.subrange(i as int, j as int);
                let now = val@.subrange(i as int, j + 1);
                assert(now.drop_last() =~= prev);
                assert(now.last() == val@[j as int]);
                assert(hex_part@ =~= hex_cells(prev) + hex_cell(val@[j as int]));
                assert(ascii_part@ =~= ascii_of(now));
            }
            j += 1;
        }
        let mut k = end - i;
        while k < 16
            invariant
                len == val@.len(),
                i <= end <= len,
                end - i <= k <= 16,
                hex_part@ == hex_cells(val@.subrange(i as int, end as int)) + blanks(
                    3 * (k - (end - i)),
                ),
                ascii_part@ == ascii_of(val@.subrange(i as int, end as int)) + blanks(
                    k - (end - i),
                ),
            decreases 16 - k,
        {
            push_char(&mut hex_part, ' ');
            push_char(&mut hex_part, ' ');
            push_char(&mut hex_part, ' ');
            push_char(&mut ascii_part, ' ');
            proof {
                assert(hex_part@ =~= hex_cells(val@.subrange(i as int, end as int)) + blanks(
                    3 * (k + 1 - (end - i)),
                ));
                assert(ascii_part@ =~= ascii_of(val@.subrange(i as int, end as int)) + blanks(
                    k + 1 - (end - i),
                ));
            }
            k += 1;
        }
        result.append(hex_part.as_str());
        push_char(&mut result, ' ');
        push_char(&mut result, '|');
        result.append(ascii_part.as_str());
        push_char(&mut result, '\n');
        proof {
            let chunk = val@.subrange(i as int, end as int);
            let rest = val@.skip(i as int);
            assert(chunk.len() == end - i);
            assert(hex_row(chunk) == hex_cells(chunk) + blanks(3 * (16 - chunk.len())) + seq![
                ' ',
                '|',
            ] + ascii_of(chunk) + blanks(16 - chunk.len()) + seq!['\n']);
            if end - i == 16 {
                assert(rest.take(16) =~= chunk);
                assert(rest.skip(16) =~= val@.skip(end as int));
                assert(hex_dump(rest) == hex_row(chunk) + hex_dump(val@.skip(end as int)));
            } else {
                assert(end == len);
                assert(rest =~= chunk);
                assert(val@.skip(end as int) =~= Seq::<u8>::empty());
                assert(hex_dump(rest) == hex_row(chunk));
                assert(hex_dump(val@.skip(end as int)) =~= Seq::<char>::empty());
            }
            assert(result@ + hex_dump(val@.skip(end as int)) =~= hex_dump(val@));
        }
        i = end;
    }
    proof {
        assert(val@.skip(len as int) =~= Seq::<u8>::empty());
    }
    result
}

} // verus!
