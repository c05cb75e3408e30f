//! Response Classifier & Renderer: decides from the accumulated byte count
//! whether the reply is a hex-encoded memory dump (exactly 1026 or 2050
//! bytes: 1024 or 2048 hex digits plus a two-byte terminator) or free-form
//! text, and renders it. A dump becomes rows of sixteen byte-pairs behind an
//! `0xNNNN: ` address label; text is decoded as UTF-8 with replacement
//! markers for invalid sequences, with one trailing newline removed.

use vstd::prelude::*;

verus! {

/// A reply classified and rendered for presentation.
pub enum Reply {
    /// A memory dump: one rendered line per row of sixteen bytes.
    Dump { rows: Vec<Vec<u8>> },
    /// Free-form text from the device, decoded leniently.
    Text { text: String },
}

/// The one failure the renderer can surface.
#[derive(Clone, Copy, PartialEq, Eq, Structural, Debug)]
pub enum ReplyError {
    /// Nothing at all was received: a distinct condition, never rendered as
    /// an empty line or an empty dump.
    NoResponse,
}

/// Whether a byte count marks a hex-encoded memory dump (a DDR4 or a DDR5
/// SPD page plus terminator).
pub open spec fn is_dump_len(n: int) -> bool {
    n == 1026 || n == 2050
}

/// How many leading bytes of a dump reply are hex digits (the rest is the
/// terminator).
pub open spec fn dump_hex_len(n: int) -> int {
    if n == 1026 {
        1024
    } else {
        2048
    }
}

/// Uppercase hexadecimal digit for a value below 16, as an ASCII byte.
pub open spec fn hex_digit_byte_spec(n: int) -> u8 {
    if n < 10 {
        (48 + n) as u8
    } else {
        (55 + n) as u8
    }
}

/// The address label opening a dump row: `0x`, four zero-padded hex digits
/// of the byte offset, a colon and a space.
pub open spec fn label_spec(addr: int) -> Seq<u8> {
    seq![
        48u8,
        120u8,
        hex_digit_byte_spec(addr / 4096 % 16),
        hex_digit_byte_spec(addr / 256 % 16),
        hex_digit_byte_spec(addr / 16 % 16),
        hex_digit_byte_spec(addr % 16),
        58u8,
        32u8,
    ]
}

/// The byte-pairs of one row: as many two-digit pairs as fit in the chunk,
/// separated by single spaces; a trailing odd digit is not consumed.
pub open spec fn pairs_spec(chunk: Seq<u8>) -> Seq<u8>
    decreases chunk.len(),
{
    if chunk.len() < 2 {
        Seq::empty()
    } else if chunk.len() < 4 {
        seq![chunk[0], chunk[1]]
    } else {
        seq![chunk[0], chunk[1], 32u8] + pairs_spec(chunk.skip(2))
    }
}

/// The 32-digit chunk of hex text belonging to row `i` (shorter at the
/// end of a short input).
pub open spec fn row_chunk_spec(hex: Seq<u8>, i: int) -> Seq<u8> {
    hex.subrange(
        32 * i,
        if 32 * i + 32 <= hex.len() {
            32 * i + 32
        } else {
            hex.len() as int
        },
    )
}

/// One rendered dump row: the label of byte offset `16 * i` followed by the
/// row's byte-pairs. The offset counts underlying bytes, not hex digits.
pub open spec fn row_spec(hex: Seq<u8>, i: int) -> Seq<u8> {
    label_spec(16 * i) + pairs_spec(row_chunk_spec(hex, i))
}

/// All rendered rows of a hex text: one per 32-digit chunk.
pub open spec fn dump_rows_spec(hex: Seq<u8>) -> Seq<Seq<u8>> {
    Seq::new(((hex.len() + 31) / 32) as nat, |i: int| row_spec(hex, i))
}

/// A byte sequence with one trailing `\n` removed, if present.
pub open spec fn strip_newline_spec(s: Seq<u8>) -> Seq<u8> {
    if s.len() > 0 && s[s.len() - 1] == 10u8 {
        s.take(s.len() - 1)
    } else {
        s
    }
}

/// Every byte is ASCII.
pub open spec fn all_ascii(b: Seq<u8>) -> bool {
    forall|i: int| 0 <= i < b.len() ==> b[i] < 128
}

/// The characters that lenient UTF-8 decoding yields for a byte sequence: a
/// pure function of the bytes alone.
pub uninterp spec fn utf8_lossy_of(b: Seq<u8>) -> Seq<char>;

/// Relies on String::from_utf8_lossy: decoding depends on the bytes alone,
/// and bytes that are valid UTF-8 — in particular pure ASCII — decode to
/// themselves character for character; invalid sequences become replacement
/// markers rather than failing.
#[verifier::external_body]
fn decode_utf8_lossy(b: &Vec<u8>) -> (r: String)
    ensures
        r@ == utf8_lossy_of(b@),
        all_ascii(b@) ==> r@.len() == b@.len() && (forall|i: int|
            0 <= i < b@.len() ==> r@[i] == b@[i] as char),
{
    String::from_utf8_lossy(b.as_slice()).into_owned()
}

/// Uppercase hexadecimal digit as an ASCII byte.
fn hex_digit_byte(n: u8) -> (r: u8)
    requires
        n < 16,
    ensures
        r == hex_digit_byte_spec(n as int),
{
    if n < 10 {
        48 + n
    } else {
        55 + n
    }
}

/// Appends the byte-pairs of `hex[start..end]`, space-separated.
fn push_pairs(row: &mut Vec<u8>, hex: &Vec<u8>, start: usize, end: usize)
    requires
        start <= end <= hex@.len(),
    ensures
        final(row)@ == old(row)@ + pairs_spec(hex@.subrange(start as int, end as int)),
    decreases end - start,
{
    let ghost chunk = hex@.subrange(start as int, end as int);
    if end - start >= 2 {
        row.push(hex[start]);
        row.push(hex[start + 1]);
        if end - start >= 4 {
            row.push(32u8);
            push_pairs(row, hex, start + 2, end);
            proof {
                assert(chunk.skip(2) =~= hex@.subrange(start + 2, end as int));
                assert(final(row)@ =~= old(row)@ + pairs_spec(chunk));
            }
        } else {
            assert(final(row)@ =~= old(row)@ + pairs_spec(chunk));
        }
    } else {
        assert(final(row)@ =~= old(row)@ + pairs_spec(chunk));
    }
}

/// Renders row `i` of a dump: address label, then the row's byte-pairs.
fn render_row(hex: &Vec<u8>, i: usize) -> (row: Vec<u8>)
    requires
        hex@.len() <= 131072,
        32 * i < hex@.len(),
    ensures
        row@ == row_spec(hex@, i as int),
{
    let addr: usize = 16 * i;
    let mut row: Vec<u8> = Vec::new();
    row.push(48u8);
    row.push(120u8);
    row.push(hex_digit_byte(((addr / 4096) % 16) as u8));
    row.push(hex_digit_byte(((addr / 256) % 16) as u8));
    row.push(hex_digit_byte(((addr / 16) % 16) as u8));
    row.push(hex_digit_byte((addr % 16) as u8));
    row.push(58u8);
    row.push(32u8);
    assert(row@ =~= label_spec(16 * i as int));
    let start = 32 * i;
    let end = if start + 32 <= hex.len() {
        start + 32
    } else {
        hex.len()
    };
    push_pairs(&mut row, hex, start, end);
    assert(hex@.subrange(start as int, end as int) =~= row_chunk_spec(hex@, i as int));
    row
}

/// Renders a whole hex text as dump rows, 32 hex digits (16 bytes) per row;
/// a short final chunk renders fewer columns rather than reading past the
/// end. The length bound keeps every byte offset within four hex digits.
pub fn render_dump_rows(hex: &Vec<u8>) -> (rows: Vec<Vec<u8>>)
    requires
        hex@.len() <= 131072,
    ensures
        rows@.map_values(|v: Vec<u8>| v@) == dump_rows_spec(hex@),
{
    let len = hex.len();
    let n_rows = (len + 31) / 32;
    let mut rows: Vec<Vec<u8>> = Vec::new();
    let mut i: usize = 0;
    while i < n_rows
        invariant
            i <= n_rows,
            n_rows == (hex@.len() + 31) / 32,
            hex@.len() <= 131072,
            rows@.len() == i,
            forall|k: int| 0 <= k < i ==> #[trigger] rows@[k]@ == row_spec(hex@, k),
        decreases n_rows - i,
    {
        assert(32 * i < hex@.len());
        let row = render_row(hex, i);
        rows.push(row);
        i = i + 1;
    }
    assert(rows@.map_values(|v: Vec<u8>| v@) =~= dump_rows_spec(hex@));
    rows
}

/// Copies the first `len` bytes of a buffer.
fn copy_prefix(buf: &Vec<u8>, len: usize) -> (r: Vec<u8>)
    requires
        len <= buf@.len(),
    ensures
        r@ == buf@.take(len as int),
{
    let mut r: Vec<u8> = Vec::new();
    let mut i: usize = 0;
    while i < len
        invariant
            i <= len <= buf@.len(),
            r@ == buf@.take(i as int),
        decreases len - i,
    {
        r.push(buf[i]);
        assert(r@ =~= buf@.take(i + 1));
        i = i + 1;
    }
    r
}

/// Copies a buffer without its trailing `\n`, if it has one.
fn copy_without_trailing_newline(buf: &Vec<u8>) -> (r: Vec<u8>)
    ensures
        r@ == strip_newline_spec(buf@),
{
    let n = buf.len();
    if n > 0 && buf[n - 1] == 10u8 {
        copy_prefix(buf, n - 1)
    } else {
        copy_prefix(buf, n)
    }
}

/// Whether a byte count is classified as a memory dump. The classification
/// is a function of the length alone, never of the content.
pub fn is_memory_dump_len(n: usize) -> (r: bool)
    ensures
        r == is_dump_len(n as int),
{
    n == 1026 || n == 2050
}

/// Classifies and renders an accumulated reply. An empty buffer is a
/// distinct no-response condition; one of the two dump lengths renders as
/// rows of byte-pairs over the leading hex digits (the terminator trimmed);
/// any other length renders as lenient UTF-8 text without its trailing
/// newline.
pub fn render_reply(buf: &Vec<u8>) -> (r: Result<Reply, ReplyError>)
    ensures
        ({
            match r {
                Err(e) => buf@.len() == 0 && e == ReplyError::NoResponse,
                Ok(Reply::Dump { rows }) => is_dump_len(buf@.len() as int) && rows@.map_values(
                    |v: Vec<u8>| v@,
                ) == dump_rows_spec(buf@.take(dump_hex_len(buf@.len() as int))),
                Ok(Reply::Text { text }) => buf@.len() != 0 && !is_dump_len(buf@.len() as int)
                    && text@ == utf8_lossy_of(strip_newline_spec(buf@)),
            }
        }),
{
    let n = buf.len();
    if n == 0 {
        Err(ReplyError::NoResponse)
    } else if is_memory_dump_len(n) {
        let hex_len: usize = if n == 1026 {
            1024
        } else {
            2048
        };
        let hex = copy_prefix(buf, hex_len);
        let rows = render_dump_rows(&hex);
        Ok(Reply::Dump { rows })
    } else {
        let stripped = copy_without_trailing_newline(buf);
        let text = decode_utf8_lossy(&stripped);
        Ok(Reply::Text { text })
    }
}

/// Dump dimensions: a 1026-byte reply renders as exactly 32 rows, a
/// 2050-byte reply as exactly 64; no other byte count is classified as a
/// dump at all.
pub proof fn lemma_dump_dimensions(buf: Seq<u8>)
    ensures
        buf.len() == 1026 ==> dump_rows_spec(buf.take(dump_hex_len(buf.len() as int))).len() == 32,
        buf.len() == 2050 ==> dump_rows_spec(buf.take(dump_hex_len(buf.len() as int))).len() == 64,
        !is_dump_len(buf.len() as int) ==> (buf.len() != 1026 && buf.len() != 2050),
{
}

/// Address labels: every dump row opens with `0x`, the zero-padded
/// four-digit hexadecimal of sixteen times its row index, a colon and a
/// space — so labels start at zero and grow by exactly sixteen per row.
pub proof fn lemma_row_labels(hex: Seq<u8>)
    ensures
        forall|i: int|
            0 <= i < dump_rows_spec(hex).len() ==> #[trigger] dump_rows_spec(hex)[i].take(8)
                == label_spec(16 * i),
        forall|i: int| (#[trigger] label_spec(16 * i)).len() == 8,
{
    assert forall|i: int| 0 <= i < dump_rows_spec(hex).len() implies #[trigger] dump_rows_spec(
        hex,
    )[i].take(8) == label_spec(16 * i) by {
        assert(dump_rows_spec(hex)[i] == row_spec(hex, i));
        assert(row_spec(hex, i).take(8) =~= label_spec(16 * i));
    }
}

} // verus!
