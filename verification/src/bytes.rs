//! Big-endian fields at arbitrary offsets of a byte buffer.

use vstd::prelude::*;

verus! {

/// The number that a run of bytes spells, most significant byte first.
pub open spec fn be_value(bytes: Seq<u8>) -> nat
    decreases bytes.len(),
{
    if bytes.len() == 0 {
        0
    } else {
        be_value(bytes.drop_last()) * 256 + bytes.last() as nat
    }
}

/// The number spelled by the `width` bytes of `data` from `offset` on.
pub open spec fn be_field(data: Seq<u8>, offset: int, width: int) -> nat {
    be_value(data.subrange(offset, offset + width))
}

/// The two-byte field at `offset`.
pub open spec fn be_u16(data: Seq<u8>, offset: int) -> u16 {
    be_field(data, offset, 2) as u16
}

/// The four-byte field at `offset`.
pub open spec fn be_u32(data: Seq<u8>, offset: int) -> u32 {
    be_field(data, offset, 4) as u32
}

/// The eight-byte field at `offset`.
pub open spec fn be_u64(data: Seq<u8>, offset: int) -> u64 {
    be_field(data, offset, 8) as u64
}

/// The six-byte field at `offset`, as wide as a timestamp.
pub open spec fn be_u48(data: Seq<u8>, offset: int) -> u64 {
    be_field(data, offset, 6) as u64
}

/// 256 to the power of `width`.
pub open spec fn span(width: nat) -> nat
    decreases width,
{
    if width == 0 {
        1
    } else {
        256 * span((width - 1) as nat)
    }
}

/// The spans of the widths up to eight bytes.
pub proof fn lemma_spans()
    ensures
        span(0) == 1,
        span(1) == 0x100,
        span(2) == 0x1_0000,
        span(3) == 0x100_0000,
        span(4) == 0x1_0000_0000,
        span(5) == 0x100_0000_0000,
        span(6) == 0x1_0000_0000_0000,
        span(7) == 0x100_0000_0000_0000,
        span(8) == 0x1_0000_0000_0000_0000,
{
    reveal_with_fuel(span, 10);
}

/// A run of bytes spells a number below the span of its length.
pub proof fn lemma_be_value_bound(bytes: Seq<u8>)
    ensures
        be_value(bytes) < span(bytes.len()),
    decreases bytes.len(),
{
    if bytes.len() > 0 {
        lemma_be_value_bound(bytes.drop_last());
    }
}

/// A field of `width` bytes is below the span of `width`.
pub proof fn lemma_be_field_bound(data: Seq<u8>, offset: int, width: int)
    requires
        0 <= offset,
        0 <= width,
        offset + width <= data.len(),
    ensures
        be_field(data, offset, width) < span(width as nat),
{
    lemma_be_value_bound(data.subrange(offset, offset + width));
}

/// A field that is one byte longer spells the shorter field times 256, plus
/// the added byte.
pub proof fn lemma_be_field_step(data: Seq<u8>, offset: int, width: int)
    requires
        0 <= offset,
        0 <= width,
        offset + width < data.len(),
    ensures
        be_field(data, offset, width + 1) == be_field(data, offset, width) * 256 + data[offset
            + width] as nat,
{
    let longer = data.subrange(offset, offset + width + 1);
    assert(longer.drop_last() =~= data.subrange(offset, offset + width));
}

/// Reads the `width` bytes at `offset` as one big-endian number.
fn read_be(data: &[u8], offset: usize, width: usize) -> (value: u64)
    requires
        width <= 8,
        offset + width <= data@.len(),
    ensures
        value == be_field(data@, offset as int, width as int),
{
    let mut value: u64 = 0;
    let mut taken: usize = 0;
    let length: usize = data.len();
    assert(data@.subrange(offset as int, offset as int) =~= Seq::<u8>::empty());
    while taken < width
        invariant
            taken <= width <= 8,
            length == data@.len(),
            offset + width <= data@.len(),
            value == be_field(data@, offset as int, taken as int),
        decreases width - taken,
    {
        proof {
            lemma_be_field_bound(data@, offset as int, taken as int);
            lemma_be_field_step(data@, offset as int, taken as int);
            lemma_be_field_bound(data@, offset as int, taken + 1);
            lemma_spans();
            assert(span((taken + 1) as nat) <= span(8)) by {
                reveal_with_fuel(span, 10);
            }
        }
        value = value * 256 + data[offset + taken] as u64;
        taken += 1;
    }
    value
}

/// Reads two bytes at `offset`, big-endian.
pub fn read_u16_be(data: &[u8], offset: usize) -> (value: u16)
    requires
        offset + 2 <= data@.len(),
    ensures
        value == be_u16(data@, offset as int),
{
    proof {
        lemma_be_field_bound(data@, offset as int, 2);
        lemma_spans();
    }
    read_be(data, offset, 2) as u16
}

/// Reads four bytes at `offset`, big-endian.
pub fn read_u32_be(data: &[u8], offset: usize) -> (value: u32)
    requires
        offset + 4 <= data@.len(),
    ensures
        value == be_u32(data@, offset as int),
{
    proof {
        lemma_be_field_bound(data@, offset as int, 4);
        lemma_spans();
    }
    read_be(data, offset, 4) as u32
}

/// Reads the eight bytes of an order reference number at `offset`,
/// big-endian.
pub fn read_order_ref_be(data: &[u8], offset: usize) -> (value: u64)
    requires
        offset + 8 <= data@.len(),
    ensures
        value == be_u64(data@, offset as int),
{
    proof {
        lemma_be_field_bound(data@, offset as int, 8);
        lemma_spans();
    }
    read_be(data, offset, 8)
}

/// Reads the six bytes of a timestamp at `offset`, big-endian; the two top
/// bytes of the result are zero.
pub fn read_timestamp_be(data: &[u8], offset: usize) -> (value: u64)
    requires
        offset + 6 <= data@.len(),
    ensures
        value == be_u48(data@, offset as int),
        value < 0x1_0000_0000_0000,
{
    proof {
        lemma_be_field_bound(data@, offset as int, 6);
        lemma_spans();
    }
    read_be(data, offset, 6)
}

/// Copies the eight bytes of a symbol at `offset`.
pub fn read_stock(data: &[u8], offset: usize) -> (stock: [u8; 8])
    requires
        offset + 8 <= data@.len(),
    ensures
        stock@ == data@.subrange(offset as int, offset + 8),
{
    let stock: [u8; 8] = [
        data[offset],
        data[offset + 1],
        data[offset + 2],
        data[offset + 3],
        data[offset + 4],
        data[offset + 5],
        data[offset + 6],
        data[offset + 7],
    ];
    assert(stock@ =~= data@.subrange(offset as int, offset + 8));
    stock
}

} // verus!
