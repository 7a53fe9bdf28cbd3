//! Symbols as the feed carries them: eight bytes, padded with spaces.

use vstd::prelude::*;
use vstd::string::StringSliceAdditionalSpecFns;

verus! {

/// The byte that pads a symbol on the right.
pub const SYMBOL_PAD: u8 = 32;

/// The first eight of `bytes`, followed by spaces where there are fewer.
pub open spec fn padded_symbol(bytes: Seq<u8>) -> Seq<u8> {
    Seq::new(
        8,
        |i: int|
            if i < bytes.len() {
                bytes[i]
            } else {
                SYMBOL_PAD
            },
    )
}

/// The byte at `index`, or a space past the end.
fn byte_or_pad(bytes: &[u8], index: usize) -> (byte: u8)
    ensures
        byte == (if index < bytes@.len() {
            bytes@[index as int]
        } else {
            SYMBOL_PAD
        }),
{
    if index < bytes.len() {
        bytes[index]
    } else {
        SYMBOL_PAD
    }
}

/// Turns a ticker into the eight-byte form of the feed: its first eight
/// bytes, padded on the right with spaces.
pub fn pad_stock_symbol(symbol: &str) -> (padded: [u8; 8])
    ensures
        padded@ == padded_symbol(symbol.spec_bytes()),
        vstd::string::is_ascii(symbol) ==> forall|i: int|
            0 <= i < 8 ==> padded@[i] == (if i < symbol@.len() {
                symbol@[i] as u8
            } else {
                SYMBOL_PAD
            }),
{
    let bytes = symbol.as_bytes();
    let padded: [u8; 8] = [
        byte_or_pad(bytes, 0),
        byte_or_pad(bytes, 1),
        byte_or_pad(bytes, 2),
        byte_or_pad(bytes, 3),
        byte_or_pad(bytes, 4),
        byte_or_pad(bytes, 5),
        byte_or_pad(bytes, 6),
        byte_or_pad(bytes, 7),
    ];
    assert(padded@ =~= padded_symbol(symbol.spec_bytes()));
    proof {
        vstd::string::is_ascii_spec_bytes(symbol);
    }
    padded
}

} // verus!
