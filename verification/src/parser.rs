//! The feed walker: the frames of the record stream and their dispatch to
//! the book engine.
//!
//! A frame is a two-byte big-endian length, a one-byte tag and a payload;
//! the length counts the tag and the payload.

use crate::bytes::be_u16;
use crate::bytes::be_u48;
use crate::bytes::read_timestamp_be;
use crate::bytes::read_u16_be;
use crate::decode::TIMESTAMP_OFFSET;
use crate::message_types::MessageHeader;
use crate::message_types::MessageType;
use crate::orderbook::row_view;
use crate::orderbook::OrderBook;
use crate::orderbook::OrderBookView;
use crate::snapshot::Snapshot;
use crate::snapshot::SnapshotView;
use vstd::prelude::*;
use vstd::slice::slice_subrange;

verus! {

/// The bytes in front of a payload: the length and the tag.
pub const MSG_HEADER_SIZE: usize = 3;

/// Whether two symbols are the same, byte for byte.
pub fn stock_symbol_matches(a: &[u8; 8], b: &[u8; 8]) -> (same: bool)
    ensures
        same == (a@ == b@),
{
    let same = a[0] == b[0] && a[1] == b[1] && a[2] == b[2] && a[3] == b[3] && a[4] == b[4]
        && a[5] == b[5] && a[6] == b[6] && a[7] == b[7];
    assert(same == (a@ =~= b@));
    same
}

/// The length that the frame at `offset` declares.
pub open spec fn frame_length(data: Seq<u8>, offset: int) -> int {
    be_u16(data, offset) as int
}

/// Whether a whole frame lies at `offset`: there are bytes for a header, and
/// the declared length does not reach past the end of the data.
pub open spec fn has_frame(data: Seq<u8>, offset: int) -> bool {
    &&& 0 <= offset
    &&& offset + MSG_HEADER_SIZE <= data.len()
    &&& offset + 2 + frame_length(data, offset) <= data.len()
}

/// Where the frame at `offset` ends and the next one begins.
pub open spec fn frame_end(data: Seq<u8>, offset: int) -> int {
    offset + 2 + frame_length(data, offset)
}

/// The class of the frame at `offset`.
pub open spec fn frame_type(data: Seq<u8>, offset: int) -> MessageType {
    MessageType::of_tag(data[offset + 2])
}

/// The payload of the frame at `offset`.
pub open spec fn frame_payload(data: Seq<u8>, offset: int) -> Seq<u8> {
    data.subrange(offset + MSG_HEADER_SIZE, frame_end(data, offset))
}

/// Whether the frame at `offset` goes to the engine: it has a tag, the tag is
/// a known one, and the payload holds every field that the engine reads of
/// that class.
pub open spec fn is_dispatched(data: Seq<u8>, offset: int) -> bool {
    &&& frame_length(data, offset) >= 1
    &&& !(frame_type(data, offset) is Unknown)
    &&& frame_payload(data, offset).len() >= frame_type(data, offset).min_payload()
}

/// The timestamp handed to the engine with the frame at `offset`: the one in
/// the payload for the classes that the engine reads, zero for the others.
pub open spec fn frame_timestamp(data: Seq<u8>, offset: int) -> u64 {
    if frame_type(data, offset).in_scope() {
        be_u48(frame_payload(data, offset), TIMESTAMP_OFFSET as int)
    } else {
        0
    }
}

/// The engine after the frame at `offset`, and the snapshot that the frame
/// gives rise to, if any.
pub open spec fn after_frame(engine: OrderBookView, data: Seq<u8>, offset: int) -> (
    OrderBookView,
    Option<SnapshotView>,
) {
    if is_dispatched(data, offset) {
        engine.handle(
            frame_type(data, offset),
            frame_payload(data, offset),
            frame_timestamp(data, offset),
        )
    } else {
        (engine, None)
    }
}

/// The snapshot as a run of rows: one row, or none.
pub open spec fn rows_of(row: Option<SnapshotView>) -> Seq<SnapshotView> {
    match row {
        Some(snapshot) => seq![snapshot],
        None => Seq::empty(),
    }
}

/// The engine after all frames from `offset` on, and the snapshots they give
/// rise to, in the order of the frames. The walk ends where no whole frame is
/// left.
pub open spec fn after_feed(engine: OrderBookView, data: Seq<u8>, offset: int) -> (
    OrderBookView,
    Seq<SnapshotView>,
)
    decreases data.len() - offset,
{
    if has_frame(data, offset) {
        let (next, row) = after_frame(engine, data, offset);
        let (last, rows) = after_feed(next, data, frame_end(data, offset));
        (last, rows_of(row) + rows)
    } else {
        (engine, Seq::empty())
    }
}

/// Reads the header of the frame at `offset`: the declared length and the
/// tag byte.
pub fn read_header(data: &[u8], offset: usize) -> (header: MessageHeader)
    requires
        offset + MSG_HEADER_SIZE <= data@.len(),
    ensures
        header.length == frame_length(data@, offset as int),
        header.message_type == data@[offset + 2],
{
    let bytes: usize = data.len();
    assert(offset + 2 < bytes);
    MessageHeader { length: read_u16_be(data, offset), message_type: data[offset + 2] }
}

/// What each of a run of snapshots holds.
pub open spec fn row_views(rows: Seq<Snapshot>) -> Seq<SnapshotView> {
    Seq::new(rows.len(), |i: int| rows[i]@)
}

/// Hands the frame at `offset` to the engine. The result is `None` where no
/// whole frame lies at `offset`; else the offset of the next frame and the
/// snapshot to write, if the frame touched the book.
pub fn process_frame(data: &[u8], offset: usize, order_book: &mut OrderBook) -> (step: Option<
    (usize, Option<Snapshot>),
>)
    ensures
        step is None ==> !has_frame(data@, offset as int) && final(order_book)@ == old(
            order_book,
        )@,
        step matches Some((next, row)) ==> {
            &&& has_frame(data@, offset as int)
            &&& next == frame_end(data@, offset as int)
            &&& (final(order_book)@, row_view(row)) == after_frame(
                old(order_book)@,
                data@,
                offset as int,
            )
        },
{
    let data_len = data.len();
    if data_len < MSG_HEADER_SIZE || offset > data_len - MSG_HEADER_SIZE {
        return None;
    }
    let header = read_header(data, offset);
    let msg_length = header.length as usize;
    if msg_length > data_len - offset - 2 {
        return None;
    }
    let next = offset + 2 + msg_length;
    if msg_length == 0 {
        return Some((next, None));
    }
    let message_type = MessageType::from(header.message_type);
    let message_data = slice_subrange(data, offset + MSG_HEADER_SIZE, next);
    if message_type == MessageType::Unknown || message_data.len()
        < message_type.min_payload_len() {
        return Some((next, None));
    }
    let timestamp = if message_type.is_in_scope() {
        read_timestamp_be(message_data, TIMESTAMP_OFFSET)
    } else {
        0
    };
    let row = order_book.handle_message(message_type, message_data, timestamp);
    Some((next, row))
}

/// Walks the whole feed: every frame is handed to the engine in turn, until
/// no whole frame is left. The result holds the snapshots to write, in the
/// order of the frames. A caller that cannot hold all rows of a long feed
/// calls `process_frame` in a loop and writes each row as it comes.
pub fn process_itch_file(data: &[u8], order_book: &mut OrderBook) -> (rows: Vec<Snapshot>)
    ensures
        (final(order_book)@, row_views(rows@)) == after_feed(old(order_book)@, data@, 0),
{
    let mut rows: Vec<Snapshot> = Vec::new();
    let mut offset: usize = 0;
    let mut more: bool = true;
    assert(row_views(rows@) =~= Seq::empty());
    while more
        invariant
            offset <= data@.len(),
            !more ==> !has_frame(data@, offset as int),
            after_feed(old(order_book)@, data@, 0) == ({
                let (last, rest) = after_feed(order_book@, data@, offset as int);
                (last, row_views(rows@) + rest)
            }),
        decreases (if more { 1int } else { 0int }), data@.len() - offset,
    {
        let ghost before = order_book@;
        let ghost written = rows@;
        match process_frame(data, offset, order_book) {
            Some((next, row)) => {
                match row {
                    Some(snapshot) => {
                        rows.push(snapshot);
                        assert(row_views(rows@) =~= row_views(written) + rows_of(
                            Some(snapshot@),
                        ));
                    },
                    None => {
                        assert(row_views(rows@) =~= row_views(written) + rows_of(None));
                    },
                }
                proof {
                    let (mid, emitted) = after_frame(before, data@, offset as int);
                    let (last, rest) = after_feed(mid, data@, next as int);
                    assert(after_feed(before, data@, offset as int) == (last, rows_of(emitted) + rest));
                    assert(row_views(written) + (rows_of(emitted) + rest) =~= (row_views(written)
                        + rows_of(emitted)) + rest);
                }
                offset = next;
            },
            None => {
                more = false;
            },
        }
    }
    proof {
        let (last, rest) = after_feed(order_book@, data@, offset as int);
        assert(row_views(rows@) + rest =~= row_views(rows@));
    }
    rows
}

} // verus!
