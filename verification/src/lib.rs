//! Limit-order-book reconstruction from a NASDAQ TotalView-ITCH 5.0 feed.
//!
//! The crate decodes the length-prefixed, big-endian record stream, keeps the
//! live orders and the aggregated volume per price level of one symbol, and
//! produces a depth-10 snapshot after every event that touches the book.
//!
//! - [`bytes`], [`message_types`], [`decode`] and [`parser`] read the feed.
//! - [`orderbook`] is the engine; [`orders`] and [`levels`] hold its two
//!   indexes.
//! - [`snapshot`] and [`csv`] are the rows of the output and their text.
//! - [`book`] is the mathematical model that the contracts of the engine are
//!   stated over; [`consistency`], [`depth`] and [`laws`] prove what holds of
//!   it.
//!
//! Nothing here touches a file: the caller maps the feed, writes the rows and
//! appends the two floating-point metrics of each row.

pub mod book;
pub mod bytes;
pub mod consistency;
pub mod csv;
pub mod decode;
pub mod depth;
pub mod laws;
pub mod levels;
pub mod message_types;
pub mod orderbook;
pub mod orders;
pub mod parser;
pub mod snapshot;
pub mod sums;
pub mod utils;
