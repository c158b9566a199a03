//! Combinators over lazy pull-based sequences ("streams").
//!
//! A stream produces its elements on demand: each poll either suspends
//! (the element is not ready yet), produces the next element, or reports
//! exhaustion.  This crate provides two stateful adapters over that
//! abstraction:
//!
//! * [`split::Split`] regroups a flat stream of items into batches
//!   delimited by a caller-supplied separator predicate, and
//! * [`add_pendings::AddPendings`] forces a fixed number of suspensions
//!   before every delivered item.
//!
//! Both are exposed as chainable combinators through
//! [`stream_extra::StreamExtra`].
//!
//! The stream abstraction itself is [`poll_stream::PullStream`]: a single
//! poll operation whose contract is stated against the mathematical sequence
//! of elements the stream has yet to produce.  [`vec_stream::VecStream`] is
//! a stream with every element at hand, backed by a vector.

pub mod add_pendings;
pub mod poll_stream;
pub mod split;
pub mod stream_extra;
pub mod vec_stream;
