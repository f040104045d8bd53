//! Shopping carts that are each backed by a partition of their own.
//!
//! A cart lives in an append-only graph ([`graph`]): its record is published,
//! filed under its owner, and superseded rather than changed. Each cart has a
//! partition that a host provisions and tears down; the host is outside this
//! library, which says what the host is to be asked and takes in its answers
//! ([`cart`], [`teardown`]). What is on file is read through [`listing`].
//! [`graph_laws`], [`cart_laws`] and [`teardown_laws`] state what holds of the
//! graph, of the cart index and of taking carts down, whatever their history.
//! [`catalog`] decides where products are filed and how their listings are
//! cut into pages.

pub mod cart;
pub mod cart_laws;
pub mod catalog;
pub mod graph;
pub mod graph_laws;
pub mod integrity;
pub mod label;
pub mod listing;
pub mod platform;
pub mod teardown;
pub mod teardown_laws;
pub mod text;
