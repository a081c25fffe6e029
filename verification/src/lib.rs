//! LinkDrop: a minimal paste service. This crate holds the service's logic:
//! slug normalisation and validation, the paste store and its expiry rules,
//! the request decisions of the routes, and the WebRTC room bookkeeping.
pub mod text;
pub mod clock;
pub mod endpoints;
pub mod util;
pub mod pasta;
pub mod store;
pub mod slug_map;
