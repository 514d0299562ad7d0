//! Values handed to the host over its event streams.

pub mod events;
