//! A tile-matching puzzle core: a grid of typed tiles, a search for connecting
//! paths with at most two right-angle turns through empty cells, the selection
//! state machine, and the resolver that removes matched pairs.

pub mod board;
pub mod connect;
pub mod selection;
pub mod resolve;
