//! Resolution of free-form "jump to passage" input against a scripture text:
//! canonical references, verse-range filtering and the search state machine.

pub mod filter;
pub mod laws;
pub mod model;
pub mod reference;
pub mod search;
pub mod text;
