//! An interactive list picker as a library: the pagination state machine, the
//! frame that is painted for each state, and the decisions of the input loop.
//!
//! Nothing here touches a terminal or a file. A front end reads text and key
//! presses, hands them over as plain values and carries out what comes back.

pub mod control;
pub mod frame;
pub mod items;
pub mod nav;
pub mod store;
pub mod text;
