//! Status levels for the message line shown beneath the board.

use vstd::prelude::*;

verus! {

/// How urgently a message beneath the board should be presented: an error,
/// a caution, or a helpful hint. The presentation layer picks the color.
pub enum InfoStatus {
    Danger,
    Warning,
    Help,
}

} // verus!
