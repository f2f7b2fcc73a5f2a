//! What is shown of the list: the symbols of the statuses, the line of the
//! branch, the summary that is printed, and the contents of the screen.

pub mod branch_status;
pub mod fullscreen;
pub mod inline;
pub mod status_symbols;
