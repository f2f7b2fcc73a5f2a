//! Staging of version-control changes: the status model, the order in which
//! changes are listed, the list with its cursor, and the decisions of the
//! interactive session.

pub mod branches;
pub mod change;
pub mod change_list;
pub mod change_ordering;
pub mod classification;
pub mod event_loop;
pub mod index;
pub mod ordering_laws;
pub mod paths;
pub mod rendering;
pub mod sorting;
pub mod status_priorities;
pub mod statuses;
pub mod utils;
