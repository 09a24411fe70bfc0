//! What the views show, as text and flags: the lists' rows and badges,
//! the headers and footers, and the diff panes' rows. Drawing them is
//! left to the toolkit.

pub mod badges;
pub mod branches;
pub mod diff_pane;
pub mod history;
pub mod home;
pub mod working_copy;
