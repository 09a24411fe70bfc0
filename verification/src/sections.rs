//! Which section of the open detail view is showing.

use vstd::prelude::*;

verus! {

/// Which section of the open detail view is showing.
#[derive(Clone, Copy, Debug, PartialEq, Eq, Structural)]
pub enum Section {
    WorkingCopy,
    History,
}

} // verus!
