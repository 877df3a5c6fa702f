use vstd::prelude::*;

verus! {

/// The top-level tabs of the tool.
#[derive(PartialEq, Eq, Structural, Clone, Copy, Debug)]
pub enum Tab {
    MyWorkshop,
    Download,
}

} // verus!
