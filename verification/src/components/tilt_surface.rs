//! The element a tilting card is drawn as.

use vstd::prelude::*;

verus! {

/// Whether a tilting surface is a section or the footer.
#[derive(Clone, Copy, Debug, PartialEq, Eq, Structural)]
pub enum TiltShell {
    Section,
    Footer,
}

} // verus!
