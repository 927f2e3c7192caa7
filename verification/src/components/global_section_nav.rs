//! When the section switcher is shown.

use vstd::prelude::*;
use crate::components::section_nav::{info_active, is_info_path, is_tools_path, tools_active};

verus! {

/// The switcher is shown on the two sections it switches between.
pub fn nav_visible(path: &str) -> (r: bool)
    ensures
        r == (is_info_path(path@) || is_tools_path(path@)),
{
    info_active(path) || tools_active(path)
}

} // verus!
