//! Which section of the switcher is active, and its styles.

use vstd::prelude::*;
use crate::text::same_text;

verus! {

/// The path of the info section, with or without a trailing slash.
pub open spec fn is_info_path(path: Seq<char>) -> bool {
    path == "/info"@ || path == "/info/"@
}

/// The path of the tools section, with or without a trailing slash.
pub open spec fn is_tools_path(path: Seq<char>) -> bool {
    path == "/tools"@ || path == "/tools/"@
}

/// Whether the info section is open.
pub fn info_active(path: &str) -> (r: bool)
    ensures
        r == is_info_path(path@),
{
    same_text(path, "/info") || same_text(path, "/info/")
}

/// Whether the tools section is open.
pub fn tools_active(path: &str) -> (r: bool)
    ensures
        r == is_tools_path(path@),
{
    same_text(path, "/tools") || same_text(path, "/tools/")
}

/// The style of the sliding thumb: moved under the tools tab when it is active.
pub fn thumb_class(tools_is_active: bool) -> (r: &'static str)
    ensures
        r@ == (if tools_is_active {
            "section-switcher__thumb section-switcher__thumb--tools"@
        } else {
            "section-switcher__thumb"@
        }),
{
    if tools_is_active {
        "section-switcher__thumb section-switcher__thumb--tools"
    } else {
        "section-switcher__thumb"
    }
}

/// The style of a tab: highlighted when active, dimmed otherwise.
pub fn link_class(active: bool) -> (r: &'static str)
    ensures
        r@ == (if active {
            "section-switcher__link section-switcher__link--active"@
        } else {
            "section-switcher__link section-switcher__link--dim"@
        }),
{
    if active {
        "section-switcher__link section-switcher__link--active"
    } else {
        "section-switcher__link section-switcher__link--dim"
    }
}

/// At most one section is active for any path.
pub proof fn lemma_sections_exclusive(path: Seq<char>)
    ensures
        !(is_info_path(path) && is_tools_path(path)),
{
    if is_info_path(path) && is_tools_path(path) {
        reveal_strlit("/info");
        reveal_strlit("/info/");
        reveal_strlit("/tools");
        reveal_strlit("/tools/");
        assert(path[1] == 'i' || path.len() == 0);
    }
}

} // verus!
