pub mod global_section_nav;
pub mod section_nav;
pub mod tilt_surface;
