//! The presentation record of a view.

use vstd::prelude::*;

verus! {

/// How a view is presented, with the names of the widgets to show in it.
#[derive(Debug)]
pub struct View {
    pub image: Option<String>,
    pub label: Option<String>,
    pub blender_camera: Option<String>,
    pub static_image: Option<String>,
    pub blender_hide: Vec<String>,
    /// The names of the widgets of this view.
    pub ui_elements: Vec<String>,
    pub order: i32,
}

} // verus!
