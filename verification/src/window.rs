//! Window configuration handed to the host shell that opens the window and
//! drives the engine once per frame.

use vstd::prelude::*;

verus! {

/// How the host window is set up.
pub struct Settings {
    pub title: String,
    pub size: Size,
    /// The canvas the web build renders into.
    pub wasm_canvas_id: String,
}

impl Default for Settings {
    /// The stock window setup.
    fn default() -> (r: Self)
        ensures
            r.title@ == "Butter application"@,
            r.size.width == 800,
            r.size.height == 600,
            r.wasm_canvas_id@ == "butter-application"@,
    {
        Settings {
            title: "Butter application".to_owned(),
            size: Size::default(),
            wasm_canvas_id: "butter-application".to_owned(),
        }
    }
}

/// A window size in physical pixels.
#[derive(Clone, Copy, PartialEq, Eq, Structural, Debug)]
pub struct Size {
    pub width: u32,
    pub height: u32,
}

impl Default for Size {
    /// The stock window size.
    fn default() -> (r: Self)
        ensures
            r.width == 800,
            r.height == 600,
    {
        Size { width: 800, height: 600 }
    }
}

} // verus!
