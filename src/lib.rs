//! The core of an interactive document viewer: the coordinate chain from
//! screen pixels to page texels, the annotation overlay and its brush, page
//! navigation, toolbar hit testing, the camera's pan and zoom, and the
//! session state that ties input events to them. Toolbar icons are drawn
//! here too. Windowing, the GPU and the document engine stay with the caller.
pub mod assets;
pub mod camera;
pub mod frame;
pub mod overlay;
pub mod page;
pub mod transform;
pub mod ui;
pub mod viewer;
