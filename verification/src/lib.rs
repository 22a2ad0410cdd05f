//! The verified core of a scrollable-tiling Wayland compositor's gesture configuration, of its
//! configuration files, and of its screen captures.
pub mod binds;
pub mod capture_laws;
pub mod expansion_laws;
pub mod float;
pub mod gesture;
pub mod gesture_laws;
pub mod gestures;
pub mod image_copy_capture;
pub mod kdl;
pub mod merge;
pub mod paths;
pub mod regex_eq;
pub mod text;
pub mod utils;
