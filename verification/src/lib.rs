//! Search a byte buffer for every occurrence of a byte pattern and render
//! each occurrence as rows of a hex and ASCII dump with the match highlighted.

pub mod color;
pub mod matcher;
pub mod options;
pub mod pattern;
pub mod render;
pub mod scan;
pub mod window;
