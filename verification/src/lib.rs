//! A Mermaid diagram editor's library: build-time settings, editor
//! completion, parsing diagrams and the decisions of class-diagram drawing
//! and picking, and a diagram's layout and SVG as text.

use vstd::prelude::*;

pub mod completion;
pub mod config;
pub mod diagram;
pub mod diagram_view;
pub mod editor;
pub mod svg_render;
pub mod text;

verus! {
}
