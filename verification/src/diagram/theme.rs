//! Flat color palette matching Mermaid's default theme values for class
//! diagrams (`mainBkg` #ECECFF, `nodeBorder` #9370DB, `clusterBkg` #ffffde,
//! `clusterBorder` #aaaa33, `lineColor`/`titleColor` #333). Custom
//! `classDef` styling and Mermaid's "handDrawn" look are not applied yet.

use vstd::prelude::*;

verus! {

/// An opaque color given by its 8-bit red, green and blue channels.
#[derive(Debug, Clone, Copy, PartialEq, Eq, Structural)]
pub struct Rgb {
    pub r: u8,
    pub g: u8,
    pub b: u8,
}

pub open spec fn rgb(r: u8, g: u8, b: u8) -> Rgb {
    Rgb { r, g, b }
}

/// The colors a diagram is drawn in.
#[derive(Debug, Clone, Copy, PartialEq, Eq, Structural)]
pub struct Theme {
    pub background: Rgb,
    pub node_fill: Rgb,
    pub node_stroke: Rgb,
    pub note_fill: Rgb,
    pub note_stroke: Rgb,
    pub cluster_fill: Rgb,
    pub cluster_stroke: Rgb,
    pub edge_stroke: Rgb,
    pub text: Rgb,
    pub divider: Rgb,
}

/// Mermaid's default palette for class diagrams.
pub open spec fn default_theme() -> Theme {
    Theme {
        background: rgb(255, 255, 255),
        node_fill: rgb(236, 236, 255),
        node_stroke: rgb(147, 112, 219),
        note_fill: rgb(255, 245, 173),
        note_stroke: rgb(170, 170, 51),
        cluster_fill: rgb(255, 255, 222),
        cluster_stroke: rgb(170, 170, 51),
        edge_stroke: rgb(51, 51, 51),
        text: rgb(51, 51, 51),
        divider: rgb(147, 112, 219),
    }
}

impl Default for Theme {
    fn default() -> (theme: Self)
        ensures
            theme == default_theme(),
    {
        Theme {
            background: Rgb { r: 255, g: 255, b: 255 },
            node_fill: Rgb { r: 236, g: 236, b: 255 },
            node_stroke: Rgb { r: 147, g: 112, b: 219 },
            note_fill: Rgb { r: 255, g: 245, b: 173 },
            note_stroke: Rgb { r: 170, g: 170, b: 51 },
            cluster_fill: Rgb { r: 255, g: 255, b: 222 },
            cluster_stroke: Rgb { r: 170, g: 170, b: 51 },
            edge_stroke: Rgb { r: 51, g: 51, b: 51 },
            text: Rgb { r: 51, g: 51, b: 51 },
            divider: Rgb { r: 147, g: 112, b: 219 },
        }
    }
}

} // verus!
