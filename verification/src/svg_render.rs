//! A Mermaid diagram as SVG text that usvg and resvg can read: merman's SVG
//! output with its HTML labels replaced by native text.

use vstd::prelude::*;

use merman_core::{Engine, ParseOptions};
use merman_render::environment::RenderEnvironment;
use merman_render::svg::{SvgDebugOptions, SvgPipeline, SvgRenderOptions};
use merman_render::LayoutOptions;

use crate::diagram::{found_diagram, parse_outcome, parse_stage};

verus! {

/// Why a source text gives no SVG.
#[derive(Debug)]
pub enum SvgError {
    /// The text holds no Mermaid diagram.
    NoDiagram,
    /// The parser rejected the text.
    Parse(merman_core::Error),
    /// The diagram could not be laid out or rendered; the message says why.
    Render(String),
}

/// The SVG text of the diagram that a lenient parse of `source` finds, laid
/// out with the headless SVG layout options in a deterministic render
/// session, rendered with the default options and finalized for resvg by the
/// resvg-safe pipeline: `None` when the text holds no diagram, the parser
/// rejects it, or the layout or the rendering fails.
pub uninterp spec fn resvg_svg_of(source: Seq<char>) -> Option<Seq<char>>;

/// The SVG text that a rendering attempt produced, if any.
pub open spec fn rendered_text(r: Result<Option<Result<String, String>>, merman_core::Error>) -> Option<
    Seq<char>,
> {
    match r {
        Ok(Some(Ok(svg))) => Some(svg@),
        _ => None,
    }
}

/// Parses `source` leniently with a fresh default engine
/// (`merman_core::Engine::parse_diagram_for_render_model_sync`) and, when it
/// holds a diagram, lays it out in a deterministic render session with the
/// headless SVG layout options (`merman_render::family::prepare`), renders it
/// (`FamilyRenderArtifact::render_svg` with default options) and finalizes
/// the SVG for resvg (`RenderedFamilySvg::finalize_resvg` with the
/// `SvgPipeline::resvg_safe` pipeline); failures come back with their
/// messages. The contract claims that whether a diagram was found follows
/// `parse_outcome` of the text, and that the SVG text is `resvg_svg_of` the
/// text: with a default engine and a deterministic session they depend on
/// the text alone.
#[verifier::external_body]
fn render_source_svg(source: &str) -> (r: Result<Option<Result<String, String>>, merman_core::Error>)
    ensures
        parse_stage(r) == found_diagram(parse_outcome(source@, true)),
        rendered_text(r) == resvg_svg_of(source@),
{
    let parsed = Engine::new().parse_diagram_for_render_model_sync(source, ParseOptions::lenient())?;
    Ok(parsed.map(|parsed| {
        let session = RenderEnvironment::deterministic().begin_session().map_err(|e| e.to_string())?;
        let options = LayoutOptions::headless_svg_defaults();
        let artifact = merman_render::family::prepare(parsed, &options, session).map_err(|e| e.to_string())?;
        let rendered = artifact
            .render_svg(&SvgRenderOptions::default(), &SvgDebugOptions::default())
            .and_then(|svg| svg.finalize_resvg(&SvgPipeline::resvg_safe()))
            .map_err(|e| e.to_string())?;
        Ok(rendered.svg().as_str().to_owned())
    }))
}

/// What a rendering outcome comes to: the SVG text, or `Render` under the
/// failure's message.
pub fn settle_svg(outcome: Result<String, String>) -> (r: Result<String, SvgError>)
    ensures
        outcome matches Ok(svg) ==> r == Ok::<String, SvgError>(svg),
        outcome matches Err(m) ==> r matches Err(SvgError::Render(m2)) && m2 == m,
{
    match outcome {
        Ok(svg) => Ok(svg),
        Err(m) => Err(SvgError::Render(m)),
    }
}

/// Parses Mermaid source text leniently and renders the diagram as SVG text
/// that usvg can read, `resvg_svg_of` the text; otherwise why there is none:
/// no diagram in the text, the parser's error, or a failure to lay out or
/// render the diagram.
pub fn diagram_to_svg(source: &str) -> (r: Result<String, SvgError>)
    ensures
        r matches Err(SvgError::NoDiagram) <==> parse_outcome(source@, true) == Some(
            None::<Seq<char>>,
        ),
        r matches Err(SvgError::Parse(_)) <==> parse_outcome(source@, true) is None,
        (r is Ok || r matches Err(SvgError::Render(_))) <==> parse_outcome(source@, true) matches Some(
            Some(_),
        ),
        r is Ok <==> resvg_svg_of(source@) is Some,
        r matches Ok(svg) ==> resvg_svg_of(source@) == Some(svg@),
{
    match render_source_svg(source) {
        Err(e) => Err(SvgError::Parse(e)),
        Ok(None) => Err(SvgError::NoDiagram),
        Ok(Some(outcome)) => settle_svg(outcome),
    }
}

} // verus!
