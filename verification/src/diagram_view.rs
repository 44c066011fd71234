//! The layout of a Mermaid diagram as JSON text, computed by merman without
//! going through SVG rendering, for the application to log.

use vstd::prelude::*;

use merman_core::{Engine, ParseOptions};
use merman_render::environment::RenderEnvironment;
use merman_render::LayoutOptions;

use crate::diagram::{found_diagram, parse_outcome, parse_stage};

verus! {

/// Why a parsed diagram gives no layout text.
#[derive(Debug)]
pub enum LayoutFailure {
    /// The layout could not be computed; the message says why.
    Layout(String),
    /// The layout could not be written out as JSON; the message says why.
    Serialize(String),
}

/// Why a source text gives no layout text.
#[derive(Debug)]
pub enum LayoutReportError {
    /// The text holds no Mermaid diagram.
    NoDiagram,
    /// The parser rejected the text.
    Parse(merman_core::Error),
    /// The layout could not be computed; the message says why.
    Layout(String),
    /// The layout could not be written out as JSON; the message says why.
    Serialize(String),
}

/// The layout of the diagram that a lenient parse of `source` finds, laid
/// out with the default layout options in a deterministic render session and
/// written out as pretty JSON text: `None` when the text holds no diagram,
/// the parser rejects it, or the layout or its writing out fails.
pub uninterp spec fn layout_json_of(source: Seq<char>) -> Option<Seq<char>>;

/// The layout text that a layout attempt produced, if any.
pub open spec fn laid_out_text(
    r: Result<Option<Result<String, LayoutFailure>>, merman_core::Error>,
) -> Option<Seq<char>> {
    match r {
        Ok(Some(Ok(text))) => Some(text@),
        _ => None,
    }
}

/// Parses `source` leniently with a fresh default engine
/// (`merman_core::Engine::parse_diagram_for_render_model_sync`) and, when it
/// holds a diagram, lays it out in a deterministic render session with the
/// default layout options (`merman_render::family::prepare`, then
/// `FamilyRenderArtifact::layout_json`) and writes the layout out as pretty
/// JSON (`serde_json::to_string_pretty`); failures come back with their
/// messages. The contract claims that whether a diagram was found follows
/// `parse_outcome` of the text, and that the layout text is `layout_json_of`
/// the text: with a default engine and a deterministic session they depend
/// on the text alone.
#[verifier::external_body]
fn layout_source(source: &str) -> (r: Result<Option<Result<String, LayoutFailure>>, merman_core::Error>)
    ensures
        parse_stage(r) == found_diagram(parse_outcome(source@, true)),
        laid_out_text(r) == layout_json_of(source@),
{
    let parsed = Engine::new().parse_diagram_for_render_model_sync(source, ParseOptions::lenient())?;
    Ok(parsed.map(|parsed| {
        let session = RenderEnvironment::deterministic()
            .begin_session()
            .map_err(|e| LayoutFailure::Layout(e.to_string()))?;
        let layout = merman_render::family::prepare(parsed, &LayoutOptions::default(), session)
            .and_then(|artifact| artifact.layout_json())
            .map_err(|e| LayoutFailure::Layout(e.to_string()))?;
        serde_json::to_string_pretty(layout.as_value()).map_err(|e| LayoutFailure::Serialize(e.to_string()))
    }))
}

/// What a layout outcome comes to: the JSON text, or the failure under the
/// same message.
pub fn settle_layout(outcome: Result<String, LayoutFailure>) -> (r: Result<String, LayoutReportError>)
    ensures
        outcome matches Ok(text) ==> r == Ok::<String, LayoutReportError>(text),
        outcome matches Err(LayoutFailure::Layout(m)) ==> r matches Err(
            LayoutReportError::Layout(m2),
        ) && m2 == m,
        outcome matches Err(LayoutFailure::Serialize(m)) ==> r matches Err(
            LayoutReportError::Serialize(m2),
        ) && m2 == m,
{
    match outcome {
        Ok(text) => Ok(text),
        Err(LayoutFailure::Layout(m)) => Err(LayoutReportError::Layout(m)),
        Err(LayoutFailure::Serialize(m)) => Err(LayoutReportError::Serialize(m)),
    }
}

/// Parses Mermaid source text leniently, lays the diagram out and gives the
/// layout as pretty JSON text, `layout_json_of` the text; otherwise why
/// there is none: no diagram in the text, the parser's error, or a failure
/// to lay the diagram out or to write the layout out.
pub fn flowchart_layout_json(source: &str) -> (r: Result<String, LayoutReportError>)
    ensures
        r matches Err(LayoutReportError::NoDiagram) <==> parse_outcome(source@, true) == Some(
            None::<Seq<char>>,
        ),
        r matches Err(LayoutReportError::Parse(_)) <==> parse_outcome(source@, true) is None,
        (r is Ok || r matches Err(LayoutReportError::Layout(_)) || r matches Err(
            LayoutReportError::Serialize(_),
        )) <==> parse_outcome(source@, true) matches Some(Some(_)),
        r is Ok <==> layout_json_of(source@) is Some,
        r matches Ok(text) ==> layout_json_of(source@) == Some(text@),
{
    match layout_source(source) {
        Err(e) => Err(LayoutReportError::Parse(e)),
        Ok(None) => Err(LayoutReportError::NoDiagram),
        Ok(Some(outcome)) => settle_layout(outcome),
    }
}

} // verus!
