//! Mermaid source -> semantic model + layout, independent of any rendering
//! backend: the identifiers of diagram elements, the kinds of diagram the
//! parser can report, and the errors a diagram can fail with.
//!
//! Only class diagrams are drawn today; any other kind of diagram is
//! reported as unsupported, under its name.

pub mod class;
pub mod theme;

use vstd::prelude::*;

use crate::text::same_text;

verus! {

/// The error of the Mermaid parser.
#[verifier::external_type_specification]
#[verifier::external_body]
pub struct ExMermaidError(merman_core::Error);

/// A parsed diagram with its typed render model and metadata.
#[verifier::external_type_specification]
#[verifier::external_body]
pub struct ExParsedDiagramRender(merman_core::ParsedDiagramRender);

/// What parsing `source` for rendering gives, with the parser's errors
/// suppressed into an error diagram when `lenient` holds: `None` when the
/// parser rejects the text, `Some(None)` when the text holds no diagram, and
/// `Some(Some(kind))` when it holds one whose render model is of the named
/// kind.
pub uninterp spec fn parse_outcome(source: Seq<char>, lenient: bool) -> Option<Option<Seq<char>>>;

/// What a parse result shows of the parse: whether the parser rejected the
/// text, and otherwise the kind name of the diagram it found, if any.
pub open spec fn outcome_of(
    r: Result<Option<(merman_core::ParsedDiagramRender, String)>, merman_core::Error>,
) -> Option<Option<Seq<char>>> {
    match r {
        Err(_) => None,
        Ok(None) => Some(None),
        Ok(Some((_, kind))) => Some(Some(kind@)),
    }
}

/// Whether a parse outcome found a diagram: `None` when the parser rejected
/// the text, `Some(false)` when the text holds no diagram, `Some(true)` when
/// it holds one.
pub open spec fn found_diagram(o: Option<Option<Seq<char>>>) -> Option<bool> {
    match o {
        None => None,
        Some(None) => Some(false),
        Some(Some(_)) => Some(true),
    }
}

/// Whether a parse, followed by further work on the diagram it found, found
/// one, in the terms of `found_diagram`.
pub open spec fn parse_stage<T>(r: Result<Option<T>, merman_core::Error>) -> Option<bool> {
    match r {
        Err(_) => None,
        Ok(None) => Some(false),
        Ok(Some(_)) => Some(true),
    }
}

/// Parses `source` for rendering with a fresh default engine (the pinned
/// Mermaid registries, the default site configuration and the deterministic
/// runtime policy), by `merman_core::Engine::parse_diagram_for_render_model_sync`,
/// strictly or, when `lenient` holds, with errors suppressed; a diagram comes
/// back together with the kind name of its render model
/// (`merman_core::RenderSemanticModel::kind`). The contract claims that the
/// outcome, seen through `outcome_of`, is `parse_outcome` of the arguments:
/// with a default engine it depends on them alone.
#[verifier::external_body]
fn parse_for_render(
    source: &str,
    lenient: bool,
) -> (r: Result<Option<(merman_core::ParsedDiagramRender, String)>, merman_core::Error>)
    ensures
        outcome_of(r) == parse_outcome(source@, lenient),
{
    let options = merman_core::ParseOptions { suppress_errors: lenient };
    let parsed = merman_core::Engine::new().parse_diagram_for_render_model_sync(source, options)?;
    Ok(
        parsed.map(|parsed| {
            let kind = parsed.model().kind().to_string();
            (parsed, kind)
        }),
    )
}

/// Stable identifier for a diagram element, used for click logging and
/// (later) selection.
#[derive(Debug, Clone, PartialEq, Eq, Hash)]
pub enum ElementId {
    Node(String),
    Edge(String),
    Cluster(String),
}

/// Why a source text gives no diagram to draw.
#[derive(Debug)]
pub enum DiagramError {
    /// The text holds no Mermaid diagram.
    NoDiagram,
    /// The parser rejected the text.
    Parse(merman_core::Error),
    /// The diagram could not be laid out; the message says why.
    Layout(String),
    /// The diagram is of a kind that is not drawn yet; its name is given.
    Unsupported(String),
}

/// The kinds of diagram that the parser reports.
#[derive(Debug, Clone, Copy, PartialEq, Eq, Structural)]
pub enum DiagramKind {
    Json,
    Mindmap,
    State,
    Sequence,
    Flowchart,
    Architecture,
    Class,
    C4,
    Kanban,
    Gantt,
    Pie,
    Packet,
    Timeline,
    Journey,
    Requirement,
    Sankey,
    Radar,
    Info,
    Treemap,
    Block,
    Er,
    QuadrantChart,
    XyChart,
    GitGraph,
    TreeView,
    /// Any kind without a name of its own here.
    Unknown,
}

/// The name under which a kind of diagram is reported.
pub open spec fn kind_name(kind: DiagramKind) -> Seq<char> {
    match kind {
        DiagramKind::Json => "json"@,
        DiagramKind::Mindmap => "mindmap"@,
        DiagramKind::State => "state"@,
        DiagramKind::Sequence => "sequence"@,
        DiagramKind::Flowchart => "flowchart"@,
        DiagramKind::Architecture => "architecture"@,
        DiagramKind::Class => "class"@,
        DiagramKind::C4 => "c4"@,
        DiagramKind::Kanban => "kanban"@,
        DiagramKind::Gantt => "gantt"@,
        DiagramKind::Pie => "pie"@,
        DiagramKind::Packet => "packet"@,
        DiagramKind::Timeline => "timeline"@,
        DiagramKind::Journey => "journey"@,
        DiagramKind::Requirement => "requirement"@,
        DiagramKind::Sankey => "sankey"@,
        DiagramKind::Radar => "radar"@,
        DiagramKind::Info => "info"@,
        DiagramKind::Treemap => "treemap"@,
        DiagramKind::Block => "block"@,
        DiagramKind::Er => "er"@,
        DiagramKind::QuadrantChart => "quadrantChart"@,
        DiagramKind::XyChart => "xychart"@,
        DiagramKind::GitGraph => "gitGraph"@,
        DiagramKind::TreeView => "treeView"@,
        DiagramKind::Unknown => "unknown"@,
    }
}

/// The name under which a kind of diagram is reported.
pub fn diagram_kind_name(kind: DiagramKind) -> (name: String)
    ensures
        name@ == kind_name(kind),
{
    let s = match kind {
        DiagramKind::Json => "json",
        DiagramKind::Mindmap => "mindmap",
        DiagramKind::State => "state",
        DiagramKind::Sequence => "sequence",
        DiagramKind::Flowchart => "flowchart",
        DiagramKind::Architecture => "architecture",
        DiagramKind::Class => "class",
        DiagramKind::C4 => "c4",
        DiagramKind::Kanban => "kanban",
        DiagramKind::Gantt => "gantt",
        DiagramKind::Pie => "pie",
        DiagramKind::Packet => "packet",
        DiagramKind::Timeline => "timeline",
        DiagramKind::Journey => "journey",
        DiagramKind::Requirement => "requirement",
        DiagramKind::Sankey => "sankey",
        DiagramKind::Radar => "radar",
        DiagramKind::Info => "info",
        DiagramKind::Treemap => "treemap",
        DiagramKind::Block => "block",
        DiagramKind::Er => "er",
        DiagramKind::QuadrantChart => "quadrantChart",
        DiagramKind::XyChart => "xychart",
        DiagramKind::GitGraph => "gitGraph",
        DiagramKind::TreeView => "treeView",
        DiagramKind::Unknown => "unknown",
    };
    String::from_str(s)
}

/// The kind of diagram that the parser's name for a model stands for: the
/// custom JSON model is reported as JSON, each other named kind as itself,
/// and any kind without a name of its own here as unknown.
pub open spec fn kind_of_name(name: Seq<char>) -> DiagramKind {
    if name == "custom-json"@ {
        DiagramKind::Json
    } else if name == "mindmap"@ {
        DiagramKind::Mindmap
    } else if name == "state"@ {
        DiagramKind::State
    } else if name == "sequence"@ {
        DiagramKind::Sequence
    } else if name == "flowchart"@ {
        DiagramKind::Flowchart
    } else if name == "architecture"@ {
        DiagramKind::Architecture
    } else if name == "class"@ {
        DiagramKind::Class
    } else if name == "c4"@ {
        DiagramKind::C4
    } else if name == "kanban"@ {
        DiagramKind::Kanban
    } else if name == "gantt"@ {
        DiagramKind::Gantt
    } else if name == "pie"@ {
        DiagramKind::Pie
    } else if name == "packet"@ {
        DiagramKind::Packet
    } else if name == "timeline"@ {
        DiagramKind::Timeline
    } else if name == "journey"@ {
        DiagramKind::Journey
    } else if name == "requirement"@ {
        DiagramKind::Requirement
    } else if name == "sankey"@ {
        DiagramKind::Sankey
    } else if name == "radar"@ {
        DiagramKind::Radar
    } else if name == "info"@ {
        DiagramKind::Info
    } else if name == "treemap"@ {
        DiagramKind::Treemap
    } else if name == "block"@ {
        DiagramKind::Block
    } else if name == "er"@ {
        DiagramKind::Er
    } else if name == "quadrantChart"@ {
        DiagramKind::QuadrantChart
    } else if name == "xychart"@ {
        DiagramKind::XyChart
    } else if name == "gitGraph"@ {
        DiagramKind::GitGraph
    } else if name == "treeView"@ {
        DiagramKind::TreeView
    } else {
        DiagramKind::Unknown
    }
}

/// Law: a model is taken for a class diagram exactly when the parser names
/// its kind `class`; every other kind is reported as unsupported.
pub proof fn lemma_only_class_is_drawn(name: Seq<char>)
    ensures
        (kind_of_name(name) == DiagramKind::Class) <==> name == "class"@,
{
    reveal_strlit("class");
    reveal_strlit("custom-json");
    reveal_strlit("mindmap");
    reveal_strlit("state");
    reveal_strlit("sequence");
    reveal_strlit("flowchart");
    reveal_strlit("architecture");
    if name == "class"@ {
        assert(name.len() == 5);
        assert("custom-json"@.len() == 11);
        assert("mindmap"@.len() == 7);
        assert("state"@[0] == 's');
        assert("sequence"@.len() == 8);
        assert("flowchart"@.len() == 9);
        assert("architecture"@.len() == 12);
        assert(name[0] == 'c');
        assert(name != "state"@);
    }
}

/// The kind of diagram that the parser's name for a model stands for.
pub fn kind_of_model_name(name: &str) -> (kind: DiagramKind)
    ensures
        kind == kind_of_name(name@),
{
    if same_text(name, "custom-json") {
        DiagramKind::Json
    } else if same_text(name, "mindmap") {
        DiagramKind::Mindmap
    } else if same_text(name, "state") {
        DiagramKind::State
    } else if same_text(name, "sequence") {
        DiagramKind::Sequence
    } else if same_text(name, "flowchart") {
        DiagramKind::Flowchart
    } else if same_text(name, "architecture") {
        DiagramKind::Architecture
    } else if same_text(name, "class") {
        DiagramKind::Class
    } else if same_text(name, "c4") {
        DiagramKind::C4
    } else if same_text(name, "kanban") {
        DiagramKind::Kanban
    } else if same_text(name, "gantt") {
        DiagramKind::Gantt
    } else if same_text(name, "pie") {
        DiagramKind::Pie
    } else if same_text(name, "packet") {
        DiagramKind::Packet
    } else if same_text(name, "timeline") {
        DiagramKind::Timeline
    } else if same_text(name, "journey") {
        DiagramKind::Journey
    } else if same_text(name, "requirement") {
        DiagramKind::Requirement
    } else if same_text(name, "sankey") {
        DiagramKind::Sankey
    } else if same_text(name, "radar") {
        DiagramKind::Radar
    } else if same_text(name, "info") {
        DiagramKind::Info
    } else if same_text(name, "treemap") {
        DiagramKind::Treemap
    } else if same_text(name, "block") {
        DiagramKind::Block
    } else if same_text(name, "er") {
        DiagramKind::Er
    } else if same_text(name, "quadrantChart") {
        DiagramKind::QuadrantChart
    } else if same_text(name, "xychart") {
        DiagramKind::XyChart
    } else if same_text(name, "gitGraph") {
        DiagramKind::GitGraph
    } else if same_text(name, "treeView") {
        DiagramKind::TreeView
    } else {
        DiagramKind::Unknown
    }
}

/// What a parse comes to, given the kind of diagram the parser recognised
/// in the text (none when it found no diagram): a class diagram goes on to
/// be laid out, no diagram is `NoDiagram`, and any other kind is
/// `Unsupported` under its name.
pub fn accept_kind(recognised: Option<DiagramKind>) -> (r: Result<(), DiagramError>)
    ensures
        recognised is None ==> r matches Err(DiagramError::NoDiagram),
        recognised == Some(DiagramKind::Class) ==> r is Ok,
        forall|k: DiagramKind|
            recognised == Some(k) && k != DiagramKind::Class ==> (r matches Err(
                DiagramError::Unsupported(name),
            ) && name@ == kind_name(k)),
{
    match recognised {
        None => Err(DiagramError::NoDiagram),
        Some(DiagramKind::Class) => Ok(()),
        Some(kind) => Err(DiagramError::Unsupported(diagram_kind_name(kind))),
    }
}

/// What a parse outcome comes to for drawing: the parser's error as `Parse`;
/// `NoDiagram` when the text holds no diagram; the parsed diagram when its
/// kind is `class`; and otherwise `Unsupported`, under the name of the kind.
pub fn settle_class_parse(
    outcome: Result<Option<(merman_core::ParsedDiagramRender, String)>, merman_core::Error>,
) -> (r: Result<merman_core::ParsedDiagramRender, DiagramError>)
    ensures
        outcome matches Err(e) ==> (r matches Err(DiagramError::Parse(e2)) && e2 == e),
        outcome matches Ok(None) ==> r matches Err(DiagramError::NoDiagram),
        outcome matches Ok(Some((p, k))) ==> (k@ == "class"@ ==> r == Ok::<
            merman_core::ParsedDiagramRender,
            DiagramError,
        >(p)),
        outcome matches Ok(Some((_, k))) ==> (k@ != "class"@ ==> (r matches Err(
            DiagramError::Unsupported(name),
        ) && name@ == kind_name(kind_of_name(k@)))),
{
    match outcome {
        Err(e) => Err(DiagramError::Parse(e)),
        Ok(None) => Err(DiagramError::NoDiagram),
        Ok(Some((parsed, name))) => {
            let kind = kind_of_model_name(name.as_str());
            proof {
                lemma_only_class_is_drawn(name@);
            }
            match accept_kind(Some(kind)) {
                Ok(()) => Ok(parsed),
                Err(e) => Err(e),
            }
        },
    }
}

/// Parses Mermaid source text for drawing: the parsed diagram when it is a
/// class diagram; otherwise why there is no diagram to draw: the parser's
/// error, no diagram in the text, or a kind of diagram that is not drawn yet,
/// reported under its name. The parse is strict.
pub fn parse_class_diagram(source: &str) -> (r: Result<merman_core::ParsedDiagramRender, DiagramError>)
    ensures
        r is Ok <==> parse_outcome(source@, false) == Some(Some("class"@)),
        r matches Err(DiagramError::NoDiagram) <==> parse_outcome(source@, false) == Some(
            None::<Seq<char>>,
        ),
        r matches Err(DiagramError::Parse(_)) <==> parse_outcome(source@, false) is None,
        r matches Err(DiagramError::Unsupported(_)) <==> (parse_outcome(source@, false) matches Some(
            Some(k),
        ) && k != "class"@),
        r matches Err(DiagramError::Unsupported(name)) ==> name@ == kind_name(
            kind_of_name(parse_outcome(source@, false)->0->0),
        ),
{
    settle_class_parse(parse_for_render(source, false))
}

} // verus!
