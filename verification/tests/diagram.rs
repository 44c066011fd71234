use piky::diagram::class::{marker_paint, node_paint, MarkerPaint, MarkerShape};
use piky::diagram::{kind_of_model_name, parse_class_diagram, settle_class_parse};
use piky::diagram_view::{flowchart_layout_json, settle_layout, LayoutFailure, LayoutReportError};
use piky::svg_render::{diagram_to_svg, settle_svg, SvgError};
use piky::diagram::class::{
    class_title_rows, compartments_shown, edge_labels, marker_kind, relation_style, Candidate,
    EdgeRole, MarkerKind, NodeRole, RelationTypeConstants, SceneIndex,
};
use piky::diagram::theme::{Rgb, Theme};
use piky::diagram::{accept_kind, diagram_kind_name, DiagramError, DiagramKind, ElementId};
use piky::text::{has_prefix, is_blank, same_text};

fn constants() -> RelationTypeConstants {
    RelationTypeConstants { none: -1, aggregation: 0, extension: 1, composition: 2, dependency: 3, lollipop: 4 }
}

fn strings(v: &[&str]) -> Vec<String> {
    v.iter().map(|s| s.to_string()).collect()
}

fn candidates(v: &[(&str, bool)]) -> Vec<Candidate> {
    v.iter().map(|(id, hit)| Candidate { id: id.to_string(), hit: *hit }).collect()
}

#[test]
fn kind_names() {
    assert_eq!(diagram_kind_name(DiagramKind::Json), "json");
    assert_eq!(diagram_kind_name(DiagramKind::Flowchart), "flowchart");
    assert_eq!(diagram_kind_name(DiagramKind::QuadrantChart), "quadrantChart");
    assert_eq!(diagram_kind_name(DiagramKind::XyChart), "xychart");
    assert_eq!(diagram_kind_name(DiagramKind::GitGraph), "gitGraph");
    assert_eq!(diagram_kind_name(DiagramKind::TreeView), "treeView");
    assert_eq!(diagram_kind_name(DiagramKind::Class), "class");
    assert_eq!(diagram_kind_name(DiagramKind::Unknown), "unknown");
}

#[test]
fn only_class_diagrams_are_accepted() {
    assert!(accept_kind(Some(DiagramKind::Class)).is_ok());
    assert!(matches!(accept_kind(None), Err(DiagramError::NoDiagram)));
    match accept_kind(Some(DiagramKind::Sequence)) {
        Err(DiagramError::Unsupported(name)) => assert_eq!(name, "sequence"),
        other => panic!("unexpected {other:?}"),
    }
}

#[test]
fn default_theme_is_mermaid_palette() {
    let t = Theme::default();
    assert_eq!(t.background, Rgb { r: 255, g: 255, b: 255 });
    assert_eq!(t.node_fill, Rgb { r: 0xEC, g: 0xEC, b: 0xFF });
    assert_eq!(t.node_stroke, Rgb { r: 0x93, g: 0x70, b: 0xDB });
    assert_eq!(t.cluster_fill, Rgb { r: 0xFF, g: 0xFF, b: 0xDE });
    assert_eq!(t.cluster_stroke, Rgb { r: 0xAA, g: 0xAA, b: 0x33 });
    assert_eq!(t.edge_stroke, Rgb { r: 0x33, g: 0x33, b: 0x33 });
    assert_eq!(t.text, Rgb { r: 0x33, g: 0x33, b: 0x33 });
    assert_eq!(t.note_fill, Rgb { r: 255, g: 245, b: 173 });
    assert_eq!(t.note_stroke, Rgb { r: 170, g: 170, b: 51 });
    assert_eq!(t.divider, Rgb { r: 147, g: 112, b: 219 });
}

#[test]
fn markers_follow_relation_codes() {
    let c = constants();
    assert_eq!(marker_kind(0, &c), MarkerKind::Aggregation);
    assert_eq!(marker_kind(1, &c), MarkerKind::Extension);
    assert_eq!(marker_kind(2, &c), MarkerKind::Composition);
    assert_eq!(marker_kind(3, &c), MarkerKind::Dependency);
    assert_eq!(marker_kind(4, &c), MarkerKind::Lollipop);
    assert_eq!(marker_kind(-1, &c), MarkerKind::Absent);
    assert_eq!(marker_kind(99, &c), MarkerKind::Absent);
}

#[test]
fn relation_style_needs_two_points_for_markers() {
    let c = constants();
    let s = relation_style(1, 1, 1, 2, &c, 3);
    assert!(s.dashed);
    assert_eq!(s.start_marker, MarkerKind::Extension);
    assert_eq!(s.end_marker, MarkerKind::Composition);
    let s = relation_style(0, 1, 1, 2, &c, 1);
    assert!(!s.dashed);
    assert_eq!(s.start_marker, MarkerKind::Absent);
    assert_eq!(s.end_marker, MarkerKind::Absent);
}

#[test]
fn labels_are_drawn_where_there_is_text_and_a_position() {
    let l = edge_labels("uses", true, "1", true, "*", true);
    assert!(l.title && l.start && l.end);
    let l = edge_labels("  ", true, "none", true, "*", false);
    assert!(!l.title && !l.start && !l.end);
    let l = edge_labels("uses", false, "1", false, "none", true);
    assert!(!l.title && !l.start && !l.end);
}

#[test]
fn title_rows_hold_annotations_then_title() {
    let rows = class_title_rows(&strings(&["interface", "service"]), &"Shape".to_string(), &"T".to_string());
    assert_eq!(rows, strings(&["«interface»", "«service»", "Shape <T>"]));
    let rows = class_title_rows(&Vec::new(), &"Shape".to_string(), &" ".to_string());
    assert_eq!(rows, strings(&["Shape"]));
}

#[test]
fn empty_compartments_hide_only_when_asked() {
    assert_eq!(compartments_shown(0, 0, false), (true, true));
    assert_eq!(compartments_shown(0, 2, true), (false, true));
    assert_eq!(compartments_shown(3, 0, true), (true, false));
}

fn index() -> SceneIndex {
    SceneIndex::new(
        strings(&["Animal", "Duck", "Zoo"]),
        strings(&["id_Animal_Duck_1", "edgeNote1", "id_Animal_Duck_1"]),
        strings(&["note0", "note1"]),
        strings(&["Zoo"]),
    )
}

#[test]
fn later_relation_wins_for_a_repeated_id() {
    let idx = index();
    assert_eq!(idx.relation_index(&"id_Animal_Duck_1".to_string()), Some(2));
    assert_eq!(idx.relation_index(&"missing".to_string()), None);
}

#[test]
fn edge_roles() {
    let idx = index();
    assert_eq!(idx.edge_role(&"id_Animal_Duck_1".to_string()), EdgeRole::Relation(2));
    assert_eq!(idx.edge_role(&"edgeNote1".to_string()), EdgeRole::Tether);
    assert_eq!(idx.edge_role(&"edgeNote9".to_string()), EdgeRole::Tether);
}

#[test]
fn node_roles() {
    let idx = index();
    assert_eq!(idx.node_role(&"Zoo".to_string()), NodeRole::Placeholder);
    assert_eq!(idx.node_role(&"Duck".to_string()), NodeRole::Class);
    assert_eq!(idx.node_role(&"note1".to_string()), NodeRole::Note(1));
    assert_eq!(idx.node_role(&"other".to_string()), NodeRole::Fallback);
    assert!(idx.is_cluster(&"Zoo".to_string()));
    assert!(!idx.is_class(&"note0".to_string()));
    assert_eq!(idx.note_index(&"note0".to_string()), Some(0));
}

#[test]
fn topmost_node_is_picked_before_edges_and_clusters() {
    let idx = index();
    let nodes = candidates(&[("Animal", true), ("Duck", true), ("Zoo", true)]);
    let edges = candidates(&[("e1", true)]);
    let clusters = candidates(&[("Zoo", true)]);
    assert_eq!(idx.pick_element(&nodes, &edges, &clusters), Some(ElementId::Node("Duck".to_string())));
}

#[test]
fn edges_then_clusters_are_picked() {
    let idx = index();
    let nodes = candidates(&[("Animal", false), ("Zoo", true)]);
    let edges = candidates(&[("e1", false), ("e2", true), ("e3", true)]);
    let clusters = candidates(&[("Zoo", true)]);
    assert_eq!(idx.pick_element(&nodes, &edges, &clusters), Some(ElementId::Edge("e2".to_string())));
    let edges = candidates(&[("e1", false)]);
    assert_eq!(idx.pick_element(&nodes, &edges, &clusters), Some(ElementId::Cluster("Zoo".to_string())));
    let clusters = candidates(&[("Zoo", false)]);
    assert_eq!(idx.pick_element(&nodes, &edges, &clusters), None);
}

#[test]
fn text_predicates() {
    assert!(is_blank(""));
    assert!(is_blank(" \t\n\u{a0}\u{3000}"));
    assert!(!is_blank(" a "));
    assert!(has_prefix("edgeNote3", "edgeNote"));
    assert!(!has_prefix("edge", "edgeNote"));
    assert!(same_text("none", "none"));
    assert!(!same_text("none", "nonE"));
}

#[test]
fn marker_paints() {
    let t = Theme::default();
    assert_eq!(marker_paint(MarkerKind::Absent, &t), None);
    assert_eq!(
        marker_paint(MarkerKind::Extension, &t),
        Some(MarkerPaint { shape: MarkerShape::Triangle, fill: t.background, stroke: Some(t.node_stroke) })
    );
    assert_eq!(
        marker_paint(MarkerKind::Aggregation, &t),
        Some(MarkerPaint { shape: MarkerShape::Diamond, fill: t.background, stroke: Some(t.node_stroke) })
    );
    assert_eq!(
        marker_paint(MarkerKind::Composition, &t),
        Some(MarkerPaint { shape: MarkerShape::Diamond, fill: t.node_stroke, stroke: Some(t.node_stroke) })
    );
    assert_eq!(
        marker_paint(MarkerKind::Dependency, &t),
        Some(MarkerPaint { shape: MarkerShape::Triangle, fill: t.edge_stroke, stroke: None })
    );
    assert_eq!(
        marker_paint(MarkerKind::Lollipop, &t),
        Some(MarkerPaint { shape: MarkerShape::Circle, fill: t.background, stroke: Some(t.node_stroke) })
    );
}

#[test]
fn node_paints() {
    let t = Theme::default();
    assert_eq!(node_paint(NodeRole::Placeholder, &t), None);
    assert_eq!(node_paint(NodeRole::Class, &t), Some((t.node_fill, t.node_stroke)));
    assert_eq!(node_paint(NodeRole::Fallback, &t), Some((t.node_fill, t.node_stroke)));
    assert_eq!(node_paint(NodeRole::Note(0), &t), Some((t.note_fill, t.note_stroke)));
}

fn parsed(source: &str) -> merman_core::ParsedDiagramRender {
    merman_core::Engine::new()
        .parse_diagram_for_render_model_sync(source, merman_core::ParseOptions::strict())
        .expect("the parser accepts the text")
        .expect("the text holds a diagram")
}

#[test]
fn class_source_parses() {
    let parsed = parse_class_diagram("classDiagram\n  Animal <|-- Duck\n  class Duck {\n    +swim()\n  }\n");
    assert!(parsed.is_ok());
}

#[test]
fn text_without_diagram_is_refused() {
    assert!(matches!(
        parse_class_diagram("this is not a diagram"),
        Err(DiagramError::NoDiagram) | Err(DiagramError::Parse(_))
    ));
}

#[test]
fn settled_outcomes() {
    assert!(matches!(settle_class_parse(Ok(None)), Err(DiagramError::NoDiagram)));
    let class = parsed("classDiagram\n  class Animal\n");
    assert!(settle_class_parse(Ok(Some((class, "class".to_string())))).is_ok());
    let flow = parsed("flowchart TD\n  A --> B\n");
    match settle_class_parse(Ok(Some((flow, "flowchart".to_string())))) {
        Err(DiagramError::Unsupported(name)) => assert_eq!(name, "flowchart"),
        other => panic!("unexpected {:?}", other.map(|_| ())),
    }
    let other = parsed("flowchart TD\n  A --> B\n");
    match settle_class_parse(Ok(Some((other, "error".to_string())))) {
        Err(DiagramError::Unsupported(name)) => assert_eq!(name, "unknown"),
        other => panic!("unexpected {:?}", other.map(|_| ())),
    }
}

#[test]
fn flowchart_layout_is_json() {
    let json = flowchart_layout_json("flowchart TD\n  A --> B\n").expect("a layout");
    assert!(json.trim_start().starts_with('{'));
    assert!(json.contains('\n'));
}

#[test]
fn layout_text_follows_the_source() {
    let source = "flowchart TD\n  A --> B\n";
    let first = flowchart_layout_json(source).expect("a layout");
    assert_eq!(flowchart_layout_json(source).expect("a layout"), first);
    assert_ne!(first, source);
    let other = flowchart_layout_json("flowchart TD\n  A --> B\n  B --> C\n").expect("a layout");
    assert_ne!(other, first);
}

#[test]
fn layout_outcomes_keep_their_messages() {
    assert_eq!(settle_layout(Ok("{}".to_string())).unwrap(), "{}");
    match settle_layout(Err(LayoutFailure::Layout("no room".to_string()))) {
        Err(LayoutReportError::Layout(m)) => assert_eq!(m, "no room"),
        other => panic!("unexpected {other:?}"),
    }
    match settle_layout(Err(LayoutFailure::Serialize("bad json".to_string()))) {
        Err(LayoutReportError::Serialize(m)) => assert_eq!(m, "bad json"),
        other => panic!("unexpected {other:?}"),
    }
}

#[test]
fn flowchart_renders_to_svg() {
    let svg = diagram_to_svg("flowchart TD\n  A[Start] --> B[End]\n").expect("an SVG");
    assert!(svg.contains("<svg"));
}

#[test]
fn svg_text_follows_the_source() {
    let source = "flowchart TD\n  A[Start] --> B[End]\n";
    let first = diagram_to_svg(source).expect("an SVG");
    assert_eq!(diagram_to_svg(source).expect("an SVG"), first);
    let other = diagram_to_svg("flowchart TD\n  A[Start] --> C[Other]\n").expect("an SVG");
    assert_ne!(other, first);
}

#[test]
fn svg_outcomes_keep_their_messages() {
    assert_eq!(settle_svg(Ok("<svg/>".to_string())).unwrap(), "<svg/>");
    match settle_svg(Err("too large".to_string())) {
        Err(SvgError::Render(m)) => assert_eq!(m, "too large"),
        other => panic!("unexpected {other:?}"),
    }
}

#[test]
fn model_names_map_to_kinds() {
    assert_eq!(kind_of_model_name("custom-json"), DiagramKind::Json);
    assert_eq!(kind_of_model_name("class"), DiagramKind::Class);
    assert_eq!(kind_of_model_name("flowchart"), DiagramKind::Flowchart);
    assert_eq!(kind_of_model_name("quadrantChart"), DiagramKind::QuadrantChart);
    assert_eq!(kind_of_model_name("treeView"), DiagramKind::TreeView);
    assert_eq!(kind_of_model_name("error"), DiagramKind::Unknown);
    assert_eq!(kind_of_model_name("venn"), DiagramKind::Unknown);
    assert_eq!(kind_of_model_name("Class"), DiagramKind::Unknown);
}

#[test]
fn class_diagrams_are_drawn() {
    assert!(parse_class_diagram("classDiagram\n  class Animal\n").is_ok());
}

#[test]
fn other_diagrams_are_unsupported_under_their_name() {
    match parse_class_diagram("flowchart TD\n  A --> B\n") {
        Err(DiagramError::Unsupported(name)) => assert_eq!(name, "flowchart"),
        other => panic!("unexpected {:?}", other.map(|_| ())),
    }
    match parse_class_diagram("sequenceDiagram\n  Alice->>Bob: Hi\n") {
        Err(DiagramError::Unsupported(name)) => assert_eq!(name, "sequence"),
        other => panic!("unexpected {:?}", other.map(|_| ())),
    }
}
