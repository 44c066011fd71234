//! `classDiagram` scenes: what the drawing and hit-testing code decides
//! about the elements of a laid-out class diagram.
//!
//! The layout places boxes for classes, notes and namespace clusters, and
//! routes edges for relations and for `note for X` tethers. The scene index
//! holds the identifiers the decisions read: which node is a class, a note,
//! or the synthetic placeholder that the compound-cluster layout adds for
//! each namespace (same id as the cluster, same geometry); which edge stands
//! for which relation.

use vstd::prelude::*;

use crate::diagram::ElementId;
use crate::diagram::theme::{Rgb, Theme};
use crate::text::{has_prefix, is_blank, is_blank_text, same_text};

verus! {

// ---------------------------------------------------------------------
// Relation markers and labels

/// The integer codes by which a class model tells the kinds of relation end
/// apart.
#[derive(Debug, Clone, Copy, PartialEq, Eq, Structural)]
pub struct RelationTypeConstants {
    pub none: i32,
    pub aggregation: i32,
    pub extension: i32,
    pub composition: i32,
    pub dependency: i32,
    pub lollipop: i32,
}

/// The UML marker drawn at a relation end.
#[derive(Debug, Clone, Copy, PartialEq, Eq, Structural)]
pub enum MarkerKind {
    Absent,
    Aggregation,
    Extension,
    Composition,
    Dependency,
    Lollipop,
}

/// The marker for the relation-end code `value`: the first of aggregation,
/// extension, composition, dependency and lollipop whose code it is, and no
/// marker when it is none of them.
pub open spec fn marker_for(value: i32, constants: RelationTypeConstants) -> MarkerKind {
    if value == constants.aggregation {
        MarkerKind::Aggregation
    } else if value == constants.extension {
        MarkerKind::Extension
    } else if value == constants.composition {
        MarkerKind::Composition
    } else if value == constants.dependency {
        MarkerKind::Dependency
    } else if value == constants.lollipop {
        MarkerKind::Lollipop
    } else {
        MarkerKind::Absent
    }
}

/// The marker for the relation-end code `value`.
pub fn marker_kind(value: i32, constants: &RelationTypeConstants) -> (kind: MarkerKind)
    ensures
        kind == marker_for(value, *constants),
{
    if value == constants.aggregation {
        MarkerKind::Aggregation
    } else if value == constants.extension {
        MarkerKind::Extension
    } else if value == constants.composition {
        MarkerKind::Composition
    } else if value == constants.dependency {
        MarkerKind::Dependency
    } else if value == constants.lollipop {
        MarkerKind::Lollipop
    } else {
        MarkerKind::Absent
    }
}

/// How the line of a relation is drawn.
#[derive(Debug, Clone, Copy, PartialEq, Eq, Structural)]
pub struct RelationStyle {
    /// The line is dotted.
    pub dashed: bool,
    /// The marker at the first point of the route.
    pub start_marker: MarkerKind,
    /// The marker at the last point of the route.
    pub end_marker: MarkerKind,
}

/// How a relation is drawn: dashed when its line type is the dotted-line
/// code; with the markers of its two ends when its route has at least two
/// points (a marker needs a direction), and with none otherwise.
pub fn relation_style(
    line_type: i32,
    dotted_line: i32,
    type1: i32,
    type2: i32,
    constants: &RelationTypeConstants,
    point_count: usize,
) -> (style: RelationStyle)
    ensures
        style.dashed == (line_type == dotted_line),
        point_count >= 2 ==> style.start_marker == marker_for(type1, *constants),
        point_count >= 2 ==> style.end_marker == marker_for(type2, *constants),
        point_count < 2 ==> style.start_marker == MarkerKind::Absent,
        point_count < 2 ==> style.end_marker == MarkerKind::Absent,
{
    if point_count >= 2 {
        RelationStyle {
            dashed: line_type == dotted_line,
            start_marker: marker_kind(type1, constants),
            end_marker: marker_kind(type2, constants),
        }
    } else {
        RelationStyle {
            dashed: line_type == dotted_line,
            start_marker: MarkerKind::Absent,
            end_marker: MarkerKind::Absent,
        }
    }
}

/// Which labels of a relation are drawn.
#[derive(Debug, Clone, Copy, PartialEq, Eq, Structural)]
pub struct EdgeLabels {
    /// The relation title, at the label position of the edge.
    pub title: bool,
    /// The label of the first end, near its start.
    pub start: bool,
    /// The label of the second end, near its end.
    pub end: bool,
}

/// Which labels of a relation are drawn: the title when the layout gave the
/// edge a label position and the title is not blank; each end label when it
/// is not the text `none` (which stands for no label) and the layout gave
/// that end a label position.
pub fn edge_labels(
    title: &str,
    has_title_position: bool,
    start_title: &str,
    has_start_position: bool,
    end_title: &str,
    has_end_position: bool,
) -> (labels: EdgeLabels)
    ensures
        labels.title == (has_title_position && !is_blank_text(title@)),
        labels.start == (start_title@ != "none"@ && has_start_position),
        labels.end == (end_title@ != "none"@ && has_end_position),
{
    let no_label = "none";
    EdgeLabels {
        title: has_title_position && !is_blank(title),
        start: !same_text(start_title, no_label) && has_start_position,
        end: !same_text(end_title, no_label) && has_end_position,
    }
}

// ---------------------------------------------------------------------
// Class boxes

/// The views of a sequence of strings.
pub open spec fn string_views(v: Seq<String>) -> Seq<Seq<char>> {
    v.map_values(|s: String| s@)
}

/// The title of a class: its label, followed by its type parameter in angle
/// brackets when it has one that is not blank.
pub open spec fn class_title(label: Seq<char>, type_param: Seq<char>) -> Seq<char> {
    if is_blank_text(type_param) {
        label
    } else {
        label + " <"@ + type_param + ">"@
    }
}

/// The title compartment of a class box: each annotation in guillemets, in
/// order, then the title.
pub open spec fn title_rows(annotations: Seq<Seq<char>>, label: Seq<char>, type_param: Seq<char>) -> Seq<Seq<char>> {
    annotations.map_values(|a: Seq<char>| "«"@ + a + "»"@).push(class_title(label, type_param))
}

/// The rows of the title compartment of a class box.
pub fn class_title_rows(annotations: &Vec<String>, label: &String, type_param: &String) -> (rows: Vec<String>)
    ensures
        string_views(rows@) == title_rows(string_views(annotations@), label@, type_param@),
{
    let mut rows: Vec<String> = Vec::new();
    let n = annotations.len();
    let mut i: usize = 0;
    while i < n
        invariant
            i <= n,
            n == annotations@.len(),
            string_views(rows@) == string_views(annotations@).take(i as int).map_values(
                |a: Seq<char>| "«"@ + a + "»"@,
            ),
        decreases n - i,
    {
        let mut row = String::new();
        row.append("«");
        row.append(annotations[i].as_str());
        row.append("»");
        let ghost prev = rows@;
        rows.push(row);
        assert(string_views(rows@) =~= string_views(prev).push(row@));
        assert(string_views(annotations@).take(i + 1) =~= string_views(annotations@).take(
            i as int,
        ).push(annotations@[i as int]@));
        assert(string_views(rows@) =~= string_views(annotations@).take(i + 1).map_values(
            |a: Seq<char>| "«"@ + a + "»"@,
        ));
        i = i + 1;
    }
    let title = if is_blank(type_param.as_str()) {
        label.clone()
    } else {
        let mut t = label.clone();
        t.append(" <");
        t.append(type_param.as_str());
        t.append(">");
        t
    };
    let ghost prev = rows@;
    rows.push(title);
    assert(string_views(annotations@).take(n as int) =~= string_views(annotations@));
    assert(string_views(rows@) =~= string_views(prev).push(title@));
    rows
}

/// Whether the members and the methods compartments of a class box are
/// drawn: each is, unless it has no rows and empty compartments are hidden.
pub fn compartments_shown(member_count: usize, method_count: usize, hide_empty_members_box: bool) -> (shown: (bool, bool))
    ensures
        shown.0 == (member_count > 0 || !hide_empty_members_box),
        shown.1 == (method_count > 0 || !hide_empty_members_box),
{
    (member_count > 0 || !hide_empty_members_box, method_count > 0 || !hide_empty_members_box)
}

// ---------------------------------------------------------------------
// Paint

/// The outline of a relation-end marker.
#[derive(Debug, Clone, Copy, PartialEq, Eq, Structural)]
pub enum MarkerShape {
    /// An arrowhead whose tip lies on the route's end point.
    Triangle,
    /// A diamond whose near corner lies on the route's end point.
    Diamond,
    /// A circle touching the route's end point.
    Circle,
}

/// How a relation-end marker is painted.
#[derive(Debug, Clone, Copy, PartialEq, Eq, Structural)]
pub struct MarkerPaint {
    pub shape: MarkerShape,
    pub fill: Rgb,
    /// The outline color, when the marker has an outline.
    pub stroke: Option<Rgb>,
}

/// How each marker is painted: extension is a hollow arrowhead, aggregation a
/// hollow diamond, composition a filled diamond, dependency a solid arrowhead
/// in the line color, lollipop a hollow circle; no marker is not painted.
pub open spec fn paint_for(kind: MarkerKind, theme: Theme) -> Option<MarkerPaint> {
    match kind {
        MarkerKind::Absent => None,
        MarkerKind::Extension => Some(
            MarkerPaint {
                shape: MarkerShape::Triangle,
                fill: theme.background,
                stroke: Some(theme.node_stroke),
            },
        ),
        MarkerKind::Aggregation => Some(
            MarkerPaint { shape: MarkerShape::Diamond, fill: theme.background, stroke: Some(theme.node_stroke) },
        ),
        MarkerKind::Composition => Some(
            MarkerPaint { shape: MarkerShape::Diamond, fill: theme.node_stroke, stroke: Some(theme.node_stroke) },
        ),
        MarkerKind::Dependency => Some(
            MarkerPaint { shape: MarkerShape::Triangle, fill: theme.edge_stroke, stroke: None },
        ),
        MarkerKind::Lollipop => Some(
            MarkerPaint { shape: MarkerShape::Circle, fill: theme.background, stroke: Some(theme.node_stroke) },
        ),
    }
}

/// How a relation-end marker is painted in a theme.
pub fn marker_paint(kind: MarkerKind, theme: &Theme) -> (paint: Option<MarkerPaint>)
    ensures
        paint == paint_for(kind, *theme),
{
    match kind {
        MarkerKind::Absent => None,
        MarkerKind::Extension => Some(
            MarkerPaint {
                shape: MarkerShape::Triangle,
                fill: theme.background,
                stroke: Some(theme.node_stroke),
            },
        ),
        MarkerKind::Aggregation => Some(
            MarkerPaint { shape: MarkerShape::Diamond, fill: theme.background, stroke: Some(theme.node_stroke) },
        ),
        MarkerKind::Composition => Some(
            MarkerPaint { shape: MarkerShape::Diamond, fill: theme.node_stroke, stroke: Some(theme.node_stroke) },
        ),
        MarkerKind::Dependency => Some(
            MarkerPaint { shape: MarkerShape::Triangle, fill: theme.edge_stroke, stroke: None },
        ),
        MarkerKind::Lollipop => Some(
            MarkerPaint { shape: MarkerShape::Circle, fill: theme.background, stroke: Some(theme.node_stroke) },
        ),
    }
}

/// The fill and outline colors of a node's box: class boxes and plain boxes
/// in the node colors, notes in the note colors; cluster placeholders are not
/// drawn.
pub fn node_paint(role: NodeRole, theme: &Theme) -> (paint: Option<(Rgb, Rgb)>)
    ensures
        role == NodeRole::Placeholder ==> paint is None,
        role == NodeRole::Class || role == NodeRole::Fallback ==> paint == Some(
            (theme.node_fill, theme.node_stroke),
        ),
        role matches NodeRole::Note(_) ==> paint == Some((theme.note_fill, theme.note_stroke)),
{
    match role {
        NodeRole::Placeholder => None,
        NodeRole::Class | NodeRole::Fallback => Some((theme.node_fill, theme.node_stroke)),
        NodeRole::Note(_) => Some((theme.note_fill, theme.note_stroke)),
    }
}

// ---------------------------------------------------------------------
// The scene index

/// The last position before `k` at which `ids` holds `id`: the position
/// that a map built by inserting `(ids[i], i)` in order keeps for `id`.
pub open spec fn last_in(ids: Seq<Seq<char>>, id: Seq<char>, k: int) -> Option<int>
    decreases k,
{
    if k <= 0 {
        None
    } else if ids[k - 1] == id {
        Some(k - 1)
    } else {
        last_in(ids, id, k - 1)
    }
}

/// The last position at which `ids` holds `id`.
pub open spec fn last_index(ids: Seq<Seq<char>>, id: Seq<char>) -> Option<int> {
    last_in(ids, id, ids.len() as int)
}

pub proof fn lemma_last_in(ids: Seq<Seq<char>>, id: Seq<char>, k: int)
    requires
        0 <= k <= ids.len(),
    ensures
        last_in(ids, id, k) matches Some(i) ==> (0 <= i < k && ids[i] == id && forall|j: int|
            i < j < k ==> ids[j] != id),
        last_in(ids, id, k) is None ==> forall|j: int| 0 <= j < k ==> ids[j] != id,
    decreases k,
{
    if k > 0 {
        lemma_last_in(ids, id, k - 1);
    }
}

/// Law: the position found for an identifier holds that identifier, no later
/// position holds it, and none is found exactly when it occurs nowhere.
pub proof fn lemma_last_index(ids: Seq<Seq<char>>, id: Seq<char>)
    ensures
        last_index(ids, id) matches Some(i) ==> (0 <= i < ids.len() && ids[i] == id
            && forall|j: int| i < j < ids.len() ==> ids[j] != id),
        last_index(ids, id) is None <==> !ids.contains(id),
{
    lemma_last_in(ids, id, ids.len() as int);
    if last_index(ids, id) is None {
        assert forall|j: int| 0 <= j < ids.len() implies ids[j] != id by {}
    } else {
        let i = last_index(ids, id)->0;
        assert(ids[i] == id);
    }
}

fn find_last(ids: &Vec<String>, id: &String) -> (r: Option<usize>)
    ensures
        match last_index(string_views(ids@), id@) {
            Some(i) => r == Some(i as usize),
            None => r is None,
        },
{
    let ghost v = string_views(ids@);
    let mut k = ids.len();
    while k > 0
        invariant
            k <= ids@.len(),
            v == string_views(ids@),
            last_in(v, id@, ids@.len() as int) == last_in(v, id@, k as int),
        decreases k,
    {
        if ids[k - 1] == *id {
            assert(v[k - 1] == id@);
            return Some(k - 1);
        }
        assert(v[k - 1] != id@);
        k = k - 1;
    }
    None
}

/// Whether an edge identifier names the tether of a `note for X` note.
pub open spec fn is_note_tether_id(id: Seq<char>) -> bool {
    "edgeNote"@.len() <= id.len() && id.take("edgeNote"@.len() as int) == "edgeNote"@
}

/// How an edge is drawn.
#[derive(Debug, Clone, Copy, PartialEq, Eq, Structural)]
pub enum EdgeRole {
    /// The edge of the relation at this position of the model, with its
    /// markers and labels.
    Relation(usize),
    /// A plain dashed curve with no markers or labels: the tether of a note,
    /// or an edge with no relation behind it.
    Tether,
}

/// How the edge `id` is drawn, given the relation identifiers in model
/// order: as the last relation with that identifier, unless the identifier
/// marks a note tether or no relation has it; then as a tether.
pub open spec fn role_of_edge(relations: Seq<Seq<char>>, id: Seq<char>) -> EdgeRole {
    match last_index(relations, id) {
        Some(i) => if is_note_tether_id(id) {
            EdgeRole::Tether
        } else {
            EdgeRole::Relation(i as usize)
        },
        None => EdgeRole::Tether,
    }
}

/// How a node is drawn and picked.
#[derive(Debug, Clone, Copy, PartialEq, Eq, Structural)]
pub enum NodeRole {
    /// The synthetic node that stands for a namespace cluster during
    /// layout: neither drawn nor picked as a node.
    Placeholder,
    /// A class box.
    Class,
    /// The note at this position of the model.
    Note(usize),
    /// A plain box labeled with the node identifier.
    Fallback,
}

/// One element under test for a hit, in the order the scene holds it, with
/// whether the point lies on it.
#[derive(Debug)]
pub struct Candidate {
    pub id: String,
    pub hit: bool,
}

/// The topmost hit node below position `k` that is not a cluster
/// placeholder: nodes drawn later lie on top.
pub open spec fn top_node_hit(nodes: Seq<Candidate>, placeholders: Seq<Seq<char>>, k: int) -> Option<int>
    decreases k,
{
    if k <= 0 {
        None
    } else if nodes[k - 1].hit && !placeholders.contains(nodes[k - 1].id@) {
        Some(k - 1)
    } else {
        top_node_hit(nodes, placeholders, k - 1)
    }
}

/// The first hit candidate from position `k` on.
pub open spec fn first_hit(candidates: Seq<Candidate>, k: int) -> Option<int>
    decreases candidates.len() - k,
{
    if k < 0 || k >= candidates.len() {
        None
    } else if candidates[k].hit {
        Some(k)
    } else {
        first_hit(candidates, k + 1)
    }
}

/// The element that a click picks: the topmost node under it, else the
/// first edge near it, else the first cluster under it, else nothing.
pub open spec fn picked(
    nodes: Seq<Candidate>,
    edges: Seq<Candidate>,
    clusters: Seq<Candidate>,
    placeholders: Seq<Seq<char>>,
    r: Option<ElementId>,
) -> bool {
    match top_node_hit(nodes, placeholders, nodes.len() as int) {
        Some(i) => r matches Some(ElementId::Node(id)) && id@ == nodes[i].id@,
        None => match first_hit(edges, 0) {
            Some(i) => r matches Some(ElementId::Edge(id)) && id@ == edges[i].id@,
            None => match first_hit(clusters, 0) {
                Some(i) => r matches Some(ElementId::Cluster(id)) && id@ == clusters[i].id@,
                None => r is None,
            },
        },
    }
}

/// The identifiers of the elements of a laid-out class diagram.
pub struct SceneIndex {
    /// The classes of the model.
    class_ids: Vec<String>,
    /// The relations of the model, in model order.
    relation_ids: Vec<String>,
    /// The notes of the model, in model order.
    note_ids: Vec<String>,
    /// The namespace clusters of the layout.
    cluster_ids: Vec<String>,
}

impl SceneIndex {
    pub closed spec fn classes(&self) -> Seq<Seq<char>> {
        string_views(self.class_ids@)
    }

    pub closed spec fn relations(&self) -> Seq<Seq<char>> {
        string_views(self.relation_ids@)
    }

    pub closed spec fn notes(&self) -> Seq<Seq<char>> {
        string_views(self.note_ids@)
    }

    pub closed spec fn clusters(&self) -> Seq<Seq<char>> {
        string_views(self.cluster_ids@)
    }

    /// The index of a class model (class, relation and note identifiers) and
    /// of its layout (cluster identifiers).
    pub fn new(
        class_ids: Vec<String>,
        relation_ids: Vec<String>,
        note_ids: Vec<String>,
        cluster_ids: Vec<String>,
    ) -> (index: Self)
        ensures
            index.classes() == string_views(class_ids@),
            index.relations() == string_views(relation_ids@),
            index.notes() == string_views(note_ids@),
            index.clusters() == string_views(cluster_ids@),
            index.classes().len() <= usize::MAX,
            index.relations().len() <= usize::MAX,
            index.notes().len() <= usize::MAX,
            index.clusters().len() <= usize::MAX,
    {
        assert(class_ids@.len() == class_ids.len() && relation_ids@.len() == relation_ids.len());
        assert(note_ids@.len() == note_ids.len() && cluster_ids@.len() == cluster_ids.len());
        SceneIndex { class_ids, relation_ids, note_ids, cluster_ids }
    }

    /// The position of the relation an edge stands for, when there is one;
    /// for an identifier used twice, the later relation.
    pub fn relation_index(&self, edge_id: &String) -> (r: Option<usize>)
        ensures
            match last_index(self.relations(), edge_id@) {
                Some(i) => r == Some(i as usize),
                None => r is None,
            },
    {
        find_last(&self.relation_ids, edge_id)
    }

    /// The position of the note a node stands for, when there is one; for an
    /// identifier used twice, the later note.
    pub fn note_index(&self, node_id: &String) -> (r: Option<usize>)
        ensures
            match last_index(self.notes(), node_id@) {
                Some(i) => r == Some(i as usize),
                None => r is None,
            },
    {
        find_last(&self.note_ids, node_id)
    }

    /// Whether a node is the placeholder of a namespace cluster.
    pub fn is_cluster(&self, node_id: &String) -> (r: bool)
        ensures
            r == self.clusters().contains(node_id@),
    {
        let found = find_last(&self.cluster_ids, node_id);
        proof {
            lemma_last_index(self.clusters(), node_id@);
        }
        found.is_some()
    }

    /// Whether a node is the box of a class.
    pub fn is_class(&self, node_id: &String) -> (r: bool)
        ensures
            r == self.classes().contains(node_id@),
    {
        let found = find_last(&self.class_ids, node_id);
        proof {
            lemma_last_index(self.classes(), node_id@);
        }
        found.is_some()
    }

    /// How an edge is drawn: as the relation it stands for, unless its
    /// identifier marks it as the tether of a note or no relation has it;
    /// then as a tether.
    pub fn edge_role(&self, edge_id: &String) -> (role: EdgeRole)
        ensures
            role == role_of_edge(self.relations(), edge_id@),
    {
        match self.relation_index(edge_id) {
            Some(i) => {
                if has_prefix(edge_id.as_str(), "edgeNote") {
                    EdgeRole::Tether
                } else {
                    EdgeRole::Relation(i)
                }
            },
            None => EdgeRole::Tether,
        }
    }

    /// How a node is drawn: cluster placeholders are skipped; otherwise a
    /// class box when a class has the identifier, else the note that has it,
    /// else a plain box.
    pub fn node_role(&self, node_id: &String) -> (role: NodeRole)
        ensures
            self.clusters().contains(node_id@) ==> role == NodeRole::Placeholder,
            !self.clusters().contains(node_id@) && self.classes().contains(node_id@) ==> role
                == NodeRole::Class,
            !self.clusters().contains(node_id@) && !self.classes().contains(node_id@) ==> match last_index(
                self.notes(),
                node_id@,
            ) {
                Some(i) => role == NodeRole::Note(i as usize),
                None => role == NodeRole::Fallback,
            },
    {
        if self.is_cluster(node_id) {
            NodeRole::Placeholder
        } else if self.is_class(node_id) {
            NodeRole::Class
        } else {
            match self.note_index(node_id) {
                Some(i) => NodeRole::Note(i),
                None => NodeRole::Fallback,
            }
        }
    }

    /// The element a click picks, given for each node, edge and cluster (in
    /// the order the layout holds them) whether the click lies on it: the
    /// topmost node under it that is not a cluster placeholder, else the
    /// first edge near it, else the first cluster under it.
    pub fn pick_element(
        &self,
        nodes: &Vec<Candidate>,
        edges: &Vec<Candidate>,
        clusters: &Vec<Candidate>,
    ) -> (r: Option<ElementId>)
        ensures
            picked(nodes@, edges@, clusters@, self.clusters(), r),
    {
        let mut k = nodes.len();
        while k > 0
            invariant
                k <= nodes@.len(),
                top_node_hit(nodes@, self.clusters(), nodes@.len() as int) == top_node_hit(
                    nodes@,
                    self.clusters(),
                    k as int,
                ),
            decreases k,
        {
            let node = &nodes[k - 1];
            if node.hit && !self.is_cluster(&node.id) {
                return Some(ElementId::Node(node.id.clone()));
            }
            k = k - 1;
        }
        let mut i: usize = 0;
        while i < edges.len()
            invariant
                i <= edges@.len(),
                first_hit(edges@, 0) == first_hit(edges@, i as int),
                top_node_hit(nodes@, self.clusters(), nodes@.len() as int) is None,
            decreases edges@.len() - i,
        {
            if edges[i].hit {
                return Some(ElementId::Edge(edges[i].id.clone()));
            }
            i = i + 1;
        }
        let mut j: usize = 0;
        while j < clusters.len()
            invariant
                j <= clusters@.len(),
                first_hit(clusters@, 0) == first_hit(clusters@, j as int),
                top_node_hit(nodes@, self.clusters(), nodes@.len() as int) is None,
                first_hit(edges@, 0) is None,
            decreases clusters@.len() - j,
        {
            if clusters[j].hit {
                return Some(ElementId::Cluster(clusters[j].id.clone()));
            }
            j = j + 1;
        }
        None
    }
}

/// Law: a click on a node (other than a cluster placeholder) always picks a
/// node, whatever edges and clusters lie under it too.
pub proof fn lemma_nodes_take_precedence(
    nodes: Seq<Candidate>,
    edges: Seq<Candidate>,
    clusters: Seq<Candidate>,
    placeholders: Seq<Seq<char>>,
    k: int,
    r: Option<ElementId>,
)
    requires
        0 <= k < nodes.len(),
        nodes[k].hit,
        !placeholders.contains(nodes[k].id@),
        picked(nodes, edges, clusters, placeholders, r),
    ensures
        r matches Some(ElementId::Node(id)),
{
    lemma_top_node_hit_found(nodes, placeholders, nodes.len() as int, k);
}

/// Law: a cluster placeholder is never picked as a node, and a picked node
/// lies under the click.
pub proof fn lemma_placeholders_never_picked(
    nodes: Seq<Candidate>,
    edges: Seq<Candidate>,
    clusters: Seq<Candidate>,
    placeholders: Seq<Seq<char>>,
    r: Option<ElementId>,
)
    requires
        picked(nodes, edges, clusters, placeholders, r),
    ensures
        r matches Some(ElementId::Node(id)) ==> (!placeholders.contains(id@) && exists|i: int|
            0 <= i < nodes.len() && (#[trigger] nodes[i]).hit && nodes[i].id@ == id@),
{
    lemma_top_node_hit_is_hit(nodes, placeholders, nodes.len() as int);
    if let Some(ElementId::Node(id)) = r {
        let i = top_node_hit(nodes, placeholders, nodes.len() as int)->0;
        assert(nodes[i].hit);
    }
}

proof fn lemma_top_node_hit_is_hit(nodes: Seq<Candidate>, placeholders: Seq<Seq<char>>, m: int)
    requires
        0 <= m <= nodes.len(),
    ensures
        top_node_hit(nodes, placeholders, m) matches Some(i) ==> (0 <= i < m && nodes[i].hit
            && !placeholders.contains(nodes[i].id@)),
    decreases m,
{
    if m > 0 {
        lemma_top_node_hit_is_hit(nodes, placeholders, m - 1);
    }
}

proof fn lemma_top_node_hit_found(nodes: Seq<Candidate>, placeholders: Seq<Seq<char>>, m: int, k: int)
    requires
        0 <= k < m <= nodes.len(),
        nodes[k].hit,
        !placeholders.contains(nodes[k].id@),
    ensures
        top_node_hit(nodes, placeholders, m) matches Some(i) && k <= i < m,
    decreases m,
{
    if m - 1 != k && !(nodes[m - 1].hit && !placeholders.contains(nodes[m - 1].id@)) {
        lemma_top_node_hit_found(nodes, placeholders, m - 1, k);
    }
}

/// Law: a click on nothing picks nothing.
pub proof fn lemma_nothing_hit_picks_nothing(
    nodes: Seq<Candidate>,
    edges: Seq<Candidate>,
    clusters: Seq<Candidate>,
    placeholders: Seq<Seq<char>>,
    r: Option<ElementId>,
)
    requires
        forall|i: int| 0 <= i < nodes.len() ==> !(#[trigger] nodes[i]).hit,
        forall|i: int| 0 <= i < edges.len() ==> !(#[trigger] edges[i]).hit,
        forall|i: int| 0 <= i < clusters.len() ==> !(#[trigger] clusters[i]).hit,
        picked(nodes, edges, clusters, placeholders, r),
    ensures
        r is None,
{
    lemma_no_top_node(nodes, placeholders, nodes.len() as int);
    lemma_no_first_hit(edges, 0);
    lemma_no_first_hit(clusters, 0);
}

proof fn lemma_no_top_node(nodes: Seq<Candidate>, placeholders: Seq<Seq<char>>, m: int)
    requires
        0 <= m <= nodes.len(),
        forall|i: int| 0 <= i < nodes.len() ==> !(#[trigger] nodes[i]).hit,
    ensures
        top_node_hit(nodes, placeholders, m) is None,
    decreases m,
{
    if m > 0 {
        assert(!nodes[m - 1].hit);
        lemma_no_top_node(nodes, placeholders, m - 1);
    }
}

proof fn lemma_no_first_hit(candidates: Seq<Candidate>, k: int)
    requires
        0 <= k,
        forall|i: int| 0 <= i < candidates.len() ==> !(#[trigger] candidates[i]).hit,
    ensures
        first_hit(candidates, k) is None,
    decreases candidates.len() - k,
{
    if k < candidates.len() {
        assert(!candidates[k].hit);
        lemma_no_first_hit(candidates, k + 1);
    }
}

/// Law: a note tether is never drawn as a relation, whatever relation
/// shares its identifier; and an edge drawn as a relation is drawn as one
/// that has its identifier.
pub proof fn lemma_edge_roles(relations: Seq<Seq<char>>, id: Seq<char>)
    requires
        relations.len() <= usize::MAX,
    ensures
        is_note_tether_id(id) ==> role_of_edge(relations, id) == EdgeRole::Tether,
        role_of_edge(relations, id) matches EdgeRole::Relation(i) ==> (i < relations.len()
            && relations[i as int] == id),
{
    lemma_last_index(relations, id);
}

} // verus!
