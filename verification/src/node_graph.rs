//! The editing model of the node-graph widget: the graph, which nodes are
//! selected, which were touched since the host last ran them, the groups,
//! the grid switch, and each node's progress and image preview. Panning,
//! zooming and drawing are the host's; it hands world coordinates here.

use vstd::prelude::*;
use std::collections::{HashMap, HashSet};
use crate::geometry::{Point, Rect, Size, WidgetId, fits_i32, trunc_div};
use crate::graph::{Edge, Graph, Group, Node, NodeView, Port, PortView, node_views, port_views};
use crate::node_progress::NodeProgress;
use crate::preview::NodeImagePreview;
use crate::widget::WidgetState;
use crate::text::same_text;
use crate::add_menu::{AddMenuSchema, AddMenuView, AddNodeMenuState, RegistryEntry, schema_node};
use vstd::std_specs::iter::IteratorSpec;

verus! {

broadcast use vstd::std_specs::hash::group_hash_axioms;

/// Grid step nodes snap to.
pub const SNAP: i32 = 12;

/// A port of a node: the node's id, the port's id, and its side.
#[derive(Clone, Copy, Debug, PartialEq, Eq, Structural)]
pub struct PortRef {
    pub node_id: usize,
    pub port_id: usize,
    pub is_input: bool,
}

/// Index of the first node from `i` on with id `id`.
pub open spec fn find_from(ns: Seq<NodeView>, id: usize, i: int) -> Option<int>
    decreases ns.len() - i,
{
    if i < 0 || i >= ns.len() {
        None
    } else if ns[i].id == id {
        Some(i)
    } else {
        find_from(ns, id, i + 1)
    }
}

/// Index of the first node with id `id`.
pub open spec fn find_node(ns: Seq<NodeView>, id: usize) -> Option<int> {
    find_from(ns, id, 0)
}

/// The largest node id, 0 for no nodes.
pub open spec fn max_node_id(ns: Seq<NodeView>) -> nat
    decreases ns.len(),
{
    if ns.len() == 0 {
        0
    } else {
        let m = max_node_id(ns.drop_last());
        if ns.last().id > m { ns.last().id as nat } else { m }
    }
}

/// The largest port id, 0 for no ports.
pub open spec fn max_port_id(ps: Seq<PortView>) -> nat
    decreases ps.len(),
{
    if ps.len() == 0 {
        0
    } else {
        let m = max_port_id(ps.drop_last());
        if ps.last().id > m { ps.last().id as nat } else { m }
    }
}

/// `v` snapped to the nearest multiple of [`SNAP`] as integer division
/// rounds it: `(v + 6) / 12 * 12`, the division truncating toward zero.
pub open spec fn snap_spec(v: int) -> int {
    trunc_div(v + SNAP / 2, SNAP as int) * SNAP
}

proof fn lemma_snap_range(v: int)
    requires
        fits_i32(v + 6),
    ensures
        fits_i32(snap_spec(v)),
        v + 6 >= 0 ==> 0 <= snap_spec(v) <= v + 6,
        v + 6 < 0 ==> v + 6 <= snap_spec(v) <= 0,
{
    let a = v + 6;
    if a >= 0 {
        assert(a / 12 * 12 <= a) by (nonlinear_arith)
            requires
                a >= 0,
        {}
        assert(a / 12 * 12 >= 0) by (nonlinear_arith)
            requires
                a >= 0,
        {}
    } else {
        assert((-a) / 12 * 12 <= -a) by (nonlinear_arith)
            requires
                -a >= 0,
        {}
        assert((-a) / 12 * 12 >= 0) by (nonlinear_arith)
            requires
                -a >= 0,
        {}
        assert(trunc_div(a, 12) * 12 == -((-a) / 12 * 12)) by (nonlinear_arith)
            requires
                a < 0,
                trunc_div(a, 12) == -((-a) / 12),
        {}
    }
}

/// A point snapped to the grid, coordinate by coordinate.
pub fn snap_point(p: Point) -> (r: Point)
    requires
        fits_i32(p.x + 6),
        fits_i32(p.y + 6),
    ensures
        r.x == snap_spec(p.x as int),
        r.y == snap_spec(p.y as int),
{
    proof {
        lemma_snap_range(p.x as int);
        lemma_snap_range(p.y as int);
    }
    Point { x: ((p.x + SNAP / 2) / SNAP) * SNAP, y: ((p.y + SNAP / 2) / SNAP) * SNAP }
}

/// The rectangle spanned by two corners.
pub fn rect_from_points(a: Point, b: Point) -> (r: Rect)
    requires
        fits_i32(a.x - b.x),
        fits_i32(b.x - a.x),
        fits_i32(a.y - b.y),
        fits_i32(b.y - a.y),
    ensures
        r.x == (if a.x <= b.x { a.x } else { b.x }),
        r.y == (if a.y <= b.y { a.y } else { b.y }),
        r.width == (if a.x <= b.x { b.x - a.x } else { a.x - b.x }),
        r.height == (if a.y <= b.y { b.y - a.y } else { a.y - b.y }),
{
    let (min_x, max_x) = if a.x <= b.x { (a.x, b.x) } else { (b.x, a.x) };
    let (min_y, max_y) = if a.y <= b.y { (a.y, b.y) } else { (b.y, a.y) };
    Rect::new(min_x, min_y, max_x - min_x, max_y - min_y)
}

/// What a held pointer button is doing.
#[derive(Clone, Copy, Debug, PartialEq, Eq, Structural)]
pub enum Interaction {
    /// Moving a node (and the selection with it), last seen at `last_world`.
    NodeDrag { node_id: usize, last_world: Point },
    /// Resizing a node by its corner handle.
    NodeResize { node_id: usize, last_world: Point },
    /// Dragging a new link out of port `from`.
    LinkDrag { from: PortRef, cursor: Point },
    /// Panning the view; `moved` once the pointer moved.
    Pan { last: Point, moved: bool },
    /// Drawing a selection rectangle.
    Marquee { start_world: Point, current_world: Point },
}

pub struct NodeGraph {
    state: WidgetState,
    pub graph: Graph,
    selected_nodes: HashSet<usize>,
    groups: Vec<Group>,
    show_grid: bool,
    /// Live progress of running nodes, by node id.
    pub node_progress: HashMap<usize, NodeProgress>,
    /// Image previews of nodes that produced an image, by node id.
    pub node_image_textures: HashMap<usize, NodeImagePreview>,
    /// Nodes edited, wired or unwired since the host last cleared the set.
    pub dirty_nodes: HashSet<usize>,
    interaction: Option<Interaction>,
    hovered_port: Option<PortRef>,
    hovered_edge: Option<usize>,
    last_cursor_world: Point,
    add_node_menu: Option<AddNodeMenuState>,
    registry_wired: bool,
}

impl NodeGraph {
    pub closed spec fn selection(&self) -> Set<usize> {
        self.selected_nodes@
    }

    pub closed spec fn grid_shown(&self) -> bool {
        self.show_grid
    }

    pub closed spec fn group_list(&self) -> Seq<Group> {
        self.groups@
    }

    pub closed spec fn widget_state(&self) -> WidgetState {
        self.state
    }

    pub closed spec fn interaction_state(&self) -> Option<Interaction> {
        self.interaction
    }

    pub closed spec fn hovered_port_ref(&self) -> Option<PortRef> {
        self.hovered_port
    }

    pub closed spec fn hovered_edge_index(&self) -> Option<usize> {
        self.hovered_edge
    }

    pub closed spec fn cursor_world(&self) -> Point {
        self.last_cursor_world
    }

    /// Whether a node registry is wired, so that the add-node menu can open.
    pub closed spec fn registry_set(&self) -> bool {
        self.registry_wired
    }

    /// The add-node menu, while it is open.
    pub closed spec fn add_menu_view(&self) -> Option<AddMenuView> {
        match self.add_node_menu {
            Some(m) => Some(m.view()),
            None => None,
        }
    }

    /// The pointer interaction, the hovered port and edge, the last cursor
    /// position, the widget state, the groups, the grid, the add-node menu
    /// and whether a registry is wired are as in `other`.
    pub open spec fn ui_same(&self, other: &NodeGraph) -> bool {
        &&& self.add_menu_view() == other.add_menu_view()
        &&& self.registry_set() == other.registry_set()
        &&& self.interaction_state() == other.interaction_state()
        &&& self.hovered_port_ref() == other.hovered_port_ref()
        &&& self.hovered_edge_index() == other.hovered_edge_index()
        &&& self.cursor_world() == other.cursor_world()
        &&& self.widget_state() == other.widget_state()
        &&& self.group_list() == other.group_list()
        &&& self.grid_shown() == other.grid_shown()
    }

    pub closed spec fn nodes(&self) -> Seq<NodeView> {
        node_views(self.graph.nodes@)
    }

    pub closed spec fn edges(&self) -> Seq<Edge> {
        self.graph.edges@
    }

    pub closed spec fn dirty(&self) -> Set<usize> {
        self.dirty_nodes@
    }

    pub closed spec fn progress(&self) -> Map<usize, NodeProgress> {
        self.node_progress@
    }

    pub closed spec fn images(&self) -> Map<usize, NodeImagePreview> {
        self.node_image_textures@
    }

    /// Everything but the graph's nodes and edges is as in `other`.
    pub open spec fn same_but_graph(&self, other: &NodeGraph) -> bool {
        &&& self.selection() == other.selection()
        &&& self.grid_shown() == other.grid_shown()
        &&& self.group_list() == other.group_list()
        &&& self.widget_state() == other.widget_state()
        &&& self.progress() == other.progress()
        &&& self.images() == other.images()
        &&& self.dirty() == other.dirty()
        &&& self.ui_same(other)
    }

    /// A widget showing `graph`, with nothing selected, no groups, the grid
    /// on, and no progress, previews or touched nodes.
    pub fn new(id: WidgetId, graph: Graph) -> (g: NodeGraph)
        ensures
            g.nodes() == node_views(graph.nodes@),
            g.edges() == graph.edges@,
            g.selection() == Set::<usize>::empty(),
            g.grid_shown(),
            g.group_list() == Seq::<Group>::empty(),
            g.widget_state() == WidgetState::new_spec(id),
            g.progress() == Map::<usize, NodeProgress>::empty(),
            g.images() == Map::<usize, NodeImagePreview>::empty(),
            g.dirty() == Set::<usize>::empty(),
            g.interaction_state() is None,
            g.hovered_port_ref() is None,
            g.hovered_edge_index() is None,
            g.cursor_world() == (Point { x: 0, y: 0 }),
            g.add_menu_view() is None,
            !g.registry_set(),
    {
        NodeGraph {
            state: WidgetState::new(id),
            graph,
            selected_nodes: HashSet::new(),
            groups: Vec::new(),
            show_grid: true,
            node_progress: HashMap::new(),
            node_image_textures: HashMap::new(),
            dirty_nodes: HashSet::new(),
            interaction: None,
            hovered_port: None,
            hovered_edge: None,
            last_cursor_world: Point::zero(),
            add_node_menu: None,
            registry_wired: false,
        }
    }

    /// The nodes touched since the last [`NodeGraph::clear_dirty`].
    pub fn dirty_set(&self) -> (r: &HashSet<usize>)
        ensures
            r@ == self.dirty(),
    {
        &self.dirty_nodes
    }

    /// Forgets every touched node.
    pub fn clear_dirty(&mut self)
        ensures
            final(self).add_menu_view() == old(self).add_menu_view(),
            final(self).registry_set() == old(self).registry_set(),
            final(self).dirty() == Set::<usize>::empty(),
            final(self).nodes() == old(self).nodes() && final(self).edges() == old(self).edges(),
            final(self).selection() == old(self).selection(),
    {
        self.dirty_nodes.clear();
    }

    /// Marks `node_id` touched.
    pub fn mark_dirty(&mut self, node_id: usize)
        ensures
            final(self).dirty() == old(self).dirty().insert(node_id),
            final(self).nodes() == old(self).nodes() && final(self).edges() == old(self).edges(),
            final(self).selection() == old(self).selection(),
            final(self).progress() == old(self).progress(),
            final(self).images() == old(self).images(),
            final(self).grid_shown() == old(self).grid_shown(),
            final(self).group_list() == old(self).group_list(),
            final(self).widget_state() == old(self).widget_state(),
            final(self).ui_same(old(self)),
    {
        self.dirty_nodes.insert(node_id);
    }

    pub fn add_group(&mut self, group: Group)
        ensures
            final(self).add_menu_view() == old(self).add_menu_view(),
            final(self).registry_set() == old(self).registry_set(),
            final(self).group_list() == old(self).group_list().push(group),
            final(self).nodes() == old(self).nodes() && final(self).edges() == old(self).edges(),
            final(self).selection() == old(self).selection(),
    {
        self.groups.push(group);
    }

    pub fn groups(&self) -> (r: &Vec<Group>)
        ensures
            r@ == self.group_list(),
    {
        &self.groups
    }

    pub fn set_grid_visible(&mut self, show: bool)
        ensures
            final(self).add_menu_view() == old(self).add_menu_view(),
            final(self).registry_set() == old(self).registry_set(),
            final(self).grid_shown() == show,
            final(self).nodes() == old(self).nodes() && final(self).edges() == old(self).edges(),
            final(self).selection() == old(self).selection(),
    {
        self.show_grid = show;
    }

    pub fn toggle_grid(&mut self)
        ensures
            final(self).add_menu_view() == old(self).add_menu_view(),
            final(self).registry_set() == old(self).registry_set(),
            final(self).grid_shown() == !old(self).grid_shown(),
            final(self).nodes() == old(self).nodes() && final(self).edges() == old(self).edges(),
            final(self).selection() == old(self).selection(),
    {
        self.show_grid = !self.show_grid;
    }

    pub fn is_grid_visible(&self) -> (b: bool)
        ensures
            b == self.grid_shown(),
    {
        self.show_grid
    }

    /// The selected node ids, each once, in no particular order.
    pub fn selected_node_ids(&self) -> (r: Vec<usize>)
        ensures
            r@.to_set() == self.selection(),
            r@.no_duplicates(),
    {
        let mut r: Vec<usize> = Vec::new();
        let ghost keys = vstd::std_specs::hash::spec_hash_keys_iter(&self.selected_nodes).remaining().unref();
        for id in it: self.selected_nodes.iter()
            invariant
                it.seq().unref() == keys,
                keys.to_set() == self.selected_nodes@,
                keys.no_duplicates(),
                r@ == keys.take(it.index()),
        {
            r.push(*id);
            assert(r@ =~= keys.take(it.index() + 1));
        }
        assert(r@ =~= keys);
        r
    }

    pub fn is_selected(&self, node_id: usize) -> (b: bool)
        ensures
            b == self.selection().contains(node_id),
    {
        self.selected_nodes.contains(&node_id)
    }
}

/// The selection after a click on `id`: with `toggle` the node flips in or
/// out of the selection, otherwise it becomes the only selected node.
pub open spec fn clicked_selection(sel: Set<usize>, id: usize, toggle: bool) -> Set<usize> {
    if !toggle {
        Set::empty().insert(id)
    } else if sel.contains(id) {
        sel.remove(id)
    } else {
        sel.insert(id)
    }
}

proof fn lemma_find_from(ns: Seq<NodeView>, id: usize, i: int)
    requires
        0 <= i <= ns.len(),
    ensures
        match find_from(ns, id, i) {
            Some(k) => i <= k < ns.len() && ns[k].id == id && forall|j: int| i <= j < k ==> #[trigger] ns[j].id != id,
            None => forall|j: int| i <= j < ns.len() ==> #[trigger] ns[j].id != id,
        },
    decreases ns.len() - i,
{
    if i < ns.len() && ns[i].id != id {
        lemma_find_from(ns, id, i + 1);
    }
}

proof fn lemma_max_node_id(ns: Seq<NodeView>)
    ensures
        forall|j: int| 0 <= j < ns.len() ==> #[trigger] ns[j].id <= max_node_id(ns),
        ns.len() > 0 ==> exists|j: int| 0 <= j < ns.len() && #[trigger] ns[j].id == max_node_id(ns),
    decreases ns.len(),
{
    if ns.len() > 0 {
        lemma_max_node_id(ns.drop_last());
        assert forall|j: int| 0 <= j < ns.len() implies #[trigger] ns[j].id <= max_node_id(ns) by {
            if j < ns.len() - 1 {
                assert(ns.drop_last()[j] == ns[j]);
            }
        }
        if ns.len() > 1 && max_node_id(ns.drop_last()) >= ns.last().id {
            let j = choose|j: int| 0 <= j < ns.drop_last().len() && #[trigger] ns.drop_last()[j].id == max_node_id(ns.drop_last());
            assert(ns[j].id == max_node_id(ns));
        } else {
            assert(ns[ns.len() - 1].id == max_node_id(ns));
        }
    }
}

proof fn lemma_max_port_id(ps: Seq<PortView>)
    ensures
        forall|j: int| 0 <= j < ps.len() ==> #[trigger] ps[j].id <= max_port_id(ps),
    decreases ps.len(),
{
    if ps.len() > 0 {
        lemma_max_port_id(ps.drop_last());
        assert forall|j: int| 0 <= j < ps.len() implies #[trigger] ps[j].id <= max_port_id(ps) by {
            if j < ps.len() - 1 {
                assert(ps.drop_last()[j] == ps[j]);
            }
        }
    }
}

proof fn lemma_node_views_push(ns: Seq<Node>, n: Node)
    ensures
        node_views(ns.push(n)) == node_views(ns).push(n@),
{
    assert(node_views(ns.push(n)) =~= node_views(ns).push(n@));
}

proof fn lemma_node_views_update(ns: Seq<Node>, i: int, n: Node)
    requires
        0 <= i < ns.len(),
    ensures
        node_views(ns.update(i, n)) == node_views(ns).update(i, n@),
{
    assert(node_views(ns.update(i, n)) =~= node_views(ns).update(i, n@));
}

/// The node a new node gets when made at `pos` with id `id`: titled
/// "Node" and its id, 200 by 140, one input "in" and one output "out".
pub open spec fn fresh_node(id: usize, pos: Point) -> NodeView {
    NodeView {
        id,
        title: "Node "@ + crate::text::decimal(id as nat),
        position: pos,
        size: Size { width: 200, height: 140 },
        inputs: seq![PortView { id: 0, label: "in"@, is_input: true }],
        outputs: seq![PortView { id: 0, label: "out"@, is_input: false }],
        component_type: None,
    }
}

/// `ns` with node `k` titled `title`.
pub open spec fn retitled(ns: Seq<NodeView>, k: int, title: Seq<char>) -> Seq<NodeView> {
    ns.update(k, NodeView { title, ..ns[k] })
}

impl NodeGraph {
    /// Everything but the selection is as in `other`.
    pub open spec fn same_but_selection(&self, other: &NodeGraph) -> bool {
        &&& self.nodes() == other.nodes()
        &&& self.edges() == other.edges()
        &&& self.grid_shown() == other.grid_shown()
        &&& self.group_list() == other.group_list()
        &&& self.widget_state() == other.widget_state()
        &&& self.progress() == other.progress()
        &&& self.images() == other.images()
        &&& self.dirty() == other.dirty()
        &&& self.ui_same(other)
    }

    /// Index of the first node with id `id`.
    fn find_index(&self, id: usize) -> (r: Option<usize>)
        ensures
            match r {
                Some(i) => find_node(self.nodes(), id) == Some(i as int) && i < self.nodes().len(),
                None => find_node(self.nodes(), id) is None,
            },
    {
        let ghost ns = self.nodes();
        let mut i: usize = 0;
        while i < self.graph.nodes.len()
            invariant
                ns == node_views(self.graph.nodes@),
                i <= self.graph.nodes.len(),
                find_node(ns, id) == find_from(ns, id, i as int),
            decreases self.graph.nodes.len() - i,
        {
            assert(ns[i as int].id == self.graph.nodes@[i as int].id);
            if self.graph.nodes[i].id == id {
                return Some(i);
            }
            i = i + 1;
        }
        None
    }

    /// A click on node `node_id`; see [`clicked_selection`].
    pub fn handle_selection(&mut self, node_id: usize, toggle: bool)
        ensures
            final(self).selection() == clicked_selection(old(self).selection(), node_id, toggle),
            final(self).same_but_selection(old(self)),
    {
        if toggle {
            if !self.selected_nodes.insert(node_id) {
                self.selected_nodes.remove(&node_id);
            }
        } else {
            self.selected_nodes.clear();
            self.selected_nodes.insert(node_id);
        }
    }

    /// One more than the largest node id (1 for an empty graph).
    pub fn next_node_id(&self) -> (id: usize)
        requires
            max_node_id(self.nodes()) < usize::MAX,
        ensures
            id == max_node_id(self.nodes()) + 1,
    {
        let ghost ns = self.nodes();
        let mut m: usize = 0;
        let mut i: usize = 0;
        while i < self.graph.nodes.len()
            invariant
                ns == node_views(self.graph.nodes@),
                i <= ns.len(),
                m == max_node_id(ns.take(i as int)),
            decreases ns.len() - i,
        {
            assert(ns.take(i + 1).drop_last() =~= ns.take(i as int));
            let id = self.graph.nodes[i].id;
            if id > m {
                m = id;
            }
            i = i + 1;
        }
        assert(ns.take(ns.len() as int) =~= ns);
        m + 1
    }

    /// Appends `node`; a node with id 0 gets [`NodeGraph::next_node_id`].
    pub fn add_node(&mut self, node: Node)
        requires
            node.id == 0 ==> max_node_id(old(self).nodes()) < usize::MAX,
        ensures
            final(self).nodes() == old(self).nodes().push(
                if node.id == 0 { NodeView { id: (max_node_id(old(self).nodes()) + 1) as usize, ..node@ } } else { node@ },
            ),
            final(self).edges() == old(self).edges(),
            final(self).same_but_graph(old(self)),
    {
        let mut node = node;
        if node.id == 0 {
            node.id = self.next_node_id();
        }
        proof {
            lemma_node_views_push(self.graph.nodes@, node);
        }
        self.graph.nodes.push(node);
    }

    /// Adds a new node at the grid point nearest `position` and selects
    /// only it; returns its id. See [`fresh_node`].
    pub fn add_node_at(&mut self, position: Point) -> (id: usize)
        requires
            max_node_id(old(self).nodes()) < usize::MAX,
            fits_i32(position.x + 6),
            fits_i32(position.y + 6),
        ensures
            id == max_node_id(old(self).nodes()) + 1,
            final(self).nodes() == old(self).nodes().push(
                fresh_node(id, Point { x: snap_spec(position.x as int) as i32, y: snap_spec(position.y as int) as i32 }),
            ),
            final(self).edges() == old(self).edges(),
            final(self).selection() == Set::<usize>::empty().insert(id),
            final(self).dirty() == old(self).dirty(),
            final(self).progress() == old(self).progress(),
            final(self).images() == old(self).images(),
            final(self).ui_same(old(self)),
    {
        let id = self.next_node_id();
        let pos = snap_point(position);
        let mut title = String::from_str("Node ");
        crate::text::push_decimal(&mut title, id as u128);
        let mut inputs: Vec<Port> = Vec::new();
        inputs.push(Port { id: 0, label: String::from_str("in"), is_input: true });
        let mut outputs: Vec<Port> = Vec::new();
        outputs.push(Port { id: 0, label: String::from_str("out"), is_input: false });
        let node = Node {
            id,
            title,
            position: pos,
            size: Size::new(200, 140),
            inputs,
            outputs,
            component_type: None,
        };
        proof {
            reveal_strlit("Node ");
            reveal_strlit("in");
            reveal_strlit("out");
            assert(port_views(node.inputs@) =~= seq![PortView { id: 0, label: "in"@, is_input: true }]);
            assert(port_views(node.outputs@) =~= seq![PortView { id: 0, label: "out"@, is_input: false }]);
            lemma_node_views_push(self.graph.nodes@, node);
        }
        self.graph.nodes.push(node);
        self.selected_nodes.clear();
        self.selected_nodes.insert(id);
        id
    }

    /// Renames the first node with id `node_id`; says whether there is one.
    pub fn set_node_title(&mut self, node_id: usize, title: &str) -> (found: bool)
        ensures
            found == find_node(old(self).nodes(), node_id) is Some,
            match find_node(old(self).nodes(), node_id) {
                Some(k) => final(self).nodes() == retitled(old(self).nodes(), k, title@),
                None => final(self).nodes() == old(self).nodes(),
            },
            final(self).edges() == old(self).edges(),
            final(self).same_but_graph(old(self)),
    {
        proof {
            lemma_find_from(self.nodes(), node_id, 0);
        }
        match self.find_index(node_id) {
            Some(i) => {
                let mut n = self.graph.nodes.remove(i);
                assert(n@ == old(self).nodes()[i as int]);
                n.title = String::from_str(title);
                assert(n@ == NodeView { title: title@, ..old(self).nodes()[i as int] });
                self.graph.nodes.insert(i, n);
                proof {
                    assert(self.graph.nodes@ =~= old(self).graph.nodes@.update(i as int, n));
                    lemma_node_views_update(old(self).graph.nodes@, i as int, n);
                }
                assert(self.nodes() == retitled(old(self).nodes(), i as int, title@));
                true
            },
            None => false,
        }
    }

    /// Adds an input (or an output) port labelled `label` to the first node
    /// with id `node_id`, numbered one past the side's largest port id;
    /// says whether there is such a node.
    fn add_port(&mut self, node_id: usize, label: &str, is_input: bool) -> (found: bool)
        requires
            find_node(old(self).nodes(), node_id) matches Some(k) ==> max_port_id(
                if is_input { old(self).nodes()[k].inputs } else { old(self).nodes()[k].outputs },
            ) < usize::MAX,
        ensures
            found == find_node(old(self).nodes(), node_id) is Some,
            match find_node(old(self).nodes(), node_id) {
                Some(k) => {
                    let n = old(self).nodes()[k];
                    final(self).nodes() == old(self).nodes().update(
                        k,
                        if is_input {
                            NodeView {
                                inputs: n.inputs.push(PortView { id: (max_port_id(n.inputs) + 1) as usize, label: label@, is_input: true }),
                                ..n
                            }
                        } else {
                            NodeView {
                                outputs: n.outputs.push(PortView { id: (max_port_id(n.outputs) + 1) as usize, label: label@, is_input: false }),
                                ..n
                            }
                        },
                    )
                },
                None => final(self).nodes() == old(self).nodes(),
            },
            final(self).edges() == old(self).edges(),
            final(self).same_but_graph(old(self)),
    {
        proof {
            lemma_find_from(self.nodes(), node_id, 0);
        }
        match self.find_index(node_id) {
            Some(i) => {
                let mut n = self.graph.nodes.remove(i);
                let ghost before = n@;
                assert(before == old(self).nodes()[i as int]);
                let ghost ps = if is_input { port_views(n.inputs@) } else { port_views(n.outputs@) };
                let side = if is_input { &n.inputs } else { &n.outputs };
                let mut m: usize = 0;
                let mut j: usize = 0;
                while j < side.len()
                    invariant
                        ps == port_views(side@),
                        j <= ps.len(),
                        m == max_port_id(ps.take(j as int)),
                    decreases ps.len() - j,
                {
                    assert(ps.take(j + 1).drop_last() =~= ps.take(j as int));
                    assert(ps[j as int].id == side@[j as int].id);
                    if side[j].id > m {
                        m = side[j].id;
                    }
                    j = j + 1;
                }
                assert(ps.take(ps.len() as int) =~= ps);
                let port = Port { id: m + 1, label: String::from_str(label), is_input };
                if is_input {
                    n.inputs.push(port);
                    assert(port_views(n.inputs@) =~= before.inputs.push(port@));
                } else {
                    n.outputs.push(port);
                    assert(port_views(n.outputs@) =~= before.outputs.push(port@));
                }
                self.graph.nodes.insert(i, n);
                proof {
                    assert(self.graph.nodes@ =~= old(self).graph.nodes@.update(i as int, n));
                    lemma_node_views_update(old(self).graph.nodes@, i as int, n);
                }
                true
            },
            None => false,
        }
    }

    /// Adds an input port; see `add_port`.
    pub fn add_input_port(&mut self, node_id: usize, label: &str) -> (found: bool)
        requires
            find_node(old(self).nodes(), node_id) matches Some(k) ==> max_port_id(old(self).nodes()[k].inputs) < usize::MAX,
        ensures
            found == find_node(old(self).nodes(), node_id) is Some,
            match find_node(old(self).nodes(), node_id) {
                Some(k) => {
                    let n = old(self).nodes()[k];
                    final(self).nodes() == old(self).nodes().update(
                        k,
                        NodeView {
                            inputs: n.inputs.push(PortView { id: (max_port_id(n.inputs) + 1) as usize, label: label@, is_input: true }),
                            ..n
                        },
                    )
                },
                None => final(self).nodes() == old(self).nodes(),
            },
            final(self).edges() == old(self).edges(),
            final(self).same_but_graph(old(self)),
    {
        self.add_port(node_id, label, true)
    }

    /// Adds an output port; see `add_port`.
    pub fn add_output_port(&mut self, node_id: usize, label: &str) -> (found: bool)
        requires
            find_node(old(self).nodes(), node_id) matches Some(k) ==> max_port_id(old(self).nodes()[k].outputs) < usize::MAX,
        ensures
            found == find_node(old(self).nodes(), node_id) is Some,
            match find_node(old(self).nodes(), node_id) {
                Some(k) => {
                    let n = old(self).nodes()[k];
                    final(self).nodes() == old(self).nodes().update(
                        k,
                        NodeView {
                            outputs: n.outputs.push(PortView { id: (max_port_id(n.outputs) + 1) as usize, label: label@, is_input: false }),
                            ..n
                        },
                    )
                },
                None => final(self).nodes() == old(self).nodes(),
            },
            final(self).edges() == old(self).edges(),
            final(self).same_but_graph(old(self)),
    {
        self.add_port(node_id, label, false)
    }
}

/// A new node's id is not the id of any node already in the graph.
pub proof fn law_next_node_id_is_fresh(g: &NodeGraph)
    requires
        max_node_id(g.nodes()) < usize::MAX,
    ensures
        forall|j: int| 0 <= j < g.nodes().len() ==> #[trigger] g.nodes()[j].id != max_node_id(g.nodes()) + 1,
{
    lemma_max_node_id(g.nodes());
}

/// Clicking a node twice with the toggle held leaves the selection as it was.
pub proof fn law_toggle_twice_restores(sel: Set<usize>, id: usize)
    ensures
        clicked_selection(clicked_selection(sel, id, true), id, true) == sel,
{
    if sel.contains(id) {
        assert(sel.remove(id).insert(id) =~= sel);
    } else {
        assert(sel.insert(id).remove(id) =~= sel);
    }
}

/// Whether an edge ends at port `p`: leaves it for an output, enters it
/// for an input.
pub open spec fn at_port(p: PortRef) -> spec_fn(Edge) -> bool {
    |e: Edge|
        (!p.is_input && e.from_node == p.node_id && e.from_port == p.port_id) || (p.is_input && e.to_node == p.node_id
            && e.to_port == p.port_id)
}

/// Whether an edge touches a node whose id is in `ids`.
pub open spec fn at_nodes(ids: Set<usize>) -> spec_fn(Edge) -> bool {
    |e: Edge| ids.contains(e.from_node) || ids.contains(e.to_node)
}

/// The edges of `es` that `drop` does not pick, in order.
pub open spec fn kept_edges(es: Seq<Edge>, drop: spec_fn(Edge) -> bool) -> Seq<Edge>
    decreases es.len(),
{
    if es.len() == 0 {
        Seq::empty()
    } else {
        let r = kept_edges(es.drop_last(), drop);
        if drop(es.last()) { r } else { r.push(es.last()) }
    }
}

/// The nodes at either end of the edges of `es` that `drop` picks.
pub open spec fn dropped_ends(es: Seq<Edge>, drop: spec_fn(Edge) -> bool) -> Set<usize>
    decreases es.len(),
{
    if es.len() == 0 {
        Set::empty()
    } else {
        let r = dropped_ends(es.drop_last(), drop);
        if drop(es.last()) { r.insert(es.last().from_node).insert(es.last().to_node) } else { r }
    }
}

/// The nodes of `ns` whose id is not in `ids`, in order.
pub open spec fn nodes_without(ns: Seq<NodeView>, ids: Set<usize>) -> Seq<NodeView>
    decreases ns.len(),
{
    if ns.len() == 0 {
        Seq::empty()
    } else {
        let r = nodes_without(ns.drop_last(), ids);
        if ids.contains(ns.last().id) { r } else { r.push(ns.last()) }
    }
}

/// Every edge of `es` runs between nodes of `ns`.
pub open spec fn edges_between(ns: Seq<NodeView>, es: Seq<Edge>) -> bool {
    forall|i: int| #![trigger es[i]] 0 <= i < es.len() ==> {
        &&& exists|a: int| 0 <= a < ns.len() && #[trigger] ns[a].id == es[i].from_node
        &&& exists|b: int| 0 <= b < ns.len() && #[trigger] ns[b].id == es[i].to_node
    }
}

/// The edge a drag from port `from` dropped on port `target` adds: from the
/// output to the input of two different nodes; `None` when the ports are
/// the same side, the same node, or already joined.
pub open spec fn new_link(es: Seq<Edge>, from: PortRef, target: PortRef) -> Option<Edge> {
    if target == from || target.is_input == from.is_input {
        None
    } else {
        let (out, inp) = if from.is_input { (target, from) } else { (from, target) };
        let e = Edge { from_node: out.node_id, from_port: out.port_id, to_node: inp.node_id, to_port: inp.port_id };
        if out.node_id == inp.node_id || es.contains(e) {
            None
        } else {
            Some(e)
        }
    }
}

proof fn lemma_kept_edges_step(es: Seq<Edge>, drop: spec_fn(Edge) -> bool, k: int)
    requires
        0 <= k < es.len(),
    ensures
        kept_edges(es.take(k + 1), drop) == if drop(es[k]) {
            kept_edges(es.take(k), drop)
        } else {
            kept_edges(es.take(k), drop).push(es[k])
        },
        dropped_ends(es.take(k + 1), drop) == if drop(es[k]) {
            dropped_ends(es.take(k), drop).insert(es[k].from_node).insert(es[k].to_node)
        } else {
            dropped_ends(es.take(k), drop)
        },
{
    assert(es.take(k + 1).drop_last() =~= es.take(k));
}

proof fn lemma_nodes_without_step(ns: Seq<NodeView>, ids: Set<usize>, k: int)
    requires
        0 <= k < ns.len(),
    ensures
        nodes_without(ns.take(k + 1), ids) == if ids.contains(ns[k].id) {
            nodes_without(ns.take(k), ids)
        } else {
            nodes_without(ns.take(k), ids).push(ns[k])
        },
{
    assert(ns.take(k + 1).drop_last() =~= ns.take(k));
}

proof fn lemma_kept_edges_subset(es: Seq<Edge>, drop: spec_fn(Edge) -> bool)
    ensures
        forall|i: int| 0 <= i < kept_edges(es, drop).len() ==> !drop(#[trigger] kept_edges(es, drop)[i]) && es.contains(
            kept_edges(es, drop)[i],
        ),
        kept_edges(es, drop).len() <= es.len(),
    decreases es.len(),
{
    if es.len() > 0 {
        lemma_kept_edges_subset(es.drop_last(), drop);
        let r = kept_edges(es.drop_last(), drop);
        assert forall|i: int| 0 <= i < kept_edges(es, drop).len() implies !drop(#[trigger] kept_edges(es, drop)[i])
            && es.contains(kept_edges(es, drop)[i]) by {
            if i < r.len() {
                let j = choose|j: int| 0 <= j < es.drop_last().len() && es.drop_last()[j] == r[i];
                assert(es[j] == r[i]);
            } else {
                assert(es[es.len() - 1] == es.last());
            }
        }
    }
}

proof fn lemma_nodes_without_subset(ns: Seq<NodeView>, ids: Set<usize>)
    ensures
        forall|i: int| #![trigger nodes_without(ns, ids)[i]] 0 <= i < nodes_without(ns, ids).len() ==> !ids.contains(nodes_without(ns, ids)[i].id)
            && ns.contains(nodes_without(ns, ids)[i]),
        forall|i: int| 0 <= i < ns.len() && !ids.contains(#[trigger] ns[i].id) ==> nodes_without(ns, ids).contains(ns[i]),
    decreases ns.len(),
{
    if ns.len() > 0 {
        lemma_nodes_without_subset(ns.drop_last(), ids);
        let r = nodes_without(ns.drop_last(), ids);
        assert forall|i: int| #![trigger nodes_without(ns, ids)[i]] 0 <= i < nodes_without(ns, ids).len() implies !ids.contains(nodes_without(ns, ids)[i].id)
            && ns.contains(nodes_without(ns, ids)[i]) by {
            if i < r.len() {
                let j = choose|j: int| 0 <= j < ns.drop_last().len() && ns.drop_last()[j] == r[i];
                assert(ns[j] == r[i]);
            } else {
                assert(ns[ns.len() - 1] == ns.last());
            }
        }
        assert forall|i: int| 0 <= i < ns.len() && !ids.contains(#[trigger] ns[i].id) implies nodes_without(ns, ids).contains(ns[i]) by {
            if i < ns.len() - 1 {
                assert(ns.drop_last()[i] == ns[i]);
                let j = choose|j: int| 0 <= j < r.len() && r[j] == ns[i];
                assert(nodes_without(ns, ids)[j] == ns[i]);
            } else {
                assert(nodes_without(ns, ids)[r.len() as int] == ns[i]);
            }
        }
    }
}

impl NodeGraph {
    fn mark_both(&mut self, a: usize, b: usize)
        ensures
            final(self).dirty() == old(self).dirty().insert(a).insert(b),
            final(self).same_but_dirty(old(self)),
            final(self).ui_same(old(self)),
    {
        self.dirty_nodes.insert(a);
        self.dirty_nodes.insert(b);
    }

    /// Everything but the touched nodes is as in `other`.
    pub open spec fn same_but_dirty(&self, other: &NodeGraph) -> bool {
        &&& self.nodes() == other.nodes()
        &&& self.edges() == other.edges()
        &&& self.selection() == other.selection()
        &&& self.grid_shown() == other.grid_shown()
        &&& self.group_list() == other.group_list()
        &&& self.widget_state() == other.widget_state()
        &&& self.progress() == other.progress()
        &&& self.images() == other.images()
        &&& self.ui_same(other)
    }

    /// Removes the edges at port `port`; the nodes at their ends are
    /// touched. Says whether any edge went.
    pub fn remove_edges_for_port(&mut self, port: PortRef) -> (removed: bool)
        ensures
            final(self).edges() == kept_edges(old(self).edges(), at_port(port)),
            final(self).dirty() == old(self).dirty().union(dropped_ends(old(self).edges(), at_port(port))),
            removed == (final(self).edges().len() != old(self).edges().len()),
            final(self).nodes() == old(self).nodes(),
            final(self).selection() == old(self).selection(),
            final(self).progress() == old(self).progress(),
            final(self).images() == old(self).images(),
            final(self).ui_same(old(self)),
    {
        let ghost es = self.edges();
        let ghost d0 = self.dirty();
        let mut kept: Vec<Edge> = Vec::new();
        let mut i: usize = 0;
        while i < self.graph.edges.len()
            invariant
                es == self.edges(),
                i <= es.len(),
                kept@ == kept_edges(es.take(i as int), at_port(port)),
                self.ui_same(old(self)),
                self.dirty() == d0.union(dropped_ends(es.take(i as int), at_port(port))),
                self.nodes() == old(self).nodes(),
                self.selection() == old(self).selection(),
                self.progress() == old(self).progress(),
                self.images() == old(self).images(),
            decreases es.len() - i,
        {
            let e = self.graph.edges[i];
            proof {
                lemma_kept_edges_step(es, at_port(port), i as int);
            }
            let hit = (!port.is_input && e.from_node == port.node_id && e.from_port == port.port_id) || (port.is_input
                && e.to_node == port.node_id && e.to_port == port.port_id);
            assert(hit == at_port(port)(es[i as int]));
            if hit {
                self.mark_both(e.from_node, e.to_node);
                assert(self.dirty() =~= d0.union(dropped_ends(es.take(i + 1), at_port(port))));
            } else {
                kept.push(e);
            }
            i = i + 1;
        }
        assert(es.take(es.len() as int) =~= es);
        let before = self.graph.edges.len();
        proof {
            lemma_kept_edges_subset(es, at_port(port));
        }
        self.graph.edges = kept;
        before != self.graph.edges.len()
    }

    /// Removes the edges touching a selected node; their ends are touched.
    /// Says whether any edge went (nothing happens without a selection).
    pub fn disconnect_selected(&mut self) -> (removed: bool)
        ensures
            final(self).edges() == kept_edges(old(self).edges(), at_nodes(old(self).selection())),
            final(self).dirty() == old(self).dirty().union(dropped_ends(old(self).edges(), at_nodes(old(self).selection()))),
            removed == (final(self).edges().len() != old(self).edges().len()),
            final(self).nodes() == old(self).nodes(),
            final(self).selection() == old(self).selection(),
            final(self).progress() == old(self).progress(),
            final(self).images() == old(self).images(),
            final(self).ui_same(old(self)),
    {
        let ghost es = self.edges();
        let ghost d0 = self.dirty();
        let ghost sel = self.selection();
        let mut kept: Vec<Edge> = Vec::new();
        let mut i: usize = 0;
        while i < self.graph.edges.len()
            invariant
                es == self.edges(),
                sel == self.selection(),
                i <= es.len(),
                kept@ == kept_edges(es.take(i as int), at_nodes(sel)),
                self.dirty() == d0.union(dropped_ends(es.take(i as int), at_nodes(sel))),
                self.ui_same(old(self)),
                self.nodes() == old(self).nodes(),
                self.progress() == old(self).progress(),
                self.images() == old(self).images(),
            decreases es.len() - i,
        {
            let e = self.graph.edges[i];
            proof {
                lemma_kept_edges_step(es, at_nodes(sel), i as int);
            }
            let hit = self.selected_nodes.contains(&e.from_node) || self.selected_nodes.contains(&e.to_node);
            assert(hit == at_nodes(sel)(es[i as int]));
            if hit {
                self.mark_both(e.from_node, e.to_node);
                assert(self.dirty() =~= d0.union(dropped_ends(es.take(i + 1), at_nodes(sel))));
            } else {
                kept.push(e);
            }
            i = i + 1;
        }
        assert(es.take(es.len() as int) =~= es);
        let before = self.graph.edges.len();
        proof {
            lemma_kept_edges_subset(es, at_nodes(sel));
        }
        self.graph.edges = kept;
        before != self.graph.edges.len()
    }

    /// Deletes the selected nodes and every edge touching them, and clears
    /// the selection; says whether a node or an edge went. Nothing happens
    /// without a selection.
    pub fn delete_selected(&mut self) -> (changed: bool)
        ensures
            old(self).selection().is_empty() ==> !changed && final(self).nodes() == old(self).nodes()
                && final(self).edges() == old(self).edges() && final(self).selection() == old(self).selection(),
            !old(self).selection().is_empty() ==> {
                &&& final(self).nodes() == nodes_without(old(self).nodes(), old(self).selection())
                &&& final(self).edges() == kept_edges(old(self).edges(), at_nodes(old(self).selection()))
                &&& final(self).selection() == Set::<usize>::empty()
                &&& changed == (final(self).nodes().len() != old(self).nodes().len() || final(self).edges().len()
                    != old(self).edges().len())
            },
            final(self).dirty() == old(self).dirty(),
            final(self).progress() == old(self).progress(),
            final(self).images() == old(self).images(),
            final(self).ui_same(old(self)),
    {
        if self.selected_nodes.is_empty() {
            return false;
        }
        let ghost ns = self.nodes();
        let ghost sel = self.selection();
        let before_nodes = self.graph.nodes.len();
        let mut rest: Vec<Node> = Vec::new();
        std::mem::swap(&mut rest, &mut self.graph.nodes);
        let ghost all = rest@;
        let mut kept: Vec<Node> = Vec::new();
        let mut k: usize = 0;
        while rest.len() > 0
            invariant
                node_views(all) == ns,
                sel == self.selection(),
                k <= all.len(),
                all.len() == before_nodes,
                rest@ == all.skip(k as int),
                node_views(kept@) == nodes_without(ns.take(k as int), sel),
                self.dirty() == old(self).dirty(),
                self.progress() == old(self).progress(),
                self.images() == old(self).images(),
                self.edges() == old(self).edges(),
            decreases rest.len(),
        {
            assert(k < all.len()) by {
                assert(all.skip(k as int).len() == all.len() - k);
            }
            let n = rest.remove(0);
            assert(n == all[k as int]);
            assert(n@ == ns[k as int]);
            proof {
                lemma_nodes_without_step(ns, sel, k as int);
            }
            if !self.selected_nodes.contains(&n.id) {
                proof {
                    lemma_node_views_push(kept@, n);
                }
                kept.push(n);
            }
            assert(all.skip(k as int).drop_first() =~= all.skip(k + 1));
            k = k + 1;
        }
        assert(ns.take(ns.len() as int) =~= ns);
        self.graph.nodes = kept;
        let ghost es = self.edges();
        let before_edges = self.graph.edges.len();
        let mut kept_e: Vec<Edge> = Vec::new();
        let mut i: usize = 0;
        while i < self.graph.edges.len()
            invariant
                es == self.edges(),
                sel == self.selection(),
                i <= es.len(),
                kept_e@ == kept_edges(es.take(i as int), at_nodes(sel)),
            decreases es.len() - i,
        {
            let e = self.graph.edges[i];
            proof {
                lemma_kept_edges_step(es, at_nodes(sel), i as int);
            }
            if !(self.selected_nodes.contains(&e.from_node) || self.selected_nodes.contains(&e.to_node)) {
                kept_e.push(e);
            }
            i = i + 1;
        }
        assert(es.take(es.len() as int) =~= es);
        self.graph.edges = kept_e;
        self.selected_nodes.clear();
        before_nodes != self.graph.nodes.len() || before_edges != self.graph.edges.len()
    }

    /// Joins the ports of a drag that ended on `target` (see [`new_link`]);
    /// both nodes are touched. Says whether an edge was added.
    pub fn connect_ports(&mut self, from: PortRef, target: PortRef) -> (added: bool)
        ensures
            match new_link(old(self).edges(), from, target) {
                Some(e) => added && final(self).edges() == old(self).edges().push(e)
                    && final(self).dirty() == old(self).dirty().insert(e.from_node).insert(e.to_node),
                None => !added && final(self).edges() == old(self).edges() && final(self).dirty() == old(self).dirty(),
            },
            final(self).nodes() == old(self).nodes(),
            final(self).selection() == old(self).selection(),
            final(self).progress() == old(self).progress(),
            final(self).images() == old(self).images(),
            final(self).ui_same(old(self)),
    {
        if target == from || target.is_input == from.is_input {
            return false;
        }
        let (out, inp) = if from.is_input { (target, from) } else { (from, target) };
        if out.node_id == inp.node_id {
            return false;
        }
        let e = Edge { from_node: out.node_id, from_port: out.port_id, to_node: inp.node_id, to_port: inp.port_id };
        let ghost es = self.edges();
        let mut found = false;
        let mut i: usize = 0;
        while i < self.graph.edges.len()
            invariant
                es == self.edges(),
                i <= es.len(),
                found == exists|j: int| 0 <= j < i && es[j] == e,
            decreases es.len() - i,
        {
            if self.graph.edges[i] == e {
                found = true;
            }
            i = i + 1;
        }
        if found {
            return false;
        }
        assert(!es.contains(e));
        self.graph.edges.push(e);
        self.mark_both(e.from_node, e.to_node);
        true
    }

    /// Removes edge `index`, if there is one; says whether it did.
    pub fn remove_edge_at(&mut self, index: usize) -> (removed: bool)
        ensures
            removed == (index < old(self).edges().len()),
            removed ==> final(self).edges() == old(self).edges().remove(index as int),
            !removed ==> final(self).edges() == old(self).edges(),
            final(self).same_but_graph(old(self)),
            final(self).nodes() == old(self).nodes(),
    {
        if index < self.graph.edges.len() {
            self.graph.edges.remove(index);
            true
        } else {
            false
        }
    }
}

/// Deleting the selected nodes leaves no edge hanging: if every edge ran
/// between nodes of the graph before, it still does after.
pub proof fn law_delete_keeps_edges_between_nodes(ns: Seq<NodeView>, es: Seq<Edge>, sel: Set<usize>)
    requires
        edges_between(ns, es),
    ensures
        edges_between(nodes_without(ns, sel), kept_edges(es, at_nodes(sel))),
{
    lemma_kept_edges_subset(es, at_nodes(sel));
    lemma_nodes_without_subset(ns, sel);
    let ks = kept_edges(es, at_nodes(sel));
    let kn = nodes_without(ns, sel);
    assert forall|i: int| #![trigger ks[i]] 0 <= i < ks.len() implies {
        &&& exists|a: int| 0 <= a < kn.len() && #[trigger] kn[a].id == ks[i].from_node
        &&& exists|b: int| 0 <= b < kn.len() && #[trigger] kn[b].id == ks[i].to_node
    } by {
        let e = ks[i];
        assert(!at_nodes(sel)(e));
        let j = choose|j: int| 0 <= j < es.len() && es[j] == e;
        let a = choose|a: int| 0 <= a < ns.len() && #[trigger] ns[a].id == es[j].from_node;
        let b = choose|b: int| 0 <= b < ns.len() && #[trigger] ns[b].id == es[j].to_node;
        assert(kn.contains(ns[a]));
        assert(kn.contains(ns[b]));
        let a2 = choose|a2: int| 0 <= a2 < kn.len() && kn[a2] == ns[a];
        let b2 = choose|b2: int| 0 <= b2 < kn.len() && kn[b2] == ns[b];
        assert(kn[a2].id == e.from_node);
        assert(kn[b2].id == e.to_node);
    }
}

/// Connecting ports never duplicates an edge.
pub proof fn law_connect_keeps_edges_distinct(es: Seq<Edge>, from: PortRef, target: PortRef)
    requires
        es.no_duplicates(),
    ensures
        match new_link(es, from, target) {
            Some(e) => es.push(e).no_duplicates(),
            None => true,
        },
{
    if let Some(e) = new_link(es, from, target) {
        assert forall|i: int, j: int| 0 <= i < j < es.push(e).len() implies es.push(e)[i] != es.push(e)[j] by {
            if j == es.len() {
                assert(es.push(e)[i] == es[i]);
            }
        }
    }
}

/// The ids of the nodes of `ns` that are in `sel`.
pub open spec fn present_ids(ns: Seq<NodeView>, sel: Set<usize>) -> Set<usize>
    decreases ns.len(),
{
    if ns.len() == 0 {
        Set::empty()
    } else {
        let r = present_ids(ns.drop_last(), sel);
        if sel.contains(ns.last().id) { r.insert(ns.last().id) } else { r }
    }
}

/// Copies of the nodes of `ns` that are in `sel`, in order, each with id
/// `nid` and moved 30 pixels right and down.
pub open spec fn copies(ns: Seq<NodeView>, sel: Set<usize>, nid: usize) -> Seq<NodeView>
    decreases ns.len(),
{
    if ns.len() == 0 {
        Seq::empty()
    } else {
        let r = copies(ns.drop_last(), sel, nid);
        let n = ns.last();
        if sel.contains(n.id) {
            r.push(NodeView { id: nid, position: Point { x: (n.position.x + 30) as i32, y: (n.position.y + 30) as i32 }, ..n })
        } else {
            r
        }
    }
}

/// The (original id, copy id) pairs of [`copies`].
pub open spec fn copy_pairs(ns: Seq<NodeView>, sel: Set<usize>, nid: usize) -> Seq<(usize, usize)>
    decreases ns.len(),
{
    if ns.len() == 0 {
        Seq::empty()
    } else {
        let r = copy_pairs(ns.drop_last(), sel, nid);
        if sel.contains(ns.last().id) { r.push((ns.last().id, nid)) } else { r }
    }
}

/// Copies, between copy ids `nid`, of the edges of `es` joining two nodes
/// whose ids are in `ids`.
pub open spec fn copied_edges(es: Seq<Edge>, ids: Set<usize>, nid: usize) -> Seq<Edge>
    decreases es.len(),
{
    if es.len() == 0 {
        Seq::empty()
    } else {
        let r = copied_edges(es.drop_last(), ids, nid);
        let e = es.last();
        if ids.contains(e.from_node) && ids.contains(e.to_node) {
            r.push(Edge { from_node: nid, from_port: e.from_port, to_node: nid, to_port: e.to_port })
        } else {
            r
        }
    }
}

/// Duplicating is defined for the selection: the copy id exists and every
/// copy's position is an `i32`.
pub open spec fn duplicate_ok(ns: Seq<NodeView>, sel: Set<usize>) -> bool {
    forall|j: int|
        0 <= j < ns.len() && sel.contains(#[trigger] ns[j].id) ==> {
            &&& max_node_id(ns) < usize::MAX
            &&& fits_i32(ns[j].position.x + 30)
            &&& fits_i32(ns[j].position.y + 30)
        }
}

/// The rectangle node `n` covers.
pub open spec fn node_rect(n: NodeView) -> Rect {
    Rect { x: n.position.x, y: n.position.y, width: n.size.width, height: n.size.height }
}

/// The ids of the nodes of `ns` whose rectangles overlap `r`, in order.
pub open spec fn hits(ns: Seq<NodeView>, r: Rect) -> Seq<usize>
    decreases ns.len(),
{
    if ns.len() == 0 {
        Seq::empty()
    } else {
        let h = hits(ns.drop_last(), r);
        if r.overlaps_spec(node_rect(ns.last())) { h.push(ns.last().id) } else { h }
    }
}

/// `sel` with each id of `ids` flipped in turn.
pub open spec fn toggle_all(sel: Set<usize>, ids: Seq<usize>) -> Set<usize>
    decreases ids.len(),
{
    if ids.len() == 0 {
        sel
    } else {
        clicked_selection(toggle_all(sel, ids.drop_last()), ids.last(), true)
    }
}

/// Whether node `j` of `ns` is snapped after a drag of node `id`: the nodes
/// dragged are the selection when `id` is selected, else `id` alone, and
/// for each id only the first node with it moves.
pub open spec fn snap_target(ns: Seq<NodeView>, sel: Set<usize>, id: usize, j: int) -> bool {
    &&& (if sel.contains(id) { sel.contains(ns[j].id) } else { ns[j].id == id })
    &&& find_node(ns, ns[j].id) == Some(j)
}

/// Snapping the targets of a drag of node `id` keeps their coordinates
/// `i32`s.
pub open spec fn snap_ok(ns: Seq<NodeView>, sel: Set<usize>, id: usize) -> bool {
    forall|j: int|
        0 <= j < ns.len() && #[trigger] snap_target(ns, sel, id, j) ==> fits_i32(ns[j].position.x + 6) && fits_i32(
            ns[j].position.y + 6,
        )
}

/// The nodes after snapping the targets of a drag of node `id`.
pub open spec fn snapped_nodes(ns: Seq<NodeView>, sel: Set<usize>, id: usize) -> Seq<NodeView> {
    Seq::new(
        ns.len(),
        |j: int|
            if snap_target(ns, sel, id, j) {
                NodeView {
                    position: Point {
                        x: snap_spec(ns[j].position.x as int) as i32,
                        y: snap_spec(ns[j].position.y as int) as i32,
                    },
                    ..ns[j]
                }
            } else {
                ns[j]
            },
    )
}

proof fn lemma_node_views_append(a: Seq<Node>, b: Seq<Node>)
    ensures
        node_views(a + b) == node_views(a) + node_views(b),
{
    assert(node_views(a + b) =~= node_views(a) + node_views(b));
}

proof fn lemma_first_occurrence(ns: Seq<NodeView>, j: int)
    requires
        0 <= j < ns.len(),
    ensures
        (find_node(ns, ns[j].id) == Some(j)) == (forall|k: int| 0 <= k < j ==> #[trigger] ns[k].id != ns[j].id),
{
    lemma_find_from(ns, ns[j].id, 0);
}

impl NodeGraph {
    /// Copies the selected nodes, and the edges between them, 30 pixels
    /// right and down, and selects the copies. All copies take the id one
    /// past the largest, as [`NodeGraph::next_node_id`] gives it before any
    /// copy is added. Returns each copied node's id with its copy's.
    pub fn duplicate_selected(&mut self) -> (pairs: Vec<(usize, usize)>)
        requires
            duplicate_ok(old(self).nodes(), old(self).selection()),
        ensures
            ({
                let ns = old(self).nodes();
                let sel = old(self).selection();
                let nid = (max_node_id(ns) + 1) as usize;
                if sel.is_empty() {
                    pairs@.len() == 0 && final(self).nodes() == ns && final(self).edges() == old(self).edges()
                        && final(self).selection() == sel
                } else {
                    &&& pairs@ == copy_pairs(ns, sel, nid)
                    &&& final(self).nodes() == ns + copies(ns, sel, nid)
                    &&& final(self).edges() == old(self).edges() + copied_edges(old(self).edges(), present_ids(ns, sel), nid)
                    &&& final(self).selection() == if present_ids(ns, sel).is_empty() {
                        Set::<usize>::empty()
                    } else {
                        Set::<usize>::empty().insert(nid)
                    }
                }
            }),
            final(self).dirty() == old(self).dirty(),
            final(self).progress() == old(self).progress(),
            final(self).images() == old(self).images(),
            final(self).ui_same(old(self)),
    {
        let mut pairs: Vec<(usize, usize)> = Vec::new();
        if self.selected_nodes.is_empty() {
            return pairs;
        }
        let ghost ns = self.nodes();
        let ghost sel = self.selection();
        let ghost nid = (max_node_id(ns) + 1) as usize;
        let mut new_nodes: Vec<Node> = Vec::new();
        let mut mapped: HashSet<usize> = HashSet::new();
        let mut next: Option<usize> = None;
        let mut i: usize = 0;
        while i < self.graph.nodes.len()
            invariant
                ns == self.nodes(),
                sel == self.selection(),
                duplicate_ok(ns, sel),
                nid == (max_node_id(ns) + 1) as usize,
                i <= ns.len(),
                next matches Some(v) ==> v == nid,
                node_views(new_nodes@) == copies(ns.take(i as int), sel, nid),
                pairs@ == copy_pairs(ns.take(i as int), sel, nid),
                mapped@ == present_ids(ns.take(i as int), sel),
                next is None ==> mapped@ == Set::<usize>::empty(),
                next is Some ==> !mapped@.is_empty(),
                self.edges() == old(self).edges(),
                self.dirty() == old(self).dirty(),
                self.progress() == old(self).progress(),
                self.images() == old(self).images(),
            decreases ns.len() - i,
        {
            assert(ns.take(i + 1).drop_last() =~= ns.take(i as int));
            let n = &self.graph.nodes[i];
            assert(n@ == ns[i as int]);
            if self.selected_nodes.contains(&n.id) {
                assert(sel.contains(ns[i as int].id));
                let id = match next {
                    Some(v) => v,
                    None => {
                        let v = self.next_node_id();
                        next = Some(v);
                        v
                    },
                };
                let copy = n.copy_as(id, Point::new(n.position.x + 30, n.position.y + 30));
                proof {
                    lemma_node_views_push(new_nodes@, copy);
                }
                new_nodes.push(copy);
                pairs.push((n.id, id));
                mapped.insert(n.id);
                assert(mapped@.contains(n.id));
            }
            i = i + 1;
        }
        assert(ns.take(ns.len() as int) =~= ns);
        let ghost es = self.edges();
        let ghost ids = mapped@;
        let mut new_edges: Vec<Edge> = Vec::new();
        let mut k: usize = 0;
        while k < self.graph.edges.len()
            invariant
                es == self.edges(),
                ids == mapped@,
                next is None ==> ids == Set::<usize>::empty(),
                next matches Some(v) ==> v == nid,
                k <= es.len(),
                new_edges@ == copied_edges(es.take(k as int), ids, nid),
            decreases es.len() - k,
        {
            assert(es.take(k + 1).drop_last() =~= es.take(k as int));
            let e = self.graph.edges[k];
            if mapped.contains(&e.from_node) && mapped.contains(&e.to_node) {
                let v = match next {
                    Some(v) => v,
                    None => {
                        assert(ids.contains(e.from_node));
                        0
                    },
                };
                new_edges.push(Edge { from_node: v, from_port: e.from_port, to_node: v, to_port: e.to_port });
            }
            k = k + 1;
        }
        assert(es.take(es.len() as int) =~= es);
        proof {
            lemma_node_views_append(self.graph.nodes@, new_nodes@);
        }
        self.graph.nodes.append(&mut new_nodes);
        self.graph.edges.append(&mut new_edges);
        self.selected_nodes.clear();
        match next {
            Some(v) => {
                if !mapped.is_empty() {
                    self.selected_nodes.insert(v);
                }
            },
            None => {},
        }
        pairs
    }

    /// Selects the nodes overlapping `rect`: with `toggle` each flips in or
    /// out of the selection, otherwise they become the selection.
    pub fn select_nodes_in_rect(&mut self, rect: Rect, toggle: bool)
        ensures
            final(self).selection() == if toggle {
                toggle_all(old(self).selection(), hits(old(self).nodes(), rect))
            } else {
                hits(old(self).nodes(), rect).to_set()
            },
            final(self).same_but_selection(old(self)),
    {
        let ghost ns = self.nodes();
        let ghost sel0 = self.selection();
        if !toggle {
            self.selected_nodes.clear();
        }
        let ghost base = self.selection();
        let mut i: usize = 0;
        while i < self.graph.nodes.len()
            invariant
                ns == self.nodes(),
                i <= ns.len(),
                base == if toggle { sel0 } else { Set::<usize>::empty() },
                self.selection() == if toggle {
                    toggle_all(base, hits(ns.take(i as int), rect))
                } else {
                    hits(ns.take(i as int), rect).to_set()
                },
                self.same_but_selection(old(self)),
            decreases ns.len() - i,
        {
            assert(ns.take(i + 1).drop_last() =~= ns.take(i as int));
            let n = &self.graph.nodes[i];
            assert(n@ == ns[i as int]);
            let r = Rect::new(n.position.x, n.position.y, n.size.width, n.size.height);
            if rect.intersects(&r) {
                let ghost h = hits(ns.take(i as int), rect);
                assert(hits(ns.take(i + 1), rect) == h.push(n.id));
                if toggle {
                    if !self.selected_nodes.insert(n.id) {
                        self.selected_nodes.remove(&n.id);
                    }
                    assert(h.push(n.id).drop_last() =~= h);
                } else {
                    self.selected_nodes.insert(n.id);
                    proof {
                        h.lemma_push_to_set_commute(n.id);
                    }
                }
            }
            i = i + 1;
        }
        assert(ns.take(ns.len() as int) =~= ns);
    }

    /// Snaps to the grid the nodes a drag of node `node_id` moved; see
    /// [`snap_target`].
    pub fn snap_after_drag(&mut self, node_id: usize)
        requires
            snap_ok(old(self).nodes(), old(self).selection(), node_id),
        ensures
            final(self).nodes() == snapped_nodes(old(self).nodes(), old(self).selection(), node_id),
            final(self).edges() == old(self).edges(),
            final(self).same_but_graph(old(self)),
    {
        let ghost ns = self.nodes();
        let ghost sel = self.selection();
        let group = self.selected_nodes.contains(&node_id);
        let mut seen: HashSet<usize> = HashSet::new();
        let mut i: usize = 0;
        while i < self.graph.nodes.len()
            invariant
                ns == old(self).nodes(),
                ns.len() == self.nodes().len(),
                sel == self.selection(),
                group == sel.contains(node_id),
                i <= ns.len(),
                snap_ok(ns, sel, node_id),
                forall|j: int| 0 <= j < i ==> #[trigger] self.nodes()[j] == snapped_nodes(ns, sel, node_id)[j],
                forall|j: int| i <= j < ns.len() ==> #[trigger] self.nodes()[j] == ns[j],
                forall|x: usize| seen@.contains(x) <==> exists|k: int| 0 <= k < i && #[trigger] ns[k].id == x,
                self.edges() == old(self).edges(),
                self.same_but_graph(old(self)),
            decreases ns.len() - i,
        {
            let id = self.graph.nodes[i].id;
            assert(self.nodes()[i as int] == ns[i as int]);
            assert(self.graph.nodes@[i as int]@ == self.nodes()[i as int]);
            proof {
                lemma_first_occurrence(ns, i as int);
            }
            let first = !seen.contains(&id);
            let target = first && (if group { self.selected_nodes.contains(&id) } else { id == node_id });
            assert(first == (forall|k: int| 0 <= k < i ==> #[trigger] ns[k].id != id));
            assert(target == snap_target(ns, sel, node_id, i as int));
            if target {
                let ghost cur = self.graph.nodes@;
                let mut n = self.graph.nodes.remove(i);
                assert(n@ == ns[i as int]);
                n.position = snap_point(n.position);
                let ghost nv = n@;
                self.graph.nodes.insert(i, n);
                proof {
                    assert(self.graph.nodes@ =~= cur.update(i as int, n));
                    lemma_node_views_update(cur, i as int, n);
                }
                assert(self.nodes()[i as int] == nv);
            }
            seen.insert(id);
            i = i + 1;
        }
        assert(self.nodes() =~= snapped_nodes(ns, sel, node_id));
    }
}

/// The leftmost, topmost, rightmost and bottommost coordinates of the
/// nodes of a non-empty `ns`.
pub open spec fn left_of(ns: Seq<NodeView>) -> int
    decreases ns.len(),
{
    if ns.len() <= 1 {
        ns[0].position.x as int
    } else {
        let m = left_of(ns.drop_last());
        if ns.last().position.x < m { ns.last().position.x as int } else { m }
    }
}

pub open spec fn top_of(ns: Seq<NodeView>) -> int
    decreases ns.len(),
{
    if ns.len() <= 1 {
        ns[0].position.y as int
    } else {
        let m = top_of(ns.drop_last());
        if ns.last().position.y < m { ns.last().position.y as int } else { m }
    }
}

pub open spec fn right_of(ns: Seq<NodeView>) -> int
    decreases ns.len(),
{
    if ns.len() <= 1 {
        ns[0].position.x + ns[0].size.width
    } else {
        let m = right_of(ns.drop_last());
        let r = ns.last().position.x + ns.last().size.width;
        if r > m { r } else { m }
    }
}

pub open spec fn bottom_of(ns: Seq<NodeView>) -> int
    decreases ns.len(),
{
    if ns.len() <= 1 {
        ns[0].position.y + ns[0].size.height
    } else {
        let m = bottom_of(ns.drop_last());
        let b = ns.last().position.y + ns.last().size.height;
        if b > m { b } else { m }
    }
}

/// Every node's right and bottom edge, and the extent of all of them,
/// are `i32`s.
pub open spec fn bounds_ok(ns: Seq<NodeView>) -> bool {
    &&& forall|j: int|
        0 <= j < ns.len() ==> fits_i32(#[trigger] ns[j].position.x + ns[j].size.width) && fits_i32(
            ns[j].position.y + ns[j].size.height,
        )
    &&& ns.len() > 0 ==> fits_i32(right_of(ns) - left_of(ns)) && fits_i32(bottom_of(ns) - top_of(ns))
}

/// The file types a node takes as a dropped image, by extension in any case.
pub open spec fn image_extension(x: Seq<char>) -> bool {
    let l = crate::combo_box::unicode_lowercase(x);
    l == "png"@ || l == "jpg"@ || l == "jpeg"@ || l == "gif"@ || l == "bmp"@ || l == "webp"@
}

/// Whether `path` names an image a node takes when dropped on it.
pub fn is_supported_image(path: &str) -> (b: bool)
    ensures
        b == (crate::file_dialog::extension(path@) matches Some(x) && image_extension(x)),
{
    match crate::file_dialog::path_extension(path) {
        None => false,
        Some(ext) => {
            let l = crate::combo_box::to_lowercase(ext.as_str());
            let t = l.as_str();
            same_text(t, "png") || same_text(t, "jpg") || same_text(t, "jpeg") || same_text(t, "gif") || same_text(t, "bmp")
                || same_text(t, "webp")
        },
    }
}

impl NodeGraph {
    /// The rectangle around all nodes, or `None` for an empty graph.
    pub fn graph_bounds(&self) -> (r: Option<Rect>)
        requires
            bounds_ok(self.nodes()),
        ensures
            self.nodes().len() == 0 ==> r is None,
            self.nodes().len() > 0 ==> r == Some(
                Rect {
                    x: left_of(self.nodes()) as i32,
                    y: top_of(self.nodes()) as i32,
                    width: (right_of(self.nodes()) - left_of(self.nodes())) as i32,
                    height: (bottom_of(self.nodes()) - top_of(self.nodes())) as i32,
                },
            ),
    {
        let ghost ns = self.nodes();
        let n = self.graph.nodes.len();
        if n == 0 {
            return None;
        }
        let first = &self.graph.nodes[0];
        assert(first@ == ns[0]);
        assert(fits_i32(ns[0].position.x + ns[0].size.width));
        let mut min_x = first.position.x;
        let mut min_y = first.position.y;
        let mut max_x = first.position.x + first.size.width;
        let mut max_y = first.position.y + first.size.height;
        let mut i: usize = 1;
        assert(ns.take(1).len() == 1);
        while i < n
            invariant
                ns == self.nodes(),
                n == ns.len(),
                bounds_ok(ns),
                1 <= i <= n,
                min_x == left_of(ns.take(i as int)),
                min_y == top_of(ns.take(i as int)),
                max_x == right_of(ns.take(i as int)),
                max_y == bottom_of(ns.take(i as int)),
            decreases n - i,
        {
            assert(ns.take(i + 1).drop_last() =~= ns.take(i as int));
            let node = &self.graph.nodes[i];
            assert(node@ == ns[i as int]);
            assert(fits_i32(ns[i as int].position.x + ns[i as int].size.width));
            if node.position.x < min_x {
                min_x = node.position.x;
            }
            if node.position.y < min_y {
                min_y = node.position.y;
            }
            let r = node.position.x + node.size.width;
            if r > max_x {
                max_x = r;
            }
            let b = node.position.y + node.size.height;
            if b > max_y {
                max_y = b;
            }
            i = i + 1;
        }
        assert(ns.take(n as int) =~= ns);
        Some(Rect::new(min_x, min_y, max_x - min_x, max_y - min_y))
    }

    /// The first node with a selected id, if the id the selection offers
    /// first has a node; which selected id comes first is not fixed. So a
    /// copy of a node comes back whenever something is selected and every
    /// selected id names a node.
    pub fn first_selected_node(&self) -> (r: Option<Node>)
        ensures
            self.selection().is_empty() ==> r is None,
            r is None ==> (self.selection().is_empty() || exists|id: usize|
                self.selection().contains(id) && #[trigger] find_node(self.nodes(), id) is None),
            r matches Some(n) ==> (self.selection().contains(n@.id) && (find_node(self.nodes(), n@.id) matches Some(k)
                && self.nodes()[k] == n@)),
    {
        let ids = self.selected_node_ids();
        if ids.len() == 0 {
            assert(ids@.to_set() =~= Set::<usize>::empty());
            return None;
        }
        let id = ids[0];
        assert(ids@.to_set().contains(ids@[0]));
        proof {
            lemma_find_from(self.nodes(), id, 0);
        }
        match self.find_index(id) {
            Some(i) => {
                let n = &self.graph.nodes[i];
                assert(n@ == self.nodes()[i as int]);
                Some(n.copy_as(n.id, n.position))
            },
            None => {
                assert(self.selection().contains(id) && find_node(self.nodes(), id) is None);
                None
            },
        }
    }

    /// Records step `current` of `total` of node `node_id`, labelled
    /// `label`; a fresh step clears an earlier error.
    pub fn set_node_progress(&mut self, node_id: usize, current: u32, total: u32, label: &str)
        ensures
            final(self).progress().dom() == old(self).progress().dom().insert(node_id),
            forall|k: usize| k != node_id && #[trigger] old(self).progress().contains_key(k) ==> final(self).progress()[k]
                == old(self).progress()[k],
            final(self).progress()[node_id].current == current,
            final(self).progress()[node_id].total == total,
            final(self).progress()[node_id].label@ == label@,
            final(self).progress()[node_id].error is None,
            final(self).same_but_progress(old(self)),
    {
        let mut p = NodeProgress::default_progress();
        p.set_step(current, total, label);
        self.node_progress.insert(node_id, p);
    }

    /// Everything but the progress entries is as in `other`.
    pub open spec fn same_but_progress(&self, other: &NodeGraph) -> bool {
        &&& self.nodes() == other.nodes()
        &&& self.edges() == other.edges()
        &&& self.selection() == other.selection()
        &&& self.dirty() == other.dirty()
        &&& self.images() == other.images()
    }

    /// Drops the progress entry of node `node_id`.
    pub fn clear_node_progress(&mut self, node_id: usize)
        ensures
            final(self).progress() == old(self).progress().remove(node_id),
            final(self).same_but_progress(old(self)),
    {
        self.node_progress.remove(&node_id);
    }

    /// Marks node `node_id` failed with `msg`, keeping its progress (or
    /// starting from none).
    pub fn set_node_error(&mut self, node_id: usize, msg: &str)
        ensures
            final(self).progress().dom() == old(self).progress().dom().insert(node_id),
            forall|k: usize| k != node_id && #[trigger] old(self).progress().contains_key(k) ==> final(self).progress()[k]
                == old(self).progress()[k],
            final(self).progress()[node_id].error matches Some(e) && e@ == msg@,
            old(self).progress().contains_key(node_id) ==> {
                &&& final(self).progress()[node_id].current == old(self).progress()[node_id].current
                &&& final(self).progress()[node_id].total == old(self).progress()[node_id].total
                &&& final(self).progress()[node_id].label@ == old(self).progress()[node_id].label@
            },
            !old(self).progress().contains_key(node_id) ==> {
                &&& final(self).progress()[node_id].current == 0
                &&& final(self).progress()[node_id].total == 0
                &&& final(self).progress()[node_id].label@ == Seq::<char>::empty()
            },
            final(self).same_but_progress(old(self)),
    {
        let mut p = match self.node_progress.remove(&node_id) {
            Some(p) => p,
            None => NodeProgress::default_progress(),
        };
        p.set_error(msg);
        self.node_progress.insert(node_id, p);
    }

    /// The progress entry of node `node_id`, if any.
    pub fn node_progress_for(&self, node_id: usize) -> (r: Option<&NodeProgress>)
        ensures
            match r {
                Some(p) => self.progress().contains_key(node_id) && *p == self.progress()[node_id],
                None => !self.progress().contains_key(node_id),
            },
    {
        self.node_progress.get(&node_id)
    }

    /// Builds the preview of a `width` by `height` RGB image for node
    /// `node_id` (see [`crate::preview::prepare_image_preview`]), replacing
    /// any earlier one; an error leaves the previews as they were.
    pub fn set_node_image(&mut self, node_id: usize, rgb_bytes: Vec<u8>, width: u32, height: u32) -> (r: Result<(), crate::preview::PreviewError>)
        requires
            width * height * 3 <= usize::MAX,
            rgb_bytes@.len() == width * height * 3 && !crate::preview::fits_cap(width as int, height as int, crate::preview::MAX_PREVIEW_EDGE as int)
                ==> width * height * 3 <= u32::MAX,
        ensures
            match crate::preview::preview_check(rgb_bytes@.len() as int, width, height) {
                Some(e) => r == Err::<(), crate::preview::PreviewError>(e) && final(self).images() == old(self).images(),
                None => {
                    &&& r is Ok
                    &&& final(self).images().dom() == old(self).images().dom().insert(node_id)
                    &&& forall|k: usize| k != node_id && #[trigger] old(self).images().contains_key(k) ==> final(self).images()[k]
                        == old(self).images()[k]
                    &&& final(self).images()[node_id].texture_id == 0
                    &&& crate::preview::is_thumbnail(
                        rgb_bytes@,
                        width as int,
                        height as int,
                        crate::preview::MAX_PREVIEW_EDGE as int,
                        final(self).images()[node_id].width as int,
                        final(self).images()[node_id].height as int,
                        final(self).images()[node_id].rgb_bytes@,
                    )
                },
            },
            final(self).same_but_images(old(self)),
    {
        match crate::preview::prepare_image_preview(rgb_bytes.as_slice(), width, height) {
            Ok(p) => {
                self.node_image_textures.insert(node_id, p);
                Ok(())
            },
            Err(e) => Err(e),
        }
    }

    /// Everything but the image previews is as in `other`.
    pub open spec fn same_but_images(&self, other: &NodeGraph) -> bool {
        &&& self.nodes() == other.nodes()
        &&& self.edges() == other.edges()
        &&& self.selection() == other.selection()
        &&& self.dirty() == other.dirty()
        &&& self.progress() == other.progress()
    }

    /// Drops the image preview of node `node_id`.
    pub fn clear_node_image(&mut self, node_id: usize)
        ensures
            final(self).images() == old(self).images().remove(node_id),
            final(self).same_but_images(old(self)),
    {
        self.node_image_textures.remove(&node_id);
    }

    /// The image preview of node `node_id`, if any.
    pub fn node_image_for(&self, node_id: usize) -> (r: Option<&NodeImagePreview>)
        ensures
            match r {
                Some(p) => self.images().contains_key(node_id) && *p == self.images()[node_id],
                None => !self.images().contains_key(node_id),
            },
    {
        self.node_image_textures.get(&node_id)
    }

    /// A copy of the graph and its groups: what a saved layout holds beside
    /// the view's pan and zoom, which are the host's.
    pub fn graph_state(&self) -> (r: (Graph, Vec<Group>))
        ensures
            node_views(r.0.nodes@) == self.nodes(),
            r.0.edges@ == self.edges(),
            r.1@.len() == self.group_list().len(),
            forall|k: int| 0 <= k < r.1@.len() ==> {
                &&& (#[trigger] r.1@[k]).id == self.group_list()[k].id
                &&& r.1@[k].title@ == self.group_list()[k].title@
                &&& r.1@[k].rect == self.group_list()[k].rect
                &&& r.1@[k].color == self.group_list()[k].color
            },
    {
        let mut nodes: Vec<Node> = Vec::new();
        let mut i: usize = 0;
        while i < self.graph.nodes.len()
            invariant
                i <= self.graph.nodes@.len(),
                nodes@.len() == i,
                forall|k: int| 0 <= k < i ==> (#[trigger] nodes@[k])@ == self.graph.nodes@[k]@,
            decreases self.graph.nodes@.len() - i,
        {
            let n = &self.graph.nodes[i];
            nodes.push(n.copy_as(n.id, n.position));
            i = i + 1;
        }
        let mut edges: Vec<Edge> = Vec::new();
        let mut j: usize = 0;
        while j < self.graph.edges.len()
            invariant
                j <= self.graph.edges@.len(),
                edges@ == self.graph.edges@.take(j as int),
            decreases self.graph.edges@.len() - j,
        {
            edges.push(self.graph.edges[j]);
            assert(self.graph.edges@.take(j + 1) =~= self.graph.edges@.take(j as int).push(self.graph.edges@[j as int]));
            j = j + 1;
        }
        assert(self.graph.edges@.take(j as int) =~= self.graph.edges@);
        let mut groups: Vec<Group> = Vec::new();
        let mut g: usize = 0;
        while g < self.groups.len()
            invariant
                g <= self.groups@.len(),
                groups@.len() == g,
                forall|k: int| 0 <= k < g ==> {
                    &&& (#[trigger] groups@[k]).id == self.groups@[k].id
                    &&& groups@[k].title@ == self.groups@[k].title@
                    &&& groups@[k].rect == self.groups@[k].rect
                    &&& groups@[k].color == self.groups@[k].color
                },
            decreases self.groups@.len() - g,
        {
            let gr = &self.groups[g];
            groups.push(Group { id: gr.id, title: gr.title.clone(), rect: gr.rect, color: gr.color });
            g = g + 1;
        }
        let graph = Graph { nodes, edges };
        assert(node_views(graph.nodes@) =~= self.nodes());
        (graph, groups)
    }

    /// Replaces the graph and the groups; the image previews are dropped
    /// (the host loads those of the new graph's file fields again).
    pub fn set_graph_state(&mut self, graph: Graph, groups: Vec<Group>)
        ensures
            final(self).add_menu_view() == old(self).add_menu_view(),
            final(self).registry_set() == old(self).registry_set(),
            final(self).nodes() == node_views(graph.nodes@),
            final(self).edges() == graph.edges@,
            final(self).group_list() == groups@,
            final(self).images() == Map::<usize, NodeImagePreview>::empty(),
            final(self).selection() == old(self).selection(),
            final(self).grid_shown() == old(self).grid_shown(),
            final(self).widget_state() == old(self).widget_state(),
            final(self).progress() == old(self).progress(),
            final(self).dirty() == old(self).dirty(),
            final(self).interaction_state() == old(self).interaction_state(),
            final(self).hovered_port_ref() == old(self).hovered_port_ref(),
            final(self).hovered_edge_index() == old(self).hovered_edge_index(),
            final(self).cursor_world() == old(self).cursor_world(),
    {
        self.graph = graph;
        self.groups = groups;
        self.node_image_textures.clear();
    }
}

/// Snapping a point already on the grid keeps it there, for coordinates
/// from -6 up (further left or up, a grid point moves toward zero).
pub proof fn law_snap_idempotent(v: int)
    requires
        v >= -6,
    ensures
        snap_spec(snap_spec(v)) == snap_spec(v),
{
    let q = (v + 6) / 12;
    assert(q >= 0) by (nonlinear_arith)
        requires
            v + 6 >= 0,
            q == (v + 6) / 12,
    {}
    assert(snap_spec(v) == q * 12);
    assert((q * 12 + 6) / 12 == q) by (nonlinear_arith)
        requires
            q >= 0,
    {}
    assert(q * 12 + 6 >= 0) by (nonlinear_arith)
        requires
            q >= 0,
    {}
}

impl NodeGraph {
    /// Everything but the widget state is as in `other`.
    pub open spec fn same_but_state(&self, other: &NodeGraph) -> bool {
        &&& self.nodes() == other.nodes()
        &&& self.edges() == other.edges()
        &&& self.selection() == other.selection()
        &&& self.dirty() == other.dirty()
        &&& self.progress() == other.progress()
        &&& self.images() == other.images()
        &&& self.grid_shown() == other.grid_shown()
        &&& self.group_list() == other.group_list()
    }

    pub fn id(&self) -> (r: WidgetId)
        ensures
            r == self.widget_state().id,
    {
        self.state.id
    }

    /// The whole space offered: the allowed width and height, or 800 by 600.
    pub fn measure(&self, max_width: Option<i32>, max_height: Option<i32>) -> (s: Size)
        ensures
            s.width == (match max_width { Some(w) => w, None => 800 }),
            s.height == (match max_height { Some(h) => h, None => 600 }),
    {
        let w = match max_width {
            Some(w) => w,
            None => 800,
        };
        let h = match max_height {
            Some(h) => h,
            None => 600,
        };
        Size::new(w, h)
    }

    pub fn bounds(&self) -> (r: Rect)
        ensures
            r == self.widget_state().bounds,
    {
        self.state.bounds
    }

    pub fn set_bounds(&mut self, bounds: Rect)
        ensures
            final(self).widget_state() == (WidgetState { bounds, ..old(self).widget_state() }),
            final(self).same_but_state(old(self)),
    {
        self.state.bounds = bounds;
    }

    /// The widget's id where `point` lies inside it.
    pub fn hit_test(&self, point: Point) -> (r: Option<WidgetId>)
        ensures
            r == (if self.widget_state().bounds.contains_spec(point) { Some(self.widget_state().id) } else { None }),
    {
        if self.state.bounds.contains(point) {
            Some(self.state.id)
        } else {
            None
        }
    }

    pub fn is_visible(&self) -> (b: bool)
        ensures
            b == self.widget_state().visible,
    {
        self.state.visible
    }

    pub fn set_visible(&mut self, visible: bool)
        ensures
            final(self).widget_state() == (WidgetState { visible, ..old(self).widget_state() }),
            final(self).same_but_state(old(self)),
    {
        self.state.visible = visible;
    }

    pub fn is_enabled(&self) -> (b: bool)
        ensures
            b == self.widget_state().enabled,
    {
        self.state.enabled
    }

    pub fn set_enabled(&mut self, enabled: bool)
        ensures
            final(self).widget_state() == (WidgetState { enabled, ..old(self).widget_state() }),
            final(self).same_but_state(old(self)),
    {
        self.state.enabled = enabled;
    }

    pub fn can_focus(&self) -> (b: bool)
        ensures
            b,
    {
        true
    }

    pub fn is_focused(&self) -> (b: bool)
        ensures
            b == self.widget_state().focused,
    {
        self.state.focused
    }

    pub fn set_focused(&mut self, focused: bool)
        ensures
            final(self).widget_state() == (WidgetState { focused, ..old(self).widget_state() }),
            final(self).same_but_state(old(self)),
    {
        self.state.focused = focused;
    }
}

/// Smallest size a resize leaves a node.
pub const MIN_NODE_WIDTH: i32 = 160;
pub const MIN_NODE_HEIGHT: i32 = 120;

/// The id of the first node from index `i` on whose rectangle contains `p`.
pub open spec fn node_at_from(ns: Seq<NodeView>, p: Point, i: int) -> Option<usize>
    decreases ns.len() - i,
{
    if i < 0 || i >= ns.len() {
        None
    } else if node_rect(ns[i]).contains_spec(p) {
        Some(ns[i].id)
    } else {
        node_at_from(ns, p, i + 1)
    }
}

/// Where port `i` of a side of node `n` sits: inputs 8 pixels in from the
/// left edge, outputs 8 in from the right, 28 down and 20 apart.
pub open spec fn port_point_spec(n: NodeView, i: int, is_input: bool) -> Point {
    Point {
        x: (if is_input { n.position.x + 8 } else { n.position.x + n.size.width - 8 }) as i32,
        y: (n.position.y + 28 + 20 * i) as i32,
    }
}

/// The nodes after moving the targets of a drag of node `id` (see
/// [`snap_target`]) by `(dx, dy)`.
pub open spec fn shifted_nodes(ns: Seq<NodeView>, sel: Set<usize>, id: usize, dx: int, dy: int) -> Seq<NodeView> {
    Seq::new(
        ns.len(),
        |j: int|
            if snap_target(ns, sel, id, j) {
                NodeView { position: Point { x: (ns[j].position.x + dx) as i32, y: (ns[j].position.y + dy) as i32 }, ..ns[j] }
            } else {
                ns[j]
            },
    )
}

/// The nodes after resizing the first node with id `id` by `(dx, dy)`,
/// no smaller than the minimum size.
pub open spec fn resized_nodes(ns: Seq<NodeView>, id: usize, dx: int, dy: int) -> Seq<NodeView> {
    match find_node(ns, id) {
        Some(k) => {
            let w = ns[k].size.width + dx;
            let h = ns[k].size.height + dy;
            ns.update(
                k,
                NodeView {
                    size: Size {
                        width: (if w > MIN_NODE_WIDTH { w } else { MIN_NODE_WIDTH as int }) as i32,
                        height: (if h > MIN_NODE_HEIGHT { h } else { MIN_NODE_HEIGHT as int }) as i32,
                    },
                    ..ns[k]
                },
            )
        },
        None => ns,
    }
}

/// What a pointer move asks of the host: whether it was taken, how far to
/// pan the view, and whether the hovered port and edge need looking up again.
#[derive(Clone, Copy, Debug, PartialEq, Eq, Structural)]
pub struct PointerMove {
    pub result: crate::event::EventResult,
    pub pan_by: Point,
    pub refresh_hover: bool,
}

/// What releasing the right button leads to.
#[derive(Clone, Copy, Debug, PartialEq, Eq, Structural)]
pub enum RightRelease {
    Done(crate::event::EventResult),
    /// A click on empty canvas with a registry wired: the host opens the
    /// add-node menu there.
    OpenAddMenu,
}

/// What a key on the canvas leads to.
pub enum CanvasKey {
    Done(crate::event::EventResult),
    /// The host fits the view to the graph.
    FitView,
    /// The host resets the view.
    ResetView,
    /// The selection was duplicated; the pairs of [`NodeGraph::duplicate_selected`].
    Duplicated(Vec<(usize, usize)>),
}

impl NodeGraph {
    /// The id of the first node whose rectangle contains world point `p`.
    pub fn node_at(&self, p: Point) -> (r: Option<usize>)
        ensures
            r == node_at_from(self.nodes(), p, 0),
    {
        let ghost ns = self.nodes();
        let mut i: usize = 0;
        while i < self.graph.nodes.len()
            invariant
                ns == self.nodes(),
                i <= ns.len(),
                node_at_from(ns, p, 0) == node_at_from(ns, p, i as int),
            decreases ns.len() - i,
        {
            let n = &self.graph.nodes[i];
            assert(n@ == ns[i as int]);
            let r = Rect::new(n.position.x, n.position.y, n.size.width, n.size.height);
            if r.contains(p) {
                return Some(n.id);
            }
            i = i + 1;
        }
        None
    }

    /// The world position of port `port_index` of one side of node `node_index`.
    pub fn port_point(&self, node_index: usize, port_index: usize, is_input: bool) -> (p: Point)
        requires
            node_index < self.nodes().len(),
            fits_i32(self.nodes()[node_index as int].position.x + 8),
            fits_i32(self.nodes()[node_index as int].position.x + self.nodes()[node_index as int].size.width),
            fits_i32(self.nodes()[node_index as int].position.x + self.nodes()[node_index as int].size.width - 8),
            fits_i32(self.nodes()[node_index as int].position.y + 28 + 20 * port_index),
        ensures
            p == port_point_spec(self.nodes()[node_index as int], port_index as int, is_input),
    {
        let n = &self.graph.nodes[node_index];
        assert(n@ == self.nodes()[node_index as int]);
        let x = if is_input { n.position.x + 8 } else { n.position.x + n.size.width - 8 };
        let y = (n.position.y as i64 + 28 + 20 * port_index as i64) as i32;
        Point::new(x, y)
    }

    /// Records the port and edge under the pointer, which the host finds.
    pub fn set_hover(&mut self, port: Option<PortRef>, edge: Option<usize>)
        ensures
            final(self).hovered_port_ref() == port,
            final(self).hovered_edge_index() == edge,
            final(self).interaction_state() == old(self).interaction_state(),
            final(self).cursor_world() == old(self).cursor_world(),
            final(self).same_but_hover(old(self)),
    {
        self.hovered_port = port;
        self.hovered_edge = edge;
    }

    /// Everything but the hovered port and edge is as in `other`.
    pub open spec fn same_but_hover(&self, other: &NodeGraph) -> bool {
        &&& self.nodes() == other.nodes()
        &&& self.edges() == other.edges()
        &&& self.selection() == other.selection()
        &&& self.dirty() == other.dirty()
        &&& self.progress() == other.progress()
        &&& self.images() == other.images()
        &&& self.widget_state() == other.widget_state()
    }

    /// A left press at world point `world` (screen point `screen`) on the
    /// canvas, the host having found the resize handle and the port under
    /// it: a handle starts a resize, a port a link, a node is selected (with
    /// `shift` flipped in or out) and dragged; on empty canvas `shift` starts
    /// a marquee, otherwise a pan. Always taken.
    pub fn press_left(&mut self, world: Point, screen: Point, shift: bool, handle: Option<usize>, port: Option<PortRef>) -> (r: crate::event::EventResult)
        ensures
            final(self).add_menu_view() == old(self).add_menu_view(),
            final(self).registry_set() == old(self).registry_set(),
            r == crate::event::EventResult::Consumed,
            final(self).nodes() == old(self).nodes(),
            final(self).edges() == old(self).edges(),
            final(self).dirty() == old(self).dirty(),
            final(self).progress() == old(self).progress(),
            final(self).images() == old(self).images(),
            match (handle, port, node_at_from(old(self).nodes(), world, 0)) {
                (Some(id), _, _) => final(self).interaction_state() == Some(Interaction::NodeResize { node_id: id, last_world: world })
                    && final(self).selection() == old(self).selection() && final(self).cursor_world() == old(self).cursor_world(),
                (None, Some(p), _) => final(self).interaction_state() == Some(Interaction::LinkDrag { from: p, cursor: world })
                    && final(self).selection() == old(self).selection() && final(self).cursor_world() == old(self).cursor_world(),
                (None, None, Some(id)) => final(self).interaction_state() == Some(Interaction::NodeDrag { node_id: id, last_world: world })
                    && final(self).selection() == clicked_selection(old(self).selection(), id, shift) && final(self).cursor_world() == world,
                (None, None, None) => final(self).interaction_state() == Some(
                    if shift {
                        Interaction::Marquee { start_world: world, current_world: world }
                    } else {
                        Interaction::Pan { last: screen, moved: false }
                    },
                ) && final(self).selection() == old(self).selection() && final(self).cursor_world() == old(self).cursor_world(),
            },
    {
        if let Some(id) = handle {
            self.interaction = Some(Interaction::NodeResize { node_id: id, last_world: world });
            return crate::event::EventResult::Consumed;
        }
        if let Some(p) = port {
            self.interaction = Some(Interaction::LinkDrag { from: p, cursor: world });
            return crate::event::EventResult::Consumed;
        }
        match self.node_at(world) {
            Some(id) => {
                self.handle_selection(id, shift);
                self.interaction = Some(Interaction::NodeDrag { node_id: id, last_world: world });
                self.last_cursor_world = world;
            },
            None => {
                if shift {
                    self.interaction = Some(Interaction::Marquee { start_world: world, current_world: world });
                } else {
                    self.interaction = Some(Interaction::Pan { last: screen, moved: false });
                }
            },
        }
        crate::event::EventResult::Consumed
    }

    /// A pointer move to world point `world` (screen point `screen`) is
    /// computed in `i32`.
    pub open spec fn move_ok(&self, world: Point, screen: Point) -> bool {
        match self.interaction_state() {
            Some(Interaction::NodeDrag { node_id, last_world }) => {
                let dx = world.x - last_world.x;
                let dy = world.y - last_world.y;
                &&& fits_i32(dx)
                &&& fits_i32(dy)
                &&& forall|j: int|
                    0 <= j < self.nodes().len() && #[trigger] snap_target(self.nodes(), self.selection(), node_id, j)
                        ==> fits_i32(self.nodes()[j].position.x + dx) && fits_i32(self.nodes()[j].position.y + dy)
            },
            Some(Interaction::NodeResize { node_id, last_world }) => {
                let dx = world.x - last_world.x;
                let dy = world.y - last_world.y;
                &&& fits_i32(dx)
                &&& fits_i32(dy)
                &&& find_node(self.nodes(), node_id) matches Some(k) ==> fits_i32(self.nodes()[k].size.width + dx) && fits_i32(
                    self.nodes()[k].size.height + dy,
                )
            },
            Some(Interaction::Pan { last, .. }) => fits_i32(screen.x - last.x) && fits_i32(screen.y - last.y),
            _ => true,
        }
    }

    /// A pointer move: carries on the interaction under way (see
    /// [`Interaction`]) and records `world` as the cursor position.
    pub fn pointer_moved(&mut self, world: Point, screen: Point) -> (m: PointerMove)
        requires
            old(self).move_ok(world, screen),
        ensures
            final(self).add_menu_view() == old(self).add_menu_view(),
            final(self).registry_set() == old(self).registry_set(),
            final(self).cursor_world() == world,
            final(self).edges() == old(self).edges(),
            final(self).selection() == old(self).selection(),
            final(self).dirty() == old(self).dirty(),
            final(self).progress() == old(self).progress(),
            final(self).images() == old(self).images(),
            match old(self).interaction_state() {
                Some(Interaction::NodeDrag { node_id, last_world }) => {
                    let dx = world.x - last_world.x;
                    let dy = world.y - last_world.y;
                    if dx != 0 || dy != 0 {
                        &&& m == (PointerMove { result: crate::event::EventResult::Consumed, pan_by: Point { x: 0, y: 0 }, refresh_hover: false })
                        &&& final(self).nodes() == shifted_nodes(old(self).nodes(), old(self).selection(), node_id, dx, dy)
                        &&& final(self).interaction_state() == Some(Interaction::NodeDrag { node_id, last_world: world })
                    } else {
                        &&& m == (PointerMove { result: crate::event::EventResult::Ignored, pan_by: Point { x: 0, y: 0 }, refresh_hover: false })
                        &&& final(self).nodes() == old(self).nodes()
                        &&& final(self).interaction_state() == old(self).interaction_state()
                    }
                },
                Some(Interaction::NodeResize { node_id, last_world }) => {
                    let dx = world.x - last_world.x;
                    let dy = world.y - last_world.y;
                    if dx != 0 || dy != 0 {
                        &&& m == (PointerMove { result: crate::event::EventResult::Consumed, pan_by: Point { x: 0, y: 0 }, refresh_hover: false })
                        &&& final(self).nodes() == resized_nodes(old(self).nodes(), node_id, dx, dy)
                        &&& final(self).interaction_state() == Some(Interaction::NodeResize { node_id, last_world: world })
                    } else {
                        &&& m == (PointerMove { result: crate::event::EventResult::Ignored, pan_by: Point { x: 0, y: 0 }, refresh_hover: false })
                        &&& final(self).nodes() == old(self).nodes()
                        &&& final(self).interaction_state() == old(self).interaction_state()
                    }
                },
                Some(Interaction::LinkDrag { from, .. }) => {
                    &&& m == (PointerMove { result: crate::event::EventResult::Consumed, pan_by: Point { x: 0, y: 0 }, refresh_hover: true })
                    &&& final(self).nodes() == old(self).nodes()
                    &&& final(self).interaction_state() == Some(Interaction::LinkDrag { from, cursor: world })
                },
                Some(Interaction::Pan { last, moved }) => {
                    let dx = screen.x - last.x;
                    let dy = screen.y - last.y;
                    &&& m == (PointerMove {
                        result: crate::event::EventResult::Consumed,
                        pan_by: Point { x: dx as i32, y: dy as i32 },
                        refresh_hover: false,
                    })
                    &&& final(self).nodes() == old(self).nodes()
                    &&& final(self).interaction_state() == Some(Interaction::Pan { last: screen, moved: moved || dx != 0 || dy != 0 })
                },
                Some(Interaction::Marquee { start_world, .. }) => {
                    &&& m == (PointerMove { result: crate::event::EventResult::Consumed, pan_by: Point { x: 0, y: 0 }, refresh_hover: false })
                    &&& final(self).nodes() == old(self).nodes()
                    &&& final(self).interaction_state() == Some(Interaction::Marquee { start_world, current_world: world })
                },
                None => {
                    &&& m == (PointerMove { result: crate::event::EventResult::Ignored, pan_by: Point { x: 0, y: 0 }, refresh_hover: true })
                    &&& final(self).nodes() == old(self).nodes()
                    &&& final(self).interaction_state() is None
                },
            },
    {
        let none = Point::zero();
        let m = match self.interaction {
            Some(Interaction::NodeDrag { node_id, last_world }) => {
                let dx = world.x - last_world.x;
                let dy = world.y - last_world.y;
                if dx != 0 || dy != 0 {
                    self.shift_dragged(node_id, dx, dy);
                    self.interaction = Some(Interaction::NodeDrag { node_id, last_world: world });
                    PointerMove { result: crate::event::EventResult::Consumed, pan_by: none, refresh_hover: false }
                } else {
                    PointerMove { result: crate::event::EventResult::Ignored, pan_by: none, refresh_hover: false }
                }
            },
            Some(Interaction::NodeResize { node_id, last_world }) => {
                let dx = world.x - last_world.x;
                let dy = world.y - last_world.y;
                if dx != 0 || dy != 0 {
                    self.resize_node(node_id, dx, dy);
                    self.interaction = Some(Interaction::NodeResize { node_id, last_world: world });
                    PointerMove { result: crate::event::EventResult::Consumed, pan_by: none, refresh_hover: false }
                } else {
                    PointerMove { result: crate::event::EventResult::Ignored, pan_by: none, refresh_hover: false }
                }
            },
            Some(Interaction::LinkDrag { from, .. }) => {
                self.interaction = Some(Interaction::LinkDrag { from, cursor: world });
                PointerMove { result: crate::event::EventResult::Consumed, pan_by: none, refresh_hover: true }
            },
            Some(Interaction::Pan { last, moved }) => {
                let dx = screen.x - last.x;
                let dy = screen.y - last.y;
                self.interaction = Some(Interaction::Pan { last: screen, moved: moved || dx != 0 || dy != 0 });
                PointerMove { result: crate::event::EventResult::Consumed, pan_by: Point::new(dx, dy), refresh_hover: false }
            },
            Some(Interaction::Marquee { start_world, .. }) => {
                self.interaction = Some(Interaction::Marquee { start_world, current_world: world });
                PointerMove { result: crate::event::EventResult::Consumed, pan_by: none, refresh_hover: false }
            },
            None => PointerMove { result: crate::event::EventResult::Ignored, pan_by: none, refresh_hover: true },
        };
        self.last_cursor_world = world;
        m
    }

    /// Moves the targets of a drag of node `node_id` by `(dx, dy)`.
    fn shift_dragged(&mut self, node_id: usize, dx: i32, dy: i32)
        requires
            forall|j: int|
                0 <= j < old(self).nodes().len() && #[trigger] snap_target(old(self).nodes(), old(self).selection(), node_id, j)
                    ==> fits_i32(old(self).nodes()[j].position.x + dx) && fits_i32(old(self).nodes()[j].position.y + dy),
        ensures
            final(self).nodes() == shifted_nodes(old(self).nodes(), old(self).selection(), node_id, dx as int, dy as int),
            final(self).edges() == old(self).edges(),
            final(self).same_but_graph(old(self)),
    {
        let ghost ns = self.nodes();
        let ghost sel = self.selection();
        let group = self.selected_nodes.contains(&node_id);
        let mut seen: HashSet<usize> = HashSet::new();
        let mut i: usize = 0;
        while i < self.graph.nodes.len()
            invariant
                ns == old(self).nodes(),
                ns.len() == self.nodes().len(),
                sel == self.selection(),
                group == sel.contains(node_id),
                i <= ns.len(),
                forall|j: int|
                    0 <= j < ns.len() && #[trigger] snap_target(ns, sel, node_id, j) ==> fits_i32(ns[j].position.x + dx)
                        && fits_i32(ns[j].position.y + dy),
                forall|j: int| 0 <= j < i ==> #[trigger] self.nodes()[j] == shifted_nodes(ns, sel, node_id, dx as int, dy as int)[j],
                forall|j: int| i <= j < ns.len() ==> #[trigger] self.nodes()[j] == ns[j],
                forall|x: usize| seen@.contains(x) <==> exists|k: int| 0 <= k < i && #[trigger] ns[k].id == x,
                self.edges() == old(self).edges(),
                self.same_but_graph(old(self)),
            decreases ns.len() - i,
        {
            let id = self.graph.nodes[i].id;
            assert(self.nodes()[i as int] == ns[i as int]);
            assert(self.graph.nodes@[i as int]@ == self.nodes()[i as int]);
            proof {
                lemma_first_occurrence(ns, i as int);
            }
            let first = !seen.contains(&id);
            let target = first && (if group { self.selected_nodes.contains(&id) } else { id == node_id });
            assert(first == (forall|k: int| 0 <= k < i ==> #[trigger] ns[k].id != id));
            assert(target == snap_target(ns, sel, node_id, i as int));
            if target {
                let ghost cur = self.graph.nodes@;
                let mut n = self.graph.nodes.remove(i);
                assert(n@ == ns[i as int]);
                n.position = Point::new(n.position.x + dx, n.position.y + dy);
                let ghost nv = n@;
                self.graph.nodes.insert(i, n);
                proof {
                    assert(self.graph.nodes@ =~= cur.update(i as int, n));
                    lemma_node_views_update(cur, i as int, n);
                }
                assert(self.nodes()[i as int] == nv);
            }
            seen.insert(id);
            i = i + 1;
        }
        assert(self.nodes() =~= shifted_nodes(ns, sel, node_id, dx as int, dy as int));
    }

    /// Resizes the first node with id `node_id` by `(dx, dy)`, no smaller
    /// than the minimum size.
    fn resize_node(&mut self, node_id: usize, dx: i32, dy: i32)
        requires
            find_node(old(self).nodes(), node_id) matches Some(k) ==> fits_i32(old(self).nodes()[k].size.width + dx) && fits_i32(
                old(self).nodes()[k].size.height + dy,
            ),
        ensures
            final(self).nodes() == resized_nodes(old(self).nodes(), node_id, dx as int, dy as int),
            final(self).edges() == old(self).edges(),
            final(self).same_but_graph(old(self)),
    {
        match self.find_index(node_id) {
            Some(i) => {
                let ghost cur = self.graph.nodes@;
                let mut n = self.graph.nodes.remove(i);
                assert(n@ == old(self).nodes()[i as int]);
                let w = n.size.width + dx;
                let h = n.size.height + dy;
                n.size = Size::new(if w > MIN_NODE_WIDTH { w } else { MIN_NODE_WIDTH }, if h > MIN_NODE_HEIGHT { h } else { MIN_NODE_HEIGHT });
                self.graph.nodes.insert(i, n);
                proof {
                    assert(self.graph.nodes@ =~= cur.update(i as int, n));
                    lemma_node_views_update(cur, i as int, n);
                }
            },
            None => {},
        }
    }
}

impl NodeGraph {
    /// Releasing the left button ends the interaction is computed in `i32`.
    pub open spec fn release_ok(&self) -> bool {
        match self.interaction_state() {
            Some(Interaction::NodeDrag { node_id, .. }) => snap_ok(self.nodes(), self.selection(), node_id),
            Some(Interaction::NodeResize { node_id, .. }) => snap_ok(self.nodes(), self.selection(), node_id),
            Some(Interaction::Marquee { start_world: a, current_world: b }) => {
                &&& fits_i32(a.x - b.x)
                &&& fits_i32(b.x - a.x)
                &&& fits_i32(a.y - b.y)
                &&& fits_i32(b.y - a.y)
            },
            _ => true,
        }
    }

    /// Releasing the left button, over port `target` if the host found one:
    /// a drag or resize snaps the moved nodes to the grid, a link drag joins
    /// its port to `target` (see [`new_link`]), a marquee selects what it
    /// covers (flipping with `shift`). Ends the interaction.
    pub fn release_left(&mut self, target: Option<PortRef>, shift: bool) -> (r: crate::event::EventResult)
        requires
            old(self).release_ok(),
        ensures
            final(self).add_menu_view() == old(self).add_menu_view(),
            final(self).registry_set() == old(self).registry_set(),
            final(self).interaction_state() is None,
            final(self).progress() == old(self).progress(),
            final(self).images() == old(self).images(),
            final(self).cursor_world() == old(self).cursor_world(),
            match old(self).interaction_state() {
                Some(Interaction::NodeDrag { node_id, .. }) | Some(Interaction::NodeResize { node_id, .. }) => {
                    &&& r == crate::event::EventResult::Consumed
                    &&& final(self).nodes() == snapped_nodes(old(self).nodes(), old(self).selection(), node_id)
                    &&& final(self).edges() == old(self).edges()
                    &&& final(self).selection() == old(self).selection()
                    &&& final(self).dirty() == old(self).dirty()
                },
                Some(Interaction::LinkDrag { from, .. }) => {
                    &&& r == crate::event::EventResult::Consumed
                    &&& final(self).nodes() == old(self).nodes()
                    &&& final(self).selection() == old(self).selection()
                    &&& match target {
                        Some(t) => match new_link(old(self).edges(), from, t) {
                            Some(e) => final(self).edges() == old(self).edges().push(e) && final(self).dirty()
                                == old(self).dirty().insert(e.from_node).insert(e.to_node),
                            None => final(self).edges() == old(self).edges() && final(self).dirty() == old(self).dirty(),
                        },
                        None => final(self).edges() == old(self).edges() && final(self).dirty() == old(self).dirty(),
                    }
                },
                Some(Interaction::Marquee { start_world: a, current_world: b }) => {
                    let rect = Rect {
                        x: (if a.x <= b.x { a.x } else { b.x }),
                        y: (if a.y <= b.y { a.y } else { b.y }),
                        width: (if a.x <= b.x { b.x - a.x } else { a.x - b.x }) as i32,
                        height: (if a.y <= b.y { b.y - a.y } else { a.y - b.y }) as i32,
                    };
                    &&& r == crate::event::EventResult::Consumed
                    &&& final(self).nodes() == old(self).nodes()
                    &&& final(self).edges() == old(self).edges()
                    &&& final(self).dirty() == old(self).dirty()
                    &&& final(self).selection() == if shift {
                        toggle_all(old(self).selection(), hits(old(self).nodes(), rect))
                    } else {
                        hits(old(self).nodes(), rect).to_set()
                    }
                },
                _ => {
                    &&& r == crate::event::EventResult::Ignored
                    &&& final(self).nodes() == old(self).nodes()
                    &&& final(self).edges() == old(self).edges()
                    &&& final(self).selection() == old(self).selection()
                    &&& final(self).dirty() == old(self).dirty()
                },
            },
    {
        let it = self.interaction;
        self.interaction = None;
        match it {
            Some(Interaction::NodeDrag { node_id, .. }) => {
                self.snap_after_drag(node_id);
                crate::event::EventResult::Consumed
            },
            Some(Interaction::NodeResize { node_id, .. }) => {
                self.snap_after_drag(node_id);
                crate::event::EventResult::Consumed
            },
            Some(Interaction::LinkDrag { from, .. }) => {
                if let Some(t) = target {
                    self.connect_ports(from, t);
                }
                crate::event::EventResult::Consumed
            },
            Some(Interaction::Marquee { start_world, current_world }) => {
                let rect = rect_from_points(start_world, current_world);
                self.select_nodes_in_rect(rect, shift);
                crate::event::EventResult::Consumed
            },
            _ => crate::event::EventResult::Ignored,
        }
    }

    /// A right press at screen point `screen` starts a pan; the press itself
    /// is not taken.
    pub fn press_right(&mut self, screen: Point) -> (r: crate::event::EventResult)
        ensures
            r == crate::event::EventResult::Ignored,
            final(self).interaction_state() == Some(Interaction::Pan { last: screen, moved: false }),
            final(self).same_but_hover(old(self)),
            final(self).hovered_port_ref() == old(self).hovered_port_ref(),
            final(self).hovered_edge_index() == old(self).hovered_edge_index(),
    {
        self.interaction = Some(Interaction::Pan { last: screen, moved: false });
        crate::event::EventResult::Ignored
    }

    /// Releasing the right button at world point `world`, the host having
    /// found the port, the nearest edge and whether a resize handle lie
    /// under it. A click (a pan that did not move) unwires the port, or
    /// else removes the edge; a click on empty canvas asks for the add-node
    /// menu. Ends the interaction.
    pub fn release_right(&mut self, world: Point, port: Option<PortRef>, edge: Option<usize>, on_handle: bool) -> (r: RightRelease)
        requires
            old(self).interaction_state() matches Some(Interaction::Pan { moved: false, .. }) && port is None ==> (edge matches Some(i)
                ==> i < old(self).edges().len()),
        ensures
            final(self).add_menu_view() == old(self).add_menu_view(),
            final(self).registry_set() == old(self).registry_set(),
            final(self).interaction_state() is None,
            final(self).nodes() == old(self).nodes(),
            final(self).selection() == old(self).selection(),
            final(self).progress() == old(self).progress(),
            final(self).images() == old(self).images(),
            ({
                let click = old(self).interaction_state() matches Some(Interaction::Pan { moved: false, .. });
                if click && port is Some {
                    let p = port->0;
                    let es = kept_edges(old(self).edges(), at_port(p));
                    &&& final(self).edges() == es
                    &&& final(self).dirty() == old(self).dirty().union(dropped_ends(old(self).edges(), at_port(p)))
                    &&& if es.len() != old(self).edges().len() {
                        r == RightRelease::Done(crate::event::EventResult::Consumed) && final(self).hovered_edge_index() is None
                    } else {
                        r == RightRelease::Done(crate::event::EventResult::Ignored)
                    }
                } else if click && edge is Some {
                    &&& final(self).edges() == old(self).edges().remove(edge->0 as int)
                    &&& final(self).dirty() == old(self).dirty()
                    &&& r == RightRelease::Done(crate::event::EventResult::Consumed)
                    &&& final(self).hovered_edge_index() is None
                } else {
                    &&& final(self).edges() == old(self).edges()
                    &&& final(self).dirty() == old(self).dirty()
                    &&& r == if click && node_at_from(old(self).nodes(), world, 0) is None && !on_handle && old(self).registry_set() {
                        RightRelease::OpenAddMenu
                    } else {
                        RightRelease::Done(crate::event::EventResult::Ignored)
                    }
                }
            }),
    {
        let click = match self.interaction {
            Some(Interaction::Pan { moved, .. }) => !moved,
            _ => false,
        };
        let mut consumed = false;
        if click {
            match port {
                Some(p) => {
                    consumed = self.remove_edges_for_port(p);
                },
                None => match edge {
                    Some(i) => {
                        self.graph.edges.remove(i);
                        consumed = true;
                    },
                    None => {},
                },
            }
        }
        self.interaction = None;
        if consumed {
            self.hovered_edge = None;
            return RightRelease::Done(crate::event::EventResult::Consumed);
        }
        if click && port.is_none() && edge.is_none() && !on_handle && self.registry_wired {
            if self.node_at(world).is_none() {
                return RightRelease::OpenAddMenu;
            }
        }
        RightRelease::Done(crate::event::EventResult::Ignored)
    }
}

/// What Delete (or Backspace) on the canvas does, step by step: unwire the
/// hovered port, remove the hovered edge (touching its ends), delete the
/// selected nodes. Gives the nodes, edges, touched nodes and selection
/// after, and whether anything went.
pub open spec fn delete_key(
    ns: Seq<NodeView>,
    es: Seq<Edge>,
    dirty: Set<usize>,
    sel: Set<usize>,
    hovered_port: Option<PortRef>,
    hovered_edge: Option<usize>,
) -> (Seq<NodeView>, Seq<Edge>, Set<usize>, Set<usize>, bool) {
    let es1 = match hovered_port {
        Some(p) => kept_edges(es, at_port(p)),
        None => es,
    };
    let d1 = match hovered_port {
        Some(p) => dirty.union(dropped_ends(es, at_port(p))),
        None => dirty,
    };
    let r1 = hovered_port is Some && es1.len() != es.len();
    let hit = hovered_edge matches Some(i) && i < es1.len();
    let es2 = if hit { es1.remove(hovered_edge->0 as int) } else { es1 };
    let d2 = if hit {
        d1.insert(es1[hovered_edge->0 as int].from_node).insert(es1[hovered_edge->0 as int].to_node)
    } else {
        d1
    };
    let del = !sel.is_empty();
    let ns3 = if del { nodes_without(ns, sel) } else { ns };
    let es3 = if del { kept_edges(es2, at_nodes(sel)) } else { es2 };
    let r3 = del && (ns3.len() != ns.len() || es3.len() != es2.len());
    (ns3, es3, d2, if del { Set::empty() } else { sel }, r1 || hit || r3)
}

impl NodeGraph {
    /// A key on the canvas while no field is being edited. Delete and
    /// Backspace remove what is hovered and selected (see [`delete_key`]);
    /// A adds a node at the cursor; D duplicates and X disconnects the
    /// selection; Space and F ask the host to fit the view, R and Home to
    /// reset it.
    pub fn canvas_key(&mut self, key: crate::event::Key) -> (r: CanvasKey)
        requires
            key == crate::event::Key::A ==> max_node_id(old(self).nodes()) < usize::MAX && fits_i32(old(self).cursor_world().x + 6)
                && fits_i32(old(self).cursor_world().y + 6),
            key == crate::event::Key::D ==> duplicate_ok(old(self).nodes(), old(self).selection()),
        ensures
            final(self).add_menu_view() == old(self).add_menu_view(),
            final(self).registry_set() == old(self).registry_set(),
            final(self).progress() == old(self).progress(),
            final(self).images() == old(self).images(),
            final(self).interaction_state() == old(self).interaction_state(),
            match key {
                crate::event::Key::Delete | crate::event::Key::Backspace => {
                    let (ns, es, d, sel, removed) = delete_key(
                        old(self).nodes(),
                        old(self).edges(),
                        old(self).dirty(),
                        old(self).selection(),
                        old(self).hovered_port_ref(),
                        old(self).hovered_edge_index(),
                    );
                    &&& final(self).nodes() == ns
                    &&& final(self).edges() == es
                    &&& final(self).dirty() == d
                    &&& final(self).selection() == sel
                    &&& r matches CanvasKey::Done(res) && res == if removed {
                        crate::event::EventResult::Consumed
                    } else {
                        crate::event::EventResult::Ignored
                    }
                    &&& removed ==> final(self).hovered_edge_index() is None
                },
                crate::event::Key::A => {
                    let id = (max_node_id(old(self).nodes()) + 1) as usize;
                    let c = old(self).cursor_world();
                    &&& r matches CanvasKey::Done(res) && res == crate::event::EventResult::Consumed
                    &&& final(self).nodes() == old(self).nodes().push(
                        fresh_node(id, Point { x: snap_spec(c.x as int) as i32, y: snap_spec(c.y as int) as i32 }),
                    )
                    &&& final(self).edges() == old(self).edges()
                    &&& final(self).selection() == Set::<usize>::empty().insert(id)
                    &&& final(self).dirty() == old(self).dirty()
                },
                crate::event::Key::D => {
                    let ns = old(self).nodes();
                    let sel = old(self).selection();
                    let nid = (max_node_id(ns) + 1) as usize;
                    &&& final(self).dirty() == old(self).dirty()
                    &&& if sel.is_empty() {
                        r matches CanvasKey::Duplicated(v) && v@.len() == 0 && final(self).nodes() == ns && final(self).edges()
                            == old(self).edges() && final(self).selection() == sel
                    } else {
                        &&& r matches CanvasKey::Duplicated(v) && v@ == copy_pairs(ns, sel, nid)
                        &&& final(self).nodes() == ns + copies(ns, sel, nid)
                        &&& final(self).edges() == old(self).edges() + copied_edges(old(self).edges(), present_ids(ns, sel), nid)
                        &&& final(self).selection() == if present_ids(ns, sel).is_empty() {
                            Set::<usize>::empty()
                        } else {
                            Set::<usize>::empty().insert(nid)
                        }
                    }
                },
                crate::event::Key::X => {
                    &&& r matches CanvasKey::Done(res) && res == crate::event::EventResult::Consumed
                    &&& final(self).nodes() == old(self).nodes()
                    &&& final(self).edges() == kept_edges(old(self).edges(), at_nodes(old(self).selection()))
                    &&& final(self).dirty() == old(self).dirty().union(dropped_ends(old(self).edges(), at_nodes(old(self).selection())))
                    &&& final(self).selection() == old(self).selection()
                },
                crate::event::Key::Space | crate::event::Key::F | crate::event::Key::R | crate::event::Key::Home => {
                    &&& (key == crate::event::Key::Space || key == crate::event::Key::F) ==> r is FitView
                    &&& (key == crate::event::Key::R || key == crate::event::Key::Home) ==> r is ResetView
                    &&& final(self).nodes() == old(self).nodes()
                    &&& final(self).edges() == old(self).edges()
                    &&& final(self).dirty() == old(self).dirty()
                    &&& final(self).selection() == old(self).selection()
                },
                _ => {
                    &&& r matches CanvasKey::Done(res) && res == crate::event::EventResult::Ignored
                    &&& final(self).nodes() == old(self).nodes()
                    &&& final(self).edges() == old(self).edges()
                    &&& final(self).dirty() == old(self).dirty()
                    &&& final(self).selection() == old(self).selection()
                },
            },
    {
        match key {
            crate::event::Key::Delete | crate::event::Key::Backspace => {
                let mut removed = false;
                if let Some(p) = self.hovered_port {
                    removed = self.remove_edges_for_port(p);
                }
                if let Some(i) = self.hovered_edge {
                    if i < self.graph.edges.len() {
                        let e = self.graph.edges.remove(i);
                        self.mark_both(e.from_node, e.to_node);
                        removed = true;
                    }
                }
                if !self.selected_nodes.is_empty() {
                    let gone = self.delete_selected();
                    removed = removed || gone;
                }
                if removed {
                    self.hovered_edge = None;
                    CanvasKey::Done(crate::event::EventResult::Consumed)
                } else {
                    CanvasKey::Done(crate::event::EventResult::Ignored)
                }
            },
            crate::event::Key::A => {
                let c = self.last_cursor_world;
                self.add_node_at(c);
                CanvasKey::Done(crate::event::EventResult::Consumed)
            },
            crate::event::Key::Space | crate::event::Key::F => CanvasKey::FitView,
            crate::event::Key::R | crate::event::Key::Home => CanvasKey::ResetView,
            crate::event::Key::D => CanvasKey::Duplicated(self.duplicate_selected()),
            crate::event::Key::X => {
                self.disconnect_selected();
                CanvasKey::Done(crate::event::EventResult::Consumed)
            },
            _ => CanvasKey::Done(crate::event::EventResult::Ignored),
        }
    }
}

fn fits_i64(v: i64) -> (b: bool)
    ensures
        b == fits_i32(v as int),
{
    -2147483648 <= v && v <= 2147483647
}

impl NodeGraph {
    /// Whether every target of a drag of node `node_id` stays an `i32`
    /// point when moved by `(dx, dy)`.
    fn targets_fit(&self, node_id: usize, dx: i64, dy: i64) -> (b: bool)
        requires
            -0x1_0000_0000 <= dx <= 0x1_0000_0000,
            -0x1_0000_0000 <= dy <= 0x1_0000_0000,
        ensures
            b == forall|j: int|
                0 <= j < self.nodes().len() && #[trigger] snap_target(self.nodes(), self.selection(), node_id, j)
                    ==> fits_i32(self.nodes()[j].position.x + dx) && fits_i32(self.nodes()[j].position.y + dy),
    {
        let ghost ns = self.nodes();
        let ghost sel = self.selection();
        let group = self.selected_nodes.contains(&node_id);
        let mut seen: HashSet<usize> = HashSet::new();
        let mut i: usize = 0;
        while i < self.graph.nodes.len()
            invariant
                ns == self.nodes(),
                sel == self.selection(),
                group == sel.contains(node_id),
                i <= ns.len(),
                -0x1_0000_0000 <= dx <= 0x1_0000_0000,
                -0x1_0000_0000 <= dy <= 0x1_0000_0000,
                forall|j: int|
                    0 <= j < i && #[trigger] snap_target(ns, sel, node_id, j) ==> fits_i32(ns[j].position.x + dx) && fits_i32(
                        ns[j].position.y + dy,
                    ),
                forall|x: usize| seen@.contains(x) <==> exists|k: int| 0 <= k < i && #[trigger] ns[k].id == x,
            decreases ns.len() - i,
        {
            let n = &self.graph.nodes[i];
            assert(n@ == ns[i as int]);
            proof {
                lemma_first_occurrence(ns, i as int);
            }
            let first = !seen.contains(&n.id);
            let target = first && (if group { self.selected_nodes.contains(&n.id) } else { n.id == node_id });
            assert(first == (forall|k: int| 0 <= k < i ==> #[trigger] ns[k].id != n.id));
            assert(target == snap_target(ns, sel, node_id, i as int));
            if target && !(fits_i64(n.position.x as i64 + dx) && fits_i64(n.position.y as i64 + dy)) {
                return false;
            }
            seen.insert(n.id);
            i = i + 1;
        }
        true
    }

    /// Whether a pointer move to `world` (screen point `screen`) can be
    /// handled; see [`NodeGraph::move_ok`].
    pub fn can_move_to(&self, world: Point, screen: Point) -> (b: bool)
        ensures
            b == self.move_ok(world, screen),
    {
        match self.interaction {
            Some(Interaction::NodeDrag { node_id, last_world }) => {
                let dx = world.x as i64 - last_world.x as i64;
                let dy = world.y as i64 - last_world.y as i64;
                fits_i64(dx) && fits_i64(dy) && self.targets_fit(node_id, dx, dy)
            },
            Some(Interaction::NodeResize { node_id, last_world }) => {
                let dx = world.x as i64 - last_world.x as i64;
                let dy = world.y as i64 - last_world.y as i64;
                if !(fits_i64(dx) && fits_i64(dy)) {
                    return false;
                }
                match self.find_index(node_id) {
                    Some(i) => {
                        let n = &self.graph.nodes[i];
                        assert(n@ == self.nodes()[i as int]);
                        fits_i64(n.size.width as i64 + dx) && fits_i64(n.size.height as i64 + dy)
                    },
                    None => true,
                }
            },
            Some(Interaction::Pan { last, .. }) => fits_i64(screen.x as i64 - last.x as i64) && fits_i64(
                screen.y as i64 - last.y as i64,
            ),
            _ => true,
        }
    }

    /// Whether releasing the left button can be handled; see
    /// [`NodeGraph::release_ok`].
    pub fn can_release(&self) -> (b: bool)
        ensures
            b == self.release_ok(),
    {
        match self.interaction {
            Some(Interaction::NodeDrag { node_id, .. }) | Some(Interaction::NodeResize { node_id, .. }) => {
                self.targets_fit(node_id, 6, 6)
            },
            Some(Interaction::Marquee { start_world: a, current_world: b }) => {
                fits_i64(a.x as i64 - b.x as i64) && fits_i64(b.x as i64 - a.x as i64) && fits_i64(a.y as i64 - b.y as i64)
                    && fits_i64(b.y as i64 - a.y as i64)
            },
            _ => true,
        }
    }
}

impl NodeGraph {
    /// Whether a new node can get an id (the largest id is not `usize::MAX`).
    pub fn has_free_id(&self) -> (b: bool)
        ensures
            b == (max_node_id(self.nodes()) < usize::MAX),
    {
        let ghost ns = self.nodes();
        let mut i: usize = 0;
        let mut m: usize = 0;
        while i < self.graph.nodes.len()
            invariant
                ns == self.nodes(),
                i <= ns.len(),
                m == max_node_id(ns.take(i as int)),
            decreases ns.len() - i,
        {
            assert(ns.take(i + 1).drop_last() =~= ns.take(i as int));
            let n = &self.graph.nodes[i];
            assert(n@ == ns[i as int]);
            if n.id > m {
                m = n.id;
            }
            i = i + 1;
        }
        assert(ns.take(ns.len() as int) =~= ns);
        m < usize::MAX
    }

    /// Whether the selection can be duplicated; see [`duplicate_ok`].
    pub fn can_duplicate(&self) -> (b: bool)
        ensures
            b == duplicate_ok(self.nodes(), self.selection()),
    {
        let ghost ns = self.nodes();
        let ghost sel = self.selection();
        let free = self.has_free_id();
        let mut i: usize = 0;
        while i < self.graph.nodes.len()
            invariant
                ns == self.nodes(),
                sel == self.selection(),
                free == (max_node_id(ns) < usize::MAX),
                i <= ns.len(),
                forall|j: int|
                    0 <= j < i && sel.contains(#[trigger] ns[j].id) ==> {
                        &&& max_node_id(ns) < usize::MAX
                        &&& fits_i32(ns[j].position.x + 30)
                        &&& fits_i32(ns[j].position.y + 30)
                    },
            decreases ns.len() - i,
        {
            let n = &self.graph.nodes[i];
            assert(n@ == ns[i as int]);
            if self.selected_nodes.contains(&n.id) {
                assert(sel.contains(ns[i as int].id));
                if !(free && fits_i64(n.position.x as i64 + 30) && fits_i64(n.position.y as i64 + 30)) {
                    return false;
                }
            }
            i = i + 1;
        }
        true
    }

    /// Whether [`NodeGraph::graph_bounds`] can be computed; see [`bounds_ok`].
    pub fn bounds_fit(&self) -> (b: bool)
        ensures
            b == bounds_ok(self.nodes()),
    {
        let ghost ns = self.nodes();
        let n = self.graph.nodes.len();
        let mut i: usize = 0;
        while i < n
            invariant
                ns == self.nodes(),
                n == ns.len(),
                i <= n,
                forall|j: int|
                    0 <= j < i ==> fits_i32(#[trigger] ns[j].position.x + ns[j].size.width) && fits_i32(
                        ns[j].position.y + ns[j].size.height,
                    ),
            decreases n - i,
        {
            let node = &self.graph.nodes[i];
            assert(node@ == ns[i as int]);
            if !(fits_i64(node.position.x as i64 + node.size.width as i64) && fits_i64(
                node.position.y as i64 + node.size.height as i64,
            )) {
                assert(!(fits_i32(ns[i as int].position.x + ns[i as int].size.width) && fits_i32(
                    ns[i as int].position.y + ns[i as int].size.height,
                )));
                return false;
            }
            assert(fits_i32(ns[i as int].position.x + ns[i as int].size.width));
            assert(fits_i32(ns[i as int].position.y + ns[i as int].size.height));
            assert forall|j: int| 0 <= j < i + 1 implies fits_i32(#[trigger] ns[j].position.x + ns[j].size.width) && fits_i32(
                ns[j].position.y + ns[j].size.height,
            ) by {
                if j < i {
                    assert(fits_i32(ns[j].position.x + ns[j].size.width));
                }
            }
            i = i + 1;
        }
        if n == 0 {
            return true;
        }
        let first = &self.graph.nodes[0];
        assert(first@ == ns[0]);
        assert(fits_i32(ns[0].position.x + ns[0].size.width));
        assert(fits_i32(ns[0].position.y + ns[0].size.height));
        let mut min_x = first.position.x;
        let mut min_y = first.position.y;
        let mut max_x = first.position.x + first.size.width;
        let mut max_y = first.position.y + first.size.height;
        let mut k: usize = 1;
        while k < n
            invariant
                ns == self.nodes(),
                n == ns.len(),
                1 <= k <= n,
                forall|j: int|
                    0 <= j < n ==> fits_i32(#[trigger] ns[j].position.x + ns[j].size.width) && fits_i32(
                        ns[j].position.y + ns[j].size.height,
                    ),
                min_x == left_of(ns.take(k as int)),
                min_y == top_of(ns.take(k as int)),
                max_x == right_of(ns.take(k as int)),
                max_y == bottom_of(ns.take(k as int)),
            decreases n - k,
        {
            assert(ns.take(k + 1).drop_last() =~= ns.take(k as int));
            let node = &self.graph.nodes[k];
            assert(node@ == ns[k as int]);
            assert(fits_i32(ns[k as int].position.x + ns[k as int].size.width));
            if node.position.x < min_x {
                min_x = node.position.x;
            }
            if node.position.y < min_y {
                min_y = node.position.y;
            }
            let r = node.position.x + node.size.width;
            if r > max_x {
                max_x = r;
            }
            let b = node.position.y + node.size.height;
            if b > max_y {
                max_y = b;
            }
            k = k + 1;
        }
        assert(ns.take(n as int) =~= ns);
        fits_i64(max_x as i64 - min_x as i64) && fits_i64(max_y as i64 - min_y as i64)
    }
}

impl NodeGraph {
    /// Everything but the add-node menu is as in `other`.
    pub open spec fn same_but_menu(&self, other: &NodeGraph) -> bool {
        &&& self.registry_set() == other.registry_set()
        &&& self.nodes() == other.nodes()
        &&& self.edges() == other.edges()
        &&& self.selection() == other.selection()
        &&& self.grid_shown() == other.grid_shown()
        &&& self.group_list() == other.group_list()
        &&& self.widget_state() == other.widget_state()
        &&& self.progress() == other.progress()
        &&& self.images() == other.images()
        &&& self.dirty() == other.dirty()
        &&& self.interaction_state() == other.interaction_state()
        &&& self.hovered_port_ref() == other.hovered_port_ref()
        &&& self.hovered_edge_index() == other.hovered_edge_index()
        &&& self.cursor_world() == other.cursor_world()
    }

    /// Records that a node registry is wired; the host holds it and hands
    /// the library what it lists. Until then the add-node menu cannot open.
    pub fn set_node_registry(&mut self)
        ensures
            final(self).registry_set(),
            final(self).add_menu_view() == old(self).add_menu_view(),
            final(self).nodes() == old(self).nodes(),
            final(self).edges() == old(self).edges(),
            final(self).selection() == old(self).selection(),
            final(self).grid_shown() == old(self).grid_shown(),
            final(self).group_list() == old(self).group_list(),
            final(self).widget_state() == old(self).widget_state(),
            final(self).progress() == old(self).progress(),
            final(self).images() == old(self).images(),
            final(self).dirty() == old(self).dirty(),
            final(self).interaction_state() == old(self).interaction_state(),
            final(self).hovered_port_ref() == old(self).hovered_port_ref(),
            final(self).hovered_edge_index() == old(self).hovered_edge_index(),
            final(self).cursor_world() == old(self).cursor_world(),
    {
        self.registry_wired = true;
    }

    /// Opens the add-node menu at world point `world_pos`, listing
    /// `entries`, what the node registry lists; see [`AddNodeMenuState::new`].
    /// Without a wired registry nothing happens.
    pub fn open_add_menu_at(&mut self, world_pos: Point, entries: Vec<RegistryEntry>)
        ensures
            !old(self).registry_set() ==> final(self).add_menu_view() == old(self).add_menu_view(),
            old(self).registry_set() ==> (final(self).add_menu_view() matches Some(m) && {
                &&& m.position == world_pos
                &&& m.search_text == Seq::<char>::empty()
                &&& m.selected is None
                &&& m.entries == entries@.map_values(|e: RegistryEntry| crate::add_menu::entry_view(e))
                &&& m.filtered == m.entries.map_values(|e: crate::add_menu::EntryView| e.type_id)
            }),
            final(self).same_but_menu(old(self)),
    {
        if self.registry_wired {
            self.add_node_menu = Some(AddNodeMenuState::new(world_pos, entries));
        }
    }

    /// Closes the add-node menu, dropping its query.
    pub fn close_add_menu(&mut self)
        ensures
            final(self).add_menu_view() is None,
            final(self).same_but_menu(old(self)),
    {
        self.add_node_menu = None;
    }

    /// Whether the add-node menu is open.
    pub fn add_menu_open(&self) -> (b: bool)
        ensures
            b == self.add_menu_view() is Some,
    {
        self.add_node_menu.is_some()
    }

    /// The open add-node menu.
    pub fn add_menu(&self) -> (r: Option<&AddNodeMenuState>)
        ensures
            match r {
                Some(m) => self.add_menu_view() == Some(m.view()),
                None => self.add_menu_view() is None,
            },
    {
        match &self.add_node_menu {
            Some(m) => Some(m),
            None => None,
        }
    }

    /// Types `query` into the open add-node menu; see
    /// [`AddNodeMenuState::update_search`]. Nothing happens while it is closed.
    pub fn add_menu_search(&mut self, query: &str)
        ensures
            match old(self).add_menu_view() {
                Some(m) => final(self).add_menu_view() == Some(AddMenuView {
                    search_text: query@,
                    selected: None,
                    filtered: crate::add_menu::matching_ids(m.entries, crate::add_menu::needle_of(query@), m.entries.len() as int),
                    ..m
                }),
                None => final(self).add_menu_view() is None,
            },
            final(self).same_but_menu(old(self)),
    {
        match self.add_node_menu.take() {
            Some(mut m) => {
                m.update_search(query);
                self.add_node_menu = Some(m);
            },
            None => {},
        }
    }

    /// Inserts the node the open menu selects and closes the menu; `schema`
    /// is what the node registry gives for the type id of
    /// [`AddNodeMenuState::resolve_selection`]. Returns whether a node went
    /// in: not while the menu is closed, without a listed type or without a
    /// schema, and then nothing changes.
    pub fn add_menu_pick_first(&mut self, schema: Option<AddMenuSchema>) -> (r: bool)
        requires
            max_node_id(old(self).nodes()) < usize::MAX,
        ensures
            match old(self).add_menu_view() {
                Some(m) => {
                    let idx: int = match m.selected { Some(i) => i as int, None => 0 };
                    if idx < m.filtered.len() && schema is Some {
                        &&& r
                        &&& final(self).nodes() == old(self).nodes().push(NodeView {
                            id: (max_node_id(old(self).nodes()) + 1) as usize,
                            ..schema_node(m.filtered[idx], schema->0, m.position)
                        })
                        &&& final(self).add_menu_view() is None
                    } else {
                        &&& !r
                        &&& final(self).nodes() == old(self).nodes()
                        &&& final(self).add_menu_view() == old(self).add_menu_view()
                    }
                },
                None => !r && final(self).nodes() == old(self).nodes() && final(self).add_menu_view() is None,
            },
            final(self).registry_set() == old(self).registry_set(),
            final(self).edges() == old(self).edges(),
            final(self).selection() == old(self).selection(),
            final(self).grid_shown() == old(self).grid_shown(),
            final(self).group_list() == old(self).group_list(),
            final(self).widget_state() == old(self).widget_state(),
            final(self).progress() == old(self).progress(),
            final(self).images() == old(self).images(),
            final(self).dirty() == old(self).dirty(),
            final(self).interaction_state() == old(self).interaction_state(),
            final(self).hovered_port_ref() == old(self).hovered_port_ref(),
            final(self).hovered_edge_index() == old(self).hovered_edge_index(),
            final(self).cursor_world() == old(self).cursor_world(),
    {
        let node = match &self.add_node_menu {
            Some(m) => m.select(schema),
            None => None,
        };
        match node {
            Some(n) => {
                self.add_node(n);
                self.close_add_menu();
                true
            },
            None => false,
        }
    }

    /// The add-node menu's share of an event: while it is open, a left
    /// press anywhere or Escape closes it and takes the event (`true`);
    /// otherwise nothing changes and the event goes on.
    pub fn add_menu_event(&mut self, event: &crate::event::Event) -> (r: bool)
        ensures
            r == (old(self).add_menu_view() is Some && match *event {
                crate::event::Event::MouseButton(b) => b.button == crate::event::MouseButton::Left && b.pressed,
                crate::event::Event::KeyPress(k) => k.key == crate::event::Key::Escape,
                _ => false,
            }),
            r ==> final(self).add_menu_view() is None,
            !r ==> final(self).add_menu_view() == old(self).add_menu_view(),
            final(self).same_but_menu(old(self)),
    {
        if self.add_node_menu.is_none() {
            return false;
        }
        let closes = match event {
            crate::event::Event::MouseButton(b) => b.button == crate::event::MouseButton::Left && b.pressed,
            crate::event::Event::KeyPress(k) => k.key == crate::event::Key::Escape,
            _ => false,
        };
        if closes {
            self.add_node_menu = None;
        }
        closes
    }
}

} // verus!
