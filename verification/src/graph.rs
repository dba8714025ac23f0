//! The plain parts of a node graph: ports, nodes, the edges between them,
//! and the labelled groups drawn behind nodes.

use vstd::prelude::*;
use crate::geometry::{Point, Rect, Size};
use crate::color_picker::Rgba;

verus! {

/// An input or output of a node.
pub struct Port {
    pub id: usize,
    pub label: String,
    pub is_input: bool,
}

/// The mathematical content of a [`Port`].
pub struct PortView {
    pub id: usize,
    pub label: Seq<char>,
    pub is_input: bool,
}

impl View for Port {
    type V = PortView;

    open spec fn view(&self) -> PortView {
        PortView { id: self.id, label: self.label@, is_input: self.is_input }
    }
}

/// An edge from an output port of one node to an input port of another.
#[derive(Clone, Copy, Debug, PartialEq, Eq, Structural)]
pub struct Edge {
    pub from_node: usize,
    pub from_port: usize,
    pub to_node: usize,
    pub to_port: usize,
}

/// A node of the graph: its id, title, place and size in world
/// coordinates, its ports, and the kind of component it stands for. The
/// values of its editable fields are kept by the host under the node's id.
pub struct Node {
    pub id: usize,
    pub title: String,
    pub position: Point,
    pub size: Size,
    pub inputs: Vec<Port>,
    pub outputs: Vec<Port>,
    pub component_type: Option<String>,
}

/// The mathematical content of a [`Node`].
pub struct NodeView {
    pub id: usize,
    pub title: Seq<char>,
    pub position: Point,
    pub size: Size,
    pub inputs: Seq<PortView>,
    pub outputs: Seq<PortView>,
    pub component_type: Option<Seq<char>>,
}

pub open spec fn port_views(ps: Seq<Port>) -> Seq<PortView> {
    Seq::new(ps.len(), |i: int| ps[i]@)
}

impl View for Node {
    type V = NodeView;

    open spec fn view(&self) -> NodeView {
        NodeView {
            id: self.id,
            title: self.title@,
            position: self.position,
            size: self.size,
            inputs: port_views(self.inputs@),
            outputs: port_views(self.outputs@),
            component_type: match self.component_type {
                Some(s) => Some(s@),
                None => None,
            },
        }
    }
}

pub open spec fn node_views(ns: Seq<Node>) -> Seq<NodeView> {
    Seq::new(ns.len(), |i: int| ns[i]@)
}

/// Nodes and the edges between their ports.
pub struct Graph {
    pub nodes: Vec<Node>,
    pub edges: Vec<Edge>,
}

impl Default for Graph {
    fn default() -> (g: Graph)
        ensures
            g.nodes@.len() == 0,
            g.edges@.len() == 0,
    {
        Graph { nodes: Vec::new(), edges: Vec::new() }
    }
}

/// A titled, coloured rectangle drawn behind nodes.
pub struct Group {
    pub id: usize,
    pub title: String,
    pub rect: Rect,
    pub color: Rgba,
}

/// A copy of `ports`.
pub fn clone_ports(ports: &Vec<Port>) -> (r: Vec<Port>)
    ensures
        port_views(r@) == port_views(ports@),
{
    let mut r: Vec<Port> = Vec::new();
    let mut i: usize = 0;
    while i < ports.len()
        invariant
            i <= ports.len(),
            r.len() == i,
            forall|k: int| 0 <= k < i ==> #[trigger] r@[k]@ == ports@[k]@,
        decreases ports.len() - i,
    {
        let p = &ports[i];
        r.push(Port { id: p.id, label: p.label.clone(), is_input: p.is_input });
        i = i + 1;
    }
    assert(port_views(r@) =~= port_views(ports@));
    r
}

impl Node {
    /// A copy of the node with another id and position.
    pub fn copy_as(&self, id: usize, position: Point) -> (n: Node)
        ensures
            n@ == (NodeView { id, position, ..self@ }),
    {
        let component_type = match &self.component_type {
            Some(s) => Some(s.clone()),
            None => None,
        };
        Node {
            id,
            title: self.title.clone(),
            position,
            size: self.size,
            inputs: clone_ports(&self.inputs),
            outputs: clone_ports(&self.outputs),
            component_type,
        }
    }
}

} // verus!
