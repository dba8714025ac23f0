use erigui_widgets::geometry::{Point, Rect, Size, WidgetId};
use erigui_widgets::graph::{Edge, Graph, Group, Node, Port};
use erigui_widgets::color_picker::Rgba;
use erigui_widgets::node_graph::{is_supported_image, rect_from_points, snap_point, NodeGraph, PortRef};
use erigui_widgets::preview::{NodeImagePreview, PreviewError};

fn fake_preview(width: u32, height: u32, fill: u8) -> NodeImagePreview {
    let rgb_bytes = vec![fill; (width * height * 3) as usize];
    NodeImagePreview { texture_id: 0, width, height, rgb_bytes }
}

fn node(id: usize, x: i32, y: i32) -> Node {
    Node {
        id,
        title: format!("N{id}"),
        position: Point::new(x, y),
        size: Size::new(100, 50),
        inputs: vec![Port { id: 0, label: "in".into(), is_input: true }],
        outputs: vec![Port { id: 0, label: "out".into(), is_input: false }],
        component_type: None,
    }
}

fn out_port(node_id: usize) -> PortRef {
    PortRef { node_id, port_id: 0, is_input: false }
}

fn in_port(node_id: usize) -> PortRef {
    PortRef { node_id, port_id: 0, is_input: true }
}

/// Three nodes in a row, 1 -> 2 -> 3.
fn chain() -> NodeGraph {
    let mut g = NodeGraph::new(WidgetId::default(), Graph::default());
    g.add_node(node(1, 0, 0));
    g.add_node(node(2, 200, 0));
    g.add_node(node(3, 400, 0));
    assert!(g.connect_ports(out_port(1), in_port(2)));
    assert!(g.connect_ports(in_port(3), out_port(2)));
    g.clear_dirty();
    g
}

fn ids(g: &NodeGraph) -> Vec<usize> {
    g.graph.nodes.iter().map(|n| n.id).collect()
}

fn sorted_selection(g: &NodeGraph) -> Vec<usize> {
    let mut s = g.selected_node_ids();
    s.sort();
    s
}

#[test]
fn image_output_creates_texture() {
    let mut g = NodeGraph::new(WidgetId::default(), Graph::default());
    let p = fake_preview(8, 8, 64);
    g.node_image_textures.insert(0, p);
    assert!(g.node_image_for(0).is_some());
    assert_eq!(g.node_image_for(0).unwrap().width, 8);
    assert_eq!(g.node_image_for(0).unwrap().height, 8);
}

#[test]
fn repeated_run_replaces_texture() {
    let mut g = NodeGraph::new(WidgetId::default(), Graph::default());
    let first = fake_preview(8, 8, 10);
    let second = fake_preview(16, 16, 200);
    g.node_image_textures.insert(0, first);
    g.node_image_textures.insert(0, second);
    assert_eq!(g.node_image_textures.len(), 1);
    let cur = g.node_image_for(0).expect("preview present");
    assert_eq!(cur.width, 16);
    assert_eq!(cur.height, 16);
    assert_eq!(cur.rgb_bytes[0], 200);
}

#[test]
fn clear_node_image_removes_entry() {
    let mut g = NodeGraph::new(WidgetId::default(), Graph::default());
    g.node_image_textures.insert(7, fake_preview(4, 4, 0));
    assert!(g.node_image_for(7).is_some());
    g.clear_node_image(7);
    assert!(g.node_image_for(7).is_none());
    assert_eq!(g.node_image_textures.len(), 0);
}

#[test]
fn set_node_image_checks_and_downsamples() {
    let mut g = NodeGraph::new(WidgetId::default(), Graph::default());
    assert_eq!(g.set_node_image(3, vec![0; 5], 2, 2), Err(PreviewError::BadByteLen { expected: 12, actual: 5 }));
    assert!(g.node_image_for(3).is_none());
    assert!(g.set_node_image(3, vec![9; 512 * 256 * 3], 512, 256).is_ok());
    let p = g.node_image_for(3).unwrap();
    assert_eq!((p.width, p.height, p.texture_id), (256, 128, 0));
    assert_eq!(p.rgb_bytes[0], 9);
}

#[test]
fn node_ids_count_up_from_the_largest() {
    let mut g = NodeGraph::new(WidgetId(5), Graph::default());
    assert_eq!(g.next_node_id(), 1);
    g.add_node(node(0, 0, 0));
    g.add_node(node(7, 0, 0));
    assert_eq!(ids(&g), vec![1, 7]);
    assert_eq!(g.next_node_id(), 8);
}

#[test]
fn new_nodes_land_on_the_grid_and_are_selected() {
    let mut g = chain();
    let id = g.add_node_at(Point::new(13, 20));
    assert_eq!(id, 4);
    let n = g.graph.nodes.last().unwrap();
    assert_eq!(n.title, "Node 4");
    assert_eq!(n.position, Point::new(12, 24));
    assert_eq!(n.size, Size::new(200, 140));
    assert_eq!(n.inputs[0].label, "in");
    assert_eq!(n.outputs[0].label, "out");
    assert_eq!(g.selected_node_ids(), vec![4]);
}

#[test]
fn titles_and_ports() {
    let mut g = chain();
    assert!(g.set_node_title(2, "Sampler"));
    assert!(!g.set_node_title(9, "Nothing"));
    assert_eq!(g.graph.nodes[1].title, "Sampler");
    assert!(g.add_input_port(2, "latent"));
    assert!(g.add_input_port(2, "seed"));
    assert!(g.add_output_port(2, "image"));
    let n = &g.graph.nodes[1];
    let inputs: Vec<(usize, &str)> = n.inputs.iter().map(|p| (p.id, p.label.as_str())).collect();
    assert_eq!(inputs, vec![(0, "in"), (1, "latent"), (2, "seed")]);
    assert_eq!((n.outputs[1].id, n.outputs[1].is_input), (1, false));
    assert!(!g.add_output_port(9, "x"));
}

#[test]
fn linking_joins_an_output_to_an_input_once() {
    let mut g = chain();
    assert_eq!(g.graph.edges, vec![
        Edge { from_node: 1, from_port: 0, to_node: 2, to_port: 0 },
        Edge { from_node: 2, from_port: 0, to_node: 3, to_port: 0 },
    ]);
    // Already joined, same side, same node, same port: nothing happens.
    assert!(!g.connect_ports(out_port(1), in_port(2)));
    assert!(!g.connect_ports(out_port(1), out_port(3)));
    assert!(!g.connect_ports(out_port(2), in_port(2)));
    assert!(!g.connect_ports(in_port(1), in_port(1)));
    assert!(g.dirty_set().is_empty());
    assert!(g.connect_ports(out_port(1), in_port(3)));
    assert_eq!(g.graph.edges.len(), 3);
    let mut d: Vec<usize> = g.dirty_set().iter().copied().collect();
    d.sort();
    assert_eq!(d, vec![1, 3]);
}

#[test]
fn unwiring_a_port_touches_both_ends() {
    let mut g = chain();
    assert!(g.remove_edges_for_port(in_port(2)));
    assert_eq!(g.graph.edges, vec![Edge { from_node: 2, from_port: 0, to_node: 3, to_port: 0 }]);
    let mut d: Vec<usize> = g.dirty_set().iter().copied().collect();
    d.sort();
    assert_eq!(d, vec![1, 2]);
    // The output side of node 2 is a different port.
    assert!(!g.remove_edges_for_port(out_port(1)));
    assert!(g.remove_edge_at(0));
    assert!(!g.remove_edge_at(0));
}

#[test]
fn deleting_selected_nodes_drops_their_edges() {
    let mut g = chain();
    assert!(!g.delete_selected());
    g.handle_selection(2, false);
    assert!(g.delete_selected());
    assert_eq!(ids(&g), vec![1, 3]);
    assert!(g.graph.edges.is_empty());
    assert!(g.selected_node_ids().is_empty());
}

#[test]
fn disconnecting_selected_nodes_keeps_them() {
    let mut g = chain();
    g.handle_selection(3, false);
    assert!(g.disconnect_selected());
    assert_eq!(ids(&g), vec![1, 2, 3]);
    assert_eq!(g.graph.edges, vec![Edge { from_node: 1, from_port: 0, to_node: 2, to_port: 0 }]);
    assert!(!g.disconnect_selected());
}

#[test]
fn duplicating_copies_nodes_and_inner_edges() {
    let mut g = chain();
    g.handle_selection(1, false);
    let pairs = g.duplicate_selected();
    assert_eq!(pairs, vec![(1, 4)]);
    assert_eq!(ids(&g), vec![1, 2, 3, 4]);
    assert_eq!(g.graph.nodes[3].position, Point::new(30, 30));
    assert_eq!(g.graph.nodes[3].title, "N1");
    assert_eq!(g.selected_node_ids(), vec![4]);
    assert_eq!(g.graph.edges.len(), 2);
    // Two selected nodes: every copy takes the same new id, and the edge
    // between them is copied onto it.
    g.handle_selection(2, false);
    g.handle_selection(3, true);
    let pairs = g.duplicate_selected();
    assert_eq!(pairs, vec![(2, 5), (3, 5)]);
    assert_eq!(ids(&g), vec![1, 2, 3, 4, 5, 5]);
    assert_eq!(g.graph.edges.last(), Some(&Edge { from_node: 5, from_port: 0, to_node: 5, to_port: 0 }));
    assert_eq!(g.selected_node_ids(), vec![5]);
}

#[test]
fn clicks_and_marquee_select() {
    let mut g = chain();
    g.handle_selection(1, false);
    g.handle_selection(2, true);
    assert_eq!(sorted_selection(&g), vec![1, 2]);
    g.handle_selection(1, true);
    assert_eq!(sorted_selection(&g), vec![2]);
    assert!(g.is_selected(2));
    // A marquee over nodes 2 and 3 replaces the selection...
    g.select_nodes_in_rect(Rect::new(250, 10, 300, 10), false);
    assert_eq!(sorted_selection(&g), vec![2, 3]);
    // ...or flips each node it covers.
    g.select_nodes_in_rect(Rect::new(50, 10, 200, 10), true);
    assert_eq!(sorted_selection(&g), vec![1, 3]);
    // Touching edges do not count as overlap.
    g.select_nodes_in_rect(Rect::new(100, 0, 100, 10), false);
    assert!(g.selected_node_ids().is_empty());
}

#[test]
fn dragged_nodes_snap_to_the_grid() {
    let mut g = NodeGraph::new(WidgetId::default(), Graph::default());
    g.add_node(node(1, 13, 5));
    g.add_node(node(2, 29, -7));
    g.add_node(node(3, 50, 50));
    g.handle_selection(1, false);
    g.handle_selection(2, true);
    g.snap_after_drag(1);
    let pos: Vec<Point> = g.graph.nodes.iter().map(|n| n.position).collect();
    assert_eq!(pos, vec![Point::new(12, 0), Point::new(24, 0), Point::new(50, 50)]);
    // A node outside the selection snaps alone.
    g.snap_after_drag(3);
    assert_eq!(g.graph.nodes[2].position, Point::new(48, 48));
}

#[test]
fn bounds_cover_every_node() {
    let g = chain();
    assert_eq!(g.graph_bounds(), Some(Rect::new(0, 0, 500, 50)));
    let e = NodeGraph::new(WidgetId::default(), Graph::default());
    assert_eq!(e.graph_bounds(), None);
}

#[test]
fn grid_and_snapping_helpers() {
    let mut g = chain();
    assert!(g.is_grid_visible());
    g.toggle_grid();
    assert!(!g.is_grid_visible());
    g.set_grid_visible(true);
    assert!(g.is_grid_visible());
    assert_eq!(snap_point(Point::new(5, 6)), Point::new(0, 12));
    assert_eq!(snap_point(Point::new(-7, -20)), Point::new(0, -12));
    assert_eq!(rect_from_points(Point::new(10, 2), Point::new(4, 8)), Rect::new(4, 2, 6, 6));
}

#[test]
fn image_files_are_recognised_by_extension() {
    assert!(is_supported_image("/tmp/photo.PNG"));
    assert!(is_supported_image("a.jpeg"));
    assert!(is_supported_image("b.WebP"));
    assert!(!is_supported_image("c.tiff"));
    assert!(!is_supported_image("png"));
    assert!(!is_supported_image(".png"));
    // A trailing separator is ignored, as `Path` ignores it.
    assert!(is_supported_image("dir.png/"));
}

#[test]
fn progress_entries() {
    let mut g = chain();
    g.set_node_error(2, "boom");
    let p = g.node_progress_for(2).unwrap();
    assert_eq!((p.current, p.total, p.label.as_str()), (0, 0, ""));
    assert!(p.is_error());
    g.set_node_progress(2, 3, 10, "step");
    g.set_node_error(2, "late");
    let p = g.node_progress_for(2).unwrap();
    assert_eq!((p.current, p.total, p.label.as_str()), (3, 10, "step"));
    assert_eq!(p.error.as_deref(), Some("late"));
    g.set_node_progress(2, 4, 10, "step");
    assert!(!g.node_progress_for(2).unwrap().is_error());
    g.clear_node_progress(2);
    assert!(g.node_progress_for(2).is_none());
}

use erigui_widgets::event::{Event, EventResult, KeyPressEvent, Key, Modifiers};
use erigui_widgets::add_menu::{AddMenuPortSpec, AddMenuSchema, RegistryEntry};
use erigui_widgets::node_graph::{CanvasKey, Interaction, PointerMove, RightRelease};

#[test]
fn dragging_a_node_moves_the_selection_and_snaps_on_release() {
    let mut g = chain();
    g.handle_selection(2, false);
    // Press on node 1 with shift: it joins the selection and the drag starts.
    assert_eq!(g.press_left(Point::new(10, 10), Point::new(10, 10), true, None, None), EventResult::Consumed);
    assert_eq!(sorted_selection(&g), vec![1, 2]);
    let m = g.pointer_moved(Point::new(17, 13), Point::new(17, 13));
    assert_eq!(m, PointerMove { result: EventResult::Consumed, pan_by: Point::new(0, 0), refresh_hover: false });
    let pos: Vec<Point> = g.graph.nodes.iter().map(|n| n.position).collect();
    assert_eq!(pos, vec![Point::new(7, 3), Point::new(207, 3), Point::new(400, 0)]);
    // No movement, nothing to do.
    let m = g.pointer_moved(Point::new(17, 13), Point::new(17, 13));
    assert_eq!(m.result, EventResult::Ignored);
    assert_eq!(g.release_left(None, false), EventResult::Consumed);
    let pos: Vec<Point> = g.graph.nodes.iter().map(|n| n.position).collect();
    assert_eq!(pos, vec![Point::new(12, 0), Point::new(204, 0), Point::new(400, 0)]);
    // The interaction is over.
    assert_eq!(g.release_left(None, false), EventResult::Ignored);
}

#[test]
fn dragging_from_a_port_links_on_release() {
    let mut g = chain();
    g.press_left(Point::new(90, 30), Point::new(90, 30), false, None, Some(out_port(1)));
    let m = g.pointer_moved(Point::new(300, 40), Point::new(300, 40));
    assert!(m.refresh_hover);
    assert_eq!(g.release_left(Some(in_port(3)), false), EventResult::Consumed);
    assert_eq!(g.graph.edges.len(), 3);
    assert_eq!(g.graph.edges[2], Edge { from_node: 1, from_port: 0, to_node: 3, to_port: 0 });
}

#[test]
fn resizing_keeps_a_minimum_size() {
    let mut g = chain();
    g.press_left(Point::new(95, 45), Point::new(95, 45), false, Some(1), None);
    g.pointer_moved(Point::new(195, 5), Point::new(195, 5));
    assert_eq!(g.graph.nodes[0].size, Size::new(200, 120));
    g.release_left(None, false);
    assert_eq!(g.graph.nodes[0].position, Point::new(0, 0));
}

#[test]
fn empty_canvas_pans_or_draws_a_marquee() {
    let mut g = chain();
    g.press_left(Point::new(150, 300), Point::new(150, 300), false, None, None);
    let m = g.pointer_moved(Point::new(160, 310), Point::new(160, 305));
    assert_eq!(m, PointerMove { result: EventResult::Consumed, pan_by: Point::new(10, 5), refresh_hover: false });
    assert_eq!(g.release_left(None, false), EventResult::Ignored);
    g.press_left(Point::new(150, 300), Point::new(150, 300), true, None, None);
    g.pointer_moved(Point::new(450, 20), Point::new(450, 20));
    assert_eq!(g.release_left(None, false), EventResult::Consumed);
    assert_eq!(sorted_selection(&g), vec![2, 3]);
    // Without an interaction, moves only ask for the hover to be refreshed.
    let m = g.pointer_moved(Point::new(1, 1), Point::new(1, 1));
    assert_eq!(m, PointerMove { result: EventResult::Ignored, pan_by: Point::new(0, 0), refresh_hover: true });
}

#[test]
fn right_clicks_unwire_or_open_the_menu() {
    let mut g = chain();
    // without a registry a click on empty canvas does nothing
    g.press_right(Point::new(0, 0));
    assert_eq!(g.release_right(Point::new(150, 300), None, None, false), RightRelease::Done(EventResult::Ignored));
    g.set_node_registry();
    assert_eq!(g.press_right(Point::new(0, 0)), EventResult::Ignored);
    assert_eq!(g.release_right(Point::new(90, 30), Some(in_port(2)), None, false), RightRelease::Done(EventResult::Consumed));
    assert_eq!(g.graph.edges.len(), 1);
    g.press_right(Point::new(0, 0));
    assert_eq!(g.release_right(Point::new(300, 30), None, Some(0), false), RightRelease::Done(EventResult::Consumed));
    assert!(g.graph.edges.is_empty());
    g.press_right(Point::new(0, 0));
    assert_eq!(g.release_right(Point::new(150, 300), None, None, false), RightRelease::OpenAddMenu);
    g.press_right(Point::new(0, 0));
    assert_eq!(g.release_right(Point::new(10, 10), None, None, false), RightRelease::Done(EventResult::Ignored));
    // A pan that moved is no click.
    g.press_right(Point::new(0, 0));
    g.pointer_moved(Point::new(5, 5), Point::new(5, 5));
    assert_eq!(g.release_right(Point::new(150, 300), None, None, false), RightRelease::Done(EventResult::Ignored));
}

#[test]
fn canvas_keys() {
    let mut g = chain();
    g.pointer_moved(Point::new(50, 200), Point::new(50, 200));
    match g.canvas_key(Key::A) {
        CanvasKey::Done(r) => assert_eq!(r, EventResult::Consumed),
        _ => panic!("A adds a node"),
    }
    assert_eq!(g.graph.nodes.last().unwrap().position, Point::new(48, 204));
    assert!(matches!(g.canvas_key(Key::F), CanvasKey::FitView));
    assert!(matches!(g.canvas_key(Key::Home), CanvasKey::ResetView));
    match g.canvas_key(Key::D) {
        CanvasKey::Duplicated(pairs) => assert_eq!(pairs, vec![(4, 5)]),
        _ => panic!("D duplicates"),
    }
    // Hovering edge 0 and the new copy selected: Delete removes both.
    g.set_hover(None, Some(0));
    match g.canvas_key(Key::Delete) {
        CanvasKey::Done(r) => assert_eq!(r, EventResult::Consumed),
        _ => panic!("Delete removes"),
    }
    assert_eq!(ids(&g), vec![1, 2, 3, 4]);
    assert_eq!(g.graph.edges.len(), 1);
    g.set_hover(None, None);
    assert!(g.selected_node_ids().is_empty());
    match g.canvas_key(Key::Delete) {
        CanvasKey::Done(r) => assert_eq!(r, EventResult::Ignored),
        _ => panic!("nothing to remove"),
    }
    g.handle_selection(3, false);
    assert!(matches!(g.canvas_key(Key::X), CanvasKey::Done(EventResult::Consumed)));
    assert!(g.graph.edges.is_empty());
    assert!(matches!(g.canvas_key(Key::Q), CanvasKey::Done(EventResult::Ignored)));
}

#[test]
fn nodes_and_ports_are_found_in_world_coordinates() {
    let g = chain();
    assert_eq!(g.node_at(Point::new(250, 10)), Some(2));
    assert_eq!(g.node_at(Point::new(150, 10)), None);
    assert_eq!(g.port_point(1, 0, true), Point::new(208, 28));
    assert_eq!(g.port_point(1, 2, false), Point::new(292, 68));
    assert!(g.hit_test(Point::new(1, 1)).is_none());
    let _ = Interaction::Pan { last: Point::new(0, 0), moved: false };
}

#[test]
fn first_selected_node_copies_a_selected_node() {
    let mut g = chain();
    assert!(g.first_selected_node().is_none());
    g.handle_selection(2, false);
    let n = g.first_selected_node().unwrap();
    assert_eq!((n.id, n.title.as_str(), n.position), (2, "N2", Point::new(200, 0)));
    g.handle_selection(3, true);
    let id = g.first_selected_node().unwrap().id;
    assert!(id == 2 || id == 3);
}

#[test]
fn a_saved_graph_state_loads_back() {
    let g = chain();
    let (graph, groups) = g.graph_state();
    assert_eq!(graph.nodes.len(), 3);
    assert_eq!(graph.nodes[1].title, "N2");
    assert_eq!(graph.edges.len(), 2);
    assert!(groups.is_empty());

    let mut h = NodeGraph::new(WidgetId::default(), Graph::default());
    assert!(h.set_node_image(1, vec![7, 7, 7], 1, 1).is_ok());
    assert!(h.node_image_for(1).is_some());
    let group = Group { id: 4, title: "Inputs".into(), rect: Rect::new(0, 0, 300, 100), color: Rgba { r: 1, g: 2, b: 3, a: 255 } };
    h.set_graph_state(graph, vec![group]);
    assert!(h.node_image_for(1).is_none());
    let (back, groups) = h.graph_state();
    let titles: Vec<&str> = back.nodes.iter().map(|n| n.title.as_str()).collect();
    assert_eq!(titles, vec!["N1", "N2", "N3"]);
    assert_eq!(back.edges, g.graph.edges);
    assert_eq!(groups.len(), 1);
    assert_eq!(groups[0].title, "Inputs");
    assert_eq!(groups[0].rect, Rect::new(0, 0, 300, 100));
}

fn registry() -> Vec<RegistryEntry> {
    [("core/load_checkpoint", "Load Checkpoint", "Loaders"), ("core/k_sampler", "K Sampler", "Sampling"), ("core/save_image", "Save Image", "Image")]
        .iter()
        .map(|(t, n, c)| RegistryEntry { type_id: t.to_string(), display_name: n.to_string(), category: c.to_string() })
        .collect()
}

#[test]
fn the_add_menu_inserts_the_picked_type_where_it_opened() {
    let mut g = chain();
    assert!(!g.add_menu_open());
    // nothing to pick while the menu is closed
    assert!(!g.add_menu_pick_first(None));
    // without a registry the menu does not open
    g.open_add_menu_at(Point::new(150, 300), registry());
    assert!(!g.add_menu_open());
    g.set_node_registry();
    g.press_right(Point::new(0, 0));
    assert_eq!(g.release_right(Point::new(150, 300), None, None, false), RightRelease::OpenAddMenu);
    g.open_add_menu_at(Point::new(150, 300), registry());
    assert!(g.add_menu_open());
    assert_eq!(g.add_menu().unwrap().filtered.len(), 3);
    g.add_menu_search("save");
    assert_eq!(g.add_menu().unwrap().filtered, vec!["core/save_image".to_string()]);
    // the registry knows no schema: nothing goes in and the menu stays
    assert!(!g.add_menu_pick_first(None));
    assert!(g.add_menu_open());
    let schema = AddMenuSchema {
        display_name: "Save Image".to_string(),
        category: "Image".to_string(),
        inputs: vec![AddMenuPortSpec { name: "image".to_string() }],
        outputs: vec![],
    };
    assert!(g.add_menu_pick_first(Some(schema)));
    assert!(!g.add_menu_open());
    let n = g.graph.nodes.last().unwrap();
    assert_eq!(g.graph.nodes.len(), 4);
    assert_eq!(n.id, 4);
    assert_eq!(n.title, "Save Image");
    assert_eq!(n.position, Point::new(150, 300));
    assert_eq!(n.component_type, Some("core/save_image".to_string()));
    assert_eq!(n.inputs.len(), 1);
}

#[test]
fn a_left_press_or_escape_closes_the_add_menu() {
    let mut g = chain();
    g.set_node_registry();
    assert!(!g.add_menu_event(&esc()));
    g.open_add_menu_at(Point::new(0, 0), registry());
    assert!(!g.add_menu_event(&Event::KeyPress(KeyPressEvent { key: Key::A, modifiers: Modifiers::empty() })));
    assert!(g.add_menu_open());
    assert!(!g.add_menu_event(&Event::left_button(Point::new(5, 5), false)));
    assert!(g.add_menu_event(&Event::left_button(Point::new(5, 5), true)));
    assert!(!g.add_menu_open());
    g.open_add_menu_at(Point::new(0, 0), registry());
    assert!(g.add_menu_event(&esc()));
    assert!(!g.add_menu_open());
    g.open_add_menu_at(Point::new(0, 0), registry());
    g.close_add_menu();
    assert!(!g.add_menu_open());
}

fn esc() -> Event {
    Event::KeyPress(KeyPressEvent { key: Key::Escape, modifiers: Modifiers::empty() })
}

fn six_types() -> Vec<RegistryEntry> {
    [
        ("core/load_checkpoint", "Load Checkpoint", "Loaders"),
        ("core/load_lora", "Load LoRA", "Loaders"),
        ("core/encode_prompt", "Encode Prompt", "Conditioning"),
        ("core/k_sampler", "K Sampler", "Sampling"),
        ("core/vae_decode", "VAE Decode", "VAE"),
        ("core/save_image", "Save Image", "Image"),
    ]
    .iter()
    .map(|(t, n, c)| RegistryEntry { type_id: t.to_string(), display_name: n.to_string(), category: c.to_string() })
    .collect()
}

fn ng_with_registry() -> NodeGraph {
    let mut g = NodeGraph::new(WidgetId::default(), Graph::default());
    g.set_node_registry();
    g
}

/// A right press and release at `p` (world and screen coincide on a fresh
/// view), opening the menu with the registry's entries when asked to.
fn right_click(g: &mut NodeGraph, p: Point) {
    g.press_right(p);
    if g.release_right(p, None, None, false) == RightRelease::OpenAddMenu {
        g.open_add_menu_at(p, six_types());
    }
}

#[test]
fn right_click_canvas_opens_menu() {
    let mut g = ng_with_registry();
    right_click(&mut g, Point::new(500, 400));
    assert!(g.add_menu_open(), "right-click on empty canvas should open the add-node menu");
}

#[test]
fn right_click_node_does_not_open_menu() {
    let mut g = ng_with_registry();
    g.add_node(Node {
        id: 1,
        title: "T".into(),
        position: Point::new(40, 40),
        size: Size::new(220, 120),
        inputs: vec![],
        outputs: vec![],
        component_type: None,
    });
    let cx = 40 + 110;
    let cy = 40 + 60;
    right_click(&mut g, Point::new(cx, cy));
    assert!(!g.add_menu_open(), "right-click on a node body should NOT open the add-node menu");
}

#[test]
fn select_inserts_node() {
    let mut g = ng_with_registry();
    let before = g.graph.nodes.len();
    right_click(&mut g, Point::new(300, 300));
    assert!(g.add_menu_open());
    let first = g.add_menu().unwrap().resolve_selection().unwrap();
    assert_eq!(first, "core/load_checkpoint");
    let schema = AddMenuSchema {
        display_name: "Load Checkpoint".to_string(),
        category: "Loaders".to_string(),
        inputs: vec![],
        outputs: vec![AddMenuPortSpec { name: "model".to_string() }],
    };
    assert!(g.add_menu_pick_first(Some(schema)));
    assert_eq!(g.graph.nodes.len(), before + 1, "selecting from the menu should append exactly one node");
    assert_eq!(g.graph.nodes.last().unwrap().position, Point::new(300, 300));
    assert!(!g.add_menu_open(), "menu should close after a selection");
}
