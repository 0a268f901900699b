use node_graph::editor::{GraphEditor, NodeFinder};
use node_graph::order::{position_of, remove_first};
use node_graph::response::NodeResponse;
use node_graph::geometry::Rect;
use node_graph::key::{NodeId, SlotId};
use node_graph::math::vector::Vector2;
use node_graph::node::{DataType, InputParamKind};

type Editor = GraphEditor<u8, i32>;
type Response = NodeResponse<&'static str>;

const INT: DataType = DataType(1);

fn p(x: i32, y: i32) -> Vector2<i32> {
    Vector2::new(x, y)
}

fn rect(x0: i32, y0: i32, x1: i32, y1: i32) -> Rect {
    Rect { min: p(x0, y0), max: p(x1, y1) }
}

struct Wired {
    editor: Editor,
    a: NodeId,
    b: NodeId,
    c: NodeId,
    out_a: SlotId,
    in_b: SlotId,
}

fn wired() -> Wired {
    let mut editor = Editor::new();
    let a = editor.add_node(String::from("a"), 1, p(0, 0));
    let b = editor.add_node(String::from("b"), 2, p(100, 0));
    let c = editor.add_node(String::from("c"), 3, p(200, 0));
    let out_a = editor.add_output_slot(a, String::from("out"), INT);
    let in_b = editor.add_input_slot(b, String::from("in"), INT, InputParamKind::ConnectionOnly, 0);
    assert_eq!(editor.connect(out_a, in_b), Ok(()));
    Wired { editor, a, b, c, out_a, in_b }
}

#[test]
fn a_new_session_is_idle_and_empty() {
    let editor = Editor::new();
    assert_eq!(editor.graph().node_count(), 0);
    assert!(editor.node_order().is_empty());
    assert!(editor.selected_nodes().is_empty());
    assert_eq!(editor.connection_in_progress(), None);
    assert_eq!(editor.ongoing_box_selection(), None);
    assert!(editor.node_finder().is_none());
    let editor = Editor::default();
    assert_eq!(editor.graph().node_count(), 0);
    assert!(editor.node_order().is_empty());
    assert_eq!(editor.connection_in_progress(), None);
}

#[test]
fn the_node_finder_is_kept_as_it_is_set() {
    let mut editor = Editor::new();
    editor.set_node_finder(Some(NodeFinder {
        query: String::from("add"),
        position: Some(p(3, 4)),
        just_spawned: true,
    }));
    let finder = editor.node_finder().as_ref().unwrap();
    assert_eq!(finder.query, "add");
    assert_eq!(finder.position, Some(p(3, 4)));
    assert!(finder.just_spawned);
    editor.set_node_finder(None);
    assert!(editor.node_finder().is_none());
}

#[test]
fn added_nodes_go_on_top_at_their_position() {
    let w = wired();
    assert_eq!(w.editor.node_order(), &vec![w.a, w.b, w.c]);
    assert_eq!(w.editor.node_position(w.a), Some(p(0, 0)));
    assert_eq!(w.editor.node_position(w.b), Some(p(100, 0)));
    assert_eq!(w.editor.node_position(w.c), Some(p(200, 0)));
    assert_eq!(w.editor.node_position(NodeId(5)), None);
    assert_eq!(w.editor.graph().connection_of(w.in_b), Some(w.out_a));
}

#[test]
fn raising_moves_a_node_to_the_end_and_is_idempotent() {
    let mut w = wired();
    w.editor.raise_node(w.a);
    assert_eq!(w.editor.node_order(), &vec![w.b, w.c, w.a]);
    w.editor.raise_node(w.a);
    assert_eq!(w.editor.node_order(), &vec![w.b, w.c, w.a]);
    w.editor.raise_node(w.c);
    assert_eq!(w.editor.node_order(), &vec![w.b, w.a, w.c]);
    w.editor.raise_node(NodeId(12));
    assert_eq!(w.editor.node_order(), &vec![w.b, w.a, w.c]);
}

#[test]
fn selecting_replaces_the_selection() {
    let mut w = wired();
    w.editor.select_node(w.a);
    assert_eq!(w.editor.selected_nodes(), &vec![w.a]);
    w.editor.select_node(w.c);
    assert_eq!(w.editor.selected_nodes(), &vec![w.c]);
    w.editor.select_node(NodeId(99));
    assert_eq!(w.editor.selected_nodes(), &vec![w.c]);
}

#[test]
fn moving_adds_the_displacement_and_stops_at_the_edge() {
    let mut w = wired();
    w.editor.move_node(w.b, p(5, -7));
    w.editor.move_node(w.b, p(1, 1));
    assert_eq!(w.editor.node_position(w.b), Some(p(106, -6)));
    assert_eq!(w.editor.node_position(w.a), Some(p(0, 0)));
    w.editor.move_node(w.b, p(i32::MAX, i32::MIN));
    assert_eq!(w.editor.node_position(w.b), Some(p(i32::MAX, i32::MIN)));
    w.editor.move_node(NodeId(4), p(1, 1));
    assert_eq!(w.editor.node_position(NodeId(4)), None);
}

#[test]
fn box_selection_selects_exactly_the_nodes_it_meets() {
    let mut w = wired();
    let rects = vec![
        (w.a, rect(0, 0, 50, 50)),
        (w.b, rect(100, 0, 150, 50)),
        (w.c, rect(200, 0, 250, 50)),
    ];
    w.editor.begin_box_selection(p(160, 60));
    assert_eq!(w.editor.ongoing_box_selection(), Some(p(160, 60)));
    w.editor.update_box_selection(p(40, -10), &rects);
    assert_eq!(w.editor.ongoing_box_selection(), Some(p(160, 60)));
    w.editor.pointer_released();
    assert_eq!(w.editor.ongoing_box_selection(), None);
    let selected = w.editor.selected_nodes();
    assert_eq!(selected.len(), 2);
    assert!(selected.contains(&w.a));
    assert!(selected.contains(&w.b));
    assert!(!selected.contains(&w.c));
}

#[test]
fn box_selection_adds_to_the_selection_and_skips_strangers() {
    let mut w = wired();
    w.editor.select_node(w.c);
    let rects = vec![
        (w.a, rect(0, 0, 50, 50)),
        (NodeId(77), rect(0, 0, 50, 50)),
        (w.a, rect(1, 1, 51, 51)),
    ];
    w.editor.begin_box_selection(p(0, 0));
    w.editor.update_box_selection(p(10, 10), &rects);
    w.editor.update_box_selection(p(10, 10), &rects);
    assert_eq!(w.editor.selected_nodes(), &vec![w.c, w.a]);
}

#[test]
fn without_an_anchor_nothing_is_box_selected() {
    let mut w = wired();
    let rects = vec![(w.a, rect(0, 0, 50, 50))];
    w.editor.update_box_selection(p(10, 10), &rects);
    assert!(w.editor.selected_nodes().is_empty());
}

#[test]
fn removing_a_node_clears_it_from_the_session() {
    let mut w = wired();
    w.editor.select_node(w.a);
    w.editor.start_connection(w.a, w.out_a);
    assert_eq!(w.editor.connection_in_progress(), Some((w.a, w.out_a)));
    assert!(w.editor.remove_node(w.a));
    assert!(!w.editor.remove_node(w.a));
    assert_eq!(w.editor.node_order(), &vec![w.b, w.c]);
    assert!(w.editor.selected_nodes().is_empty());
    assert_eq!(w.editor.node_position(w.a), None);
    assert_eq!(w.editor.connection_in_progress(), None);
    assert_eq!(w.editor.graph().connection_of(w.in_b), None);
    assert!(!w.editor.graph().contains_slot(w.out_a));
    assert_eq!(w.editor.node_position(w.b), Some(p(100, 0)));
}

#[test]
fn a_node_added_after_a_removal_gets_its_own_position() {
    let mut w = wired();
    assert!(w.editor.remove_node(w.c));
    let d = w.editor.add_node(String::from("d"), 4, p(-5, 9));
    assert_ne!(d, w.c);
    assert_eq!(w.editor.node_position(d), Some(p(-5, 9)));
    assert_eq!(w.editor.node_position(w.c), None);
    assert_eq!(w.editor.node_order(), &vec![w.a, w.b, d]);
}

#[test]
fn a_wire_starts_only_when_idle_and_at_a_slot_of_the_node() {
    let mut w = wired();
    w.editor.start_connection(w.b, w.out_a);
    assert_eq!(w.editor.connection_in_progress(), None);
    w.editor.start_connection(w.a, SlotId(1));
    assert_eq!(w.editor.connection_in_progress(), None);
    w.editor.start_connection(w.a, w.out_a);
    assert_eq!(w.editor.connection_in_progress(), Some((w.a, w.out_a)));
    w.editor.start_connection(w.b, w.in_b);
    assert_eq!(w.editor.connection_in_progress(), Some((w.a, w.out_a)));
}

#[test]
fn responses_are_acted_on_in_order() {
    let mut w = wired();
    let in_c = w.editor.add_input_slot(w.c, String::from("in"), INT, InputParamKind::ConnectionOnly, 0);
    let responses: Vec<Response> = vec![
        NodeResponse::User("custom"),
        NodeResponse::CreatedNode(w.a),
        NodeResponse::ConnectEventStarted(w.a, w.out_a),
        NodeResponse::ConnectEventEnded { output: w.out_a, input: in_c },
        NodeResponse::DisconnectEvent { output: w.out_a, input: w.in_b },
        NodeResponse::MoveNode { node: w.c, drag_delta: p(1, 2) },
        NodeResponse::RaiseNode(w.a),
        NodeResponse::SelectNode(w.b),
        NodeResponse::DeleteNodeFull { node_id: w.b },
    ];
    let answers = w.editor.apply_responses(&responses);
    assert!(answers.is_empty());
    assert_eq!(w.editor.connection_in_progress(), Some((w.a, w.out_a)));
    assert_eq!(w.editor.graph().connection_of(in_c), Some(w.out_a));
    assert_eq!(w.editor.graph().connection_of(w.in_b), None);
    assert_eq!(w.editor.node_position(w.c), Some(p(201, 2)));
    assert_eq!(w.editor.node_order(), &vec![w.b, w.c, w.a]);
    assert_eq!(w.editor.selected_nodes(), &vec![w.b]);
    assert!(w.editor.graph().contains_node(w.b));
}

#[test]
fn a_declined_connection_changes_nothing() {
    let mut w = wired();
    let in_a = w.editor.add_input_slot(w.a, String::from("in"), INT, InputParamKind::ConnectionOnly, 0);
    let real_c = w.editor.add_input_slot(
        w.c,
        String::from("in"),
        DataType(2),
        InputParamKind::ConnectionOnly,
        0,
    );
    let responses: Vec<Response> = vec![
        NodeResponse::ConnectEventEnded { output: w.out_a, input: in_a },
        NodeResponse::ConnectEventEnded { output: w.out_a, input: real_c },
        NodeResponse::ConnectEventEnded { output: w.in_b, input: w.out_a },
    ];
    assert!(w.editor.apply_responses(&responses).is_empty());
    assert_eq!(w.editor.graph().connection_of(in_a), None);
    assert_eq!(w.editor.graph().connection_of(real_c), None);
    assert_eq!(w.editor.graph().connection_of(w.in_b), Some(w.out_a));
}

#[test]
fn a_delete_request_removes_the_node_and_is_answered_once() {
    let mut w = wired();
    let responses: Vec<Response> = vec![
        NodeResponse::DeleteNodeUi(w.a),
        NodeResponse::DeleteNodeUi(w.a),
        NodeResponse::RaiseNode(w.a),
    ];
    let answers = w.editor.finish_frame(&responses, false);
    assert_eq!(answers, vec![NodeResponse::DeleteNodeFull { node_id: w.a }]);
    assert!(!w.editor.graph().contains_node(w.a));
    assert_eq!(w.editor.node_order(), &vec![w.b, w.c]);
    assert_eq!(w.editor.graph().connection_of(w.in_b), None);
}

#[test]
fn letting_go_ends_the_wire_and_the_box() {
    let mut w = wired();
    w.editor.start_connection(w.a, w.out_a);
    w.editor.begin_box_selection(p(1, 1));
    let none: Vec<Response> = Vec::new();
    assert!(w.editor.finish_frame(&none, false).is_empty());
    assert_eq!(w.editor.connection_in_progress(), Some((w.a, w.out_a)));
    assert_eq!(w.editor.ongoing_box_selection(), Some(p(1, 1)));
    assert!(w.editor.finish_frame(&none, true).is_empty());
    assert_eq!(w.editor.connection_in_progress(), None);
    assert_eq!(w.editor.ongoing_box_selection(), None);
    assert_eq!(w.editor.graph().connection_of(w.in_b), Some(w.out_a));
}

#[test]
fn payload_and_constant_are_reached_through_the_session() {
    let mut w = wired();
    *w.editor.node_data_mut(w.b) += 40;
    *w.editor.input_value_mut(w.in_b) = -3;
    assert_eq!(w.editor.graph().node(w.b).unwrap().data, 42);
    assert_eq!(w.editor.graph().node(w.a).unwrap().data, 1);
    match w.editor.graph().slot(w.in_b) {
        Some(node_graph::node::Slot::Input(input)) => assert_eq!(input.value, -3),
        _ => panic!("an input slot was stored"),
    }
    assert_eq!(w.editor.disconnect(w.in_b), Some(w.out_a));
    assert_eq!(w.editor.disconnect(w.in_b), None);
}

#[test]
fn first_occurrence_in_a_list() {
    let mut list = vec![NodeId(3), NodeId(5), NodeId(3), NodeId(7)];
    assert_eq!(position_of(&list, NodeId(3)), Some(0));
    assert_eq!(position_of(&list, NodeId(7)), Some(3));
    assert_eq!(position_of(&list, NodeId(4)), None);
    remove_first(&mut list, NodeId(3));
    assert_eq!(list, vec![NodeId(5), NodeId(3), NodeId(7)]);
    remove_first(&mut list, NodeId(4));
    assert_eq!(list, vec![NodeId(5), NodeId(3), NodeId(7)]);
}
