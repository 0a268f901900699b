use node_graph::editor::GraphEditor;
use node_graph::response::NodeResponse;
use node_graph::key::{NodeId, SlotId};
use node_graph::math::vector::Vector2;
use node_graph::node::{DataType, InputParamKind};
use node_graph::widget::{NodeFrame, NodeWidget, PortInput};

type Editor = GraphEditor<u8, i32>;
type Response = NodeResponse<&'static str>;

const INT: DataType = DataType(1);
const REAL: DataType = DataType(2);

fn p(x: i32, y: i32) -> Vector2<i32> {
    Vector2::new(x, y)
}

struct Scene {
    editor: Editor,
    a: NodeId,
    b: NodeId,
    out_a: SlotId,
    in_a: SlotId,
    in_b: SlotId,
    real_b: SlotId,
    constant_b: SlotId,
    out_b: SlotId,
}

fn scene() -> Scene {
    let mut editor = Editor::new();
    let a = editor.add_node(String::from("a"), 1, p(0, 0));
    let b = editor.add_node(String::from("b"), 2, p(300, 0));
    let out_a = editor.add_output_slot(a, String::from("out"), INT);
    let in_a = editor.add_input_slot(a, String::from("in"), INT, InputParamKind::ConnectionOnly, 0);
    let in_b = editor.add_input_slot(b, String::from("in"), INT, InputParamKind::ConnectionOnly, 0);
    let real_b =
        editor.add_input_slot(b, String::from("real"), REAL, InputParamKind::ConnectionOrConstant, 0);
    let constant_b =
        editor.add_input_slot(b, String::from("k"), INT, InputParamKind::ConstantOnly, 0);
    let out_b = editor.add_output_slot(b, String::from("out"), INT);
    Scene { editor, a, b, out_a, in_a, in_b, real_b, constant_b, out_b }
}

fn quiet(ports: Vec<PortInput>) -> NodeFrame {
    NodeFrame {
        ports,
        pointer: None,
        any_released: false,
        can_delete: true,
        close_clicked: false,
        drag_delta: p(0, 0),
        clicked: false,
    }
}

fn port(slot: SlotId, x: i32, y: i32) -> PortInput {
    PortInput { slot, position: p(x, y), drag_started: false }
}

fn show(s: &Scene, node: NodeId, frame: &NodeFrame, user: Vec<Response>) -> Vec<Response> {
    let widget = NodeWidget {
        graph: s.editor.graph(),
        node_id: node,
        ongoing_drag: s.editor.connection_in_progress(),
    };
    widget.show(frame, user)
}

#[test]
fn a_quiet_frame_gives_no_response() {
    let s = scene();
    let frame = quiet(vec![port(s.in_b, 300, 20), port(s.out_b, 400, 20)]);
    assert!(show(&s, s.b, &frame, Vec::new()).is_empty());
}

#[test]
fn a_drag_from_an_output_starts_a_wire() {
    let mut s = scene();
    let mut frame = quiet(vec![port(s.in_a, 0, 20), port(s.out_a, 100, 20)]);
    frame.ports[1].drag_started = true;
    let responses = show(&s, s.a, &frame, Vec::new());
    assert_eq!(responses, vec![NodeResponse::ConnectEventStarted(s.a, s.out_a)]);
    assert!(s.editor.finish_frame(&responses, false).is_empty());
    assert_eq!(s.editor.connection_in_progress(), Some((s.a, s.out_a)));
}

#[test]
fn a_wire_let_go_within_reach_of_a_matching_input_connects() {
    let mut s = scene();
    s.editor.start_connection(s.a, s.out_a);
    let mut frame = quiet(vec![port(s.in_b, 300, 20), port(s.real_b, 300, 40), port(s.out_b, 400, 20)]);
    frame.pointer = Some(p(306, 27));
    frame.any_released = true;
    let responses = show(&s, s.b, &frame, Vec::new());
    assert_eq!(responses, vec![NodeResponse::ConnectEventEnded { output: s.out_a, input: s.in_b }]);
    assert!(s.editor.finish_frame(&responses, true).is_empty());
    assert_eq!(s.editor.graph().connection_of(s.in_b), Some(s.out_a));
    assert_eq!(s.editor.connection_in_progress(), None);
}

#[test]
fn a_wire_from_an_input_connects_to_an_output_it_lands_on() {
    let mut s = scene();
    s.editor.start_connection(s.b, s.in_b);
    let mut frame = quiet(vec![port(s.in_a, 0, 20), port(s.out_a, 100, 20)]);
    frame.pointer = Some(p(100, 20));
    frame.any_released = true;
    let responses = show(&s, s.a, &frame, Vec::new());
    assert_eq!(responses, vec![NodeResponse::ConnectEventEnded { output: s.out_a, input: s.in_b }]);
    s.editor.finish_frame(&responses, true);
    assert_eq!(s.editor.graph().connection_of(s.in_b), Some(s.out_a));
}

#[test]
fn a_wire_let_go_out_of_reach_is_abandoned() {
    let mut s = scene();
    s.editor.start_connection(s.a, s.out_a);
    let mut frame = quiet(vec![port(s.in_b, 300, 20)]);
    frame.pointer = Some(p(310, 20));
    frame.any_released = true;
    let responses = show(&s, s.b, &frame, Vec::new());
    assert!(responses.is_empty());
    assert!(s.editor.finish_frame(&responses, true).is_empty());
    assert_eq!(s.editor.connection_in_progress(), None);
    assert_eq!(s.editor.graph().connection_of(s.in_b), None);
    assert_eq!(s.editor.graph().slot_count(), 6);
}

#[test]
fn a_wire_does_not_land_while_the_button_is_held() {
    let mut s = scene();
    s.editor.start_connection(s.a, s.out_a);
    let mut frame = quiet(vec![port(s.in_b, 300, 20)]);
    frame.pointer = Some(p(300, 20));
    let responses = show(&s, s.b, &frame, Vec::new());
    assert!(responses.is_empty());
    s.editor.finish_frame(&responses, false);
    assert_eq!(s.editor.connection_in_progress(), Some((s.a, s.out_a)));
}

#[test]
fn a_wire_does_not_land_on_another_type() {
    let mut s = scene();
    s.editor.start_connection(s.a, s.out_a);
    let mut frame = quiet(vec![port(s.real_b, 300, 40)]);
    frame.pointer = Some(p(300, 40));
    frame.any_released = true;
    assert!(show(&s, s.b, &frame, Vec::new()).is_empty());
    s.editor.finish_frame::<&'static str>(&Vec::new(), true);
    assert_eq!(s.editor.graph().connection_of(s.real_b), None);
}

#[test]
fn a_wire_does_not_land_on_its_own_node() {
    let mut s = scene();
    s.editor.start_connection(s.a, s.out_a);
    let mut frame = quiet(vec![port(s.in_a, 0, 20), port(s.out_a, 100, 20)]);
    frame.pointer = Some(p(0, 20));
    frame.any_released = true;
    assert!(show(&s, s.a, &frame, Vec::new()).is_empty());
}

#[test]
fn a_wire_between_two_outputs_ends_in_nothing() {
    let mut s = scene();
    s.editor.start_connection(s.a, s.out_a);
    let mut frame = quiet(vec![port(s.out_b, 400, 20)]);
    frame.pointer = Some(p(400, 20));
    frame.any_released = true;
    assert!(show(&s, s.b, &frame, Vec::new()).is_empty());
}

#[test]
fn a_drag_off_a_connected_input_disconnects_it() {
    let mut s = scene();
    assert_eq!(s.editor.connect(s.out_a, s.in_b), Ok(()));
    let mut frame = quiet(vec![port(s.in_b, 300, 20), port(s.out_b, 400, 20)]);
    frame.ports[0].drag_started = true;
    let responses = show(&s, s.b, &frame, Vec::new());
    assert_eq!(responses, vec![NodeResponse::DisconnectEvent { output: s.out_a, input: s.in_b }]);
    assert!(s.editor.finish_frame(&responses, false).is_empty());
    assert_eq!(s.editor.graph().connection_of(s.in_b), None);
    assert_eq!(s.editor.connection_in_progress(), None);
}

#[test]
fn a_drag_off_an_unconnected_input_starts_a_wire() {
    let s = scene();
    let mut frame = quiet(vec![port(s.in_b, 300, 20)]);
    frame.ports[0].drag_started = true;
    let responses = show(&s, s.b, &frame, Vec::new());
    assert_eq!(responses, vec![NodeResponse::ConnectEventStarted(s.b, s.in_b)]);
}

#[test]
fn a_drag_that_starts_while_a_wire_is_in_progress_is_ignored() {
    let mut s = scene();
    s.editor.start_connection(s.a, s.out_a);
    let mut frame = quiet(vec![port(s.out_b, 400, 20)]);
    frame.ports[0].drag_started = true;
    assert!(show(&s, s.b, &frame, Vec::new()).is_empty());
}

#[test]
fn an_input_for_constants_only_has_no_port() {
    let mut s = scene();
    s.editor.start_connection(s.a, s.out_a);
    let mut frame = quiet(vec![port(s.constant_b, 300, 60)]);
    frame.ports[0].drag_started = true;
    frame.pointer = Some(p(300, 60));
    frame.any_released = true;
    assert!(show(&s, s.b, &frame, Vec::new()).is_empty());
    s.editor.pointer_released();
    assert!(show(&s, s.b, &frame, Vec::new()).is_empty());
}

#[test]
fn a_plain_click_selects_and_raises() {
    let mut s = scene();
    let mut frame = quiet(vec![port(s.in_a, 0, 20), port(s.out_a, 100, 20)]);
    frame.clicked = true;
    let responses = show(&s, s.a, &frame, Vec::new());
    assert_eq!(responses, vec![NodeResponse::SelectNode(s.a), NodeResponse::RaiseNode(s.a)]);
    s.editor.finish_frame(&responses, true);
    assert_eq!(s.editor.selected_nodes(), &vec![s.a]);
    assert_eq!(s.editor.node_order(), &vec![s.b, s.a]);
}

#[test]
fn a_drag_of_the_body_moves_and_raises_and_is_no_click() {
    let mut s = scene();
    let mut frame = quiet(Vec::new());
    frame.drag_delta = p(0, -3);
    frame.clicked = true;
    let responses = show(&s, s.a, &frame, Vec::new());
    assert_eq!(
        responses,
        vec![NodeResponse::MoveNode { node: s.a, drag_delta: p(0, -3) }, NodeResponse::RaiseNode(s.a)]
    );
    s.editor.finish_frame(&responses, false);
    assert_eq!(s.editor.node_position(s.a), Some(p(0, -3)));
    assert!(s.editor.selected_nodes().is_empty());
    assert_eq!(s.editor.node_order(), &vec![s.b, s.a]);
}

#[test]
fn the_close_button_asks_for_deletion_only_where_allowed() {
    let s = scene();
    let mut frame = quiet(Vec::new());
    frame.close_clicked = true;
    frame.clicked = true;
    assert_eq!(show(&s, s.b, &frame, Vec::new()), vec![NodeResponse::DeleteNodeUi(s.b)]);
    frame.can_delete = false;
    assert_eq!(
        show(&s, s.b, &frame, Vec::new()),
        vec![NodeResponse::SelectNode(s.b), NodeResponse::RaiseNode(s.b)]
    );
}

#[test]
fn the_embedders_responses_come_first_and_count_as_responses() {
    let s = scene();
    let mut frame = quiet(vec![port(s.out_a, 100, 20)]);
    frame.clicked = true;
    frame.ports[0].drag_started = true;
    frame.drag_delta = p(2, 0);
    frame.close_clicked = true;
    let responses = show(&s, s.a, &frame, vec![NodeResponse::User("pressed")]);
    assert_eq!(
        responses,
        vec![
            NodeResponse::User("pressed"),
            NodeResponse::ConnectEventStarted(s.a, s.out_a),
            NodeResponse::DeleteNodeUi(s.a),
            NodeResponse::MoveNode { node: s.a, drag_delta: p(2, 0) },
            NodeResponse::RaiseNode(s.a),
        ]
    );
    let mut frame = quiet(Vec::new());
    frame.clicked = true;
    assert_eq!(
        show(&s, s.a, &frame, vec![NodeResponse::User("pressed")]),
        vec![NodeResponse::User("pressed")]
    );
}

#[test]
fn a_port_gives_what_its_drag_started_before_what_a_wire_ended_in() {
    let s = scene();
    let widget = NodeWidget { graph: s.editor.graph(), node_id: s.b, ongoing_drag: None };
    let mut responses: Vec<Response> = vec![NodeResponse::User("kept")];
    let started = PortInput { slot: s.out_b, position: p(400, 20), drag_started: true };
    widget.draw_port(started, Some(p(400, 20)), true, &mut responses);
    assert_eq!(
        responses,
        vec![NodeResponse::User("kept"), NodeResponse::ConnectEventStarted(s.b, s.out_b)]
    );
}
