use node_graph::arena::Arena;
use node_graph::graph::Graph;
use node_graph::model::ConnectError;
use node_graph::key::{is_regular_key, NodeId, SlotId};
use node_graph::node::{DataType, InputParamKind, Slot};

const INT: DataType = DataType(1);
const REAL: DataType = DataType(2);

fn two_nodes() -> (Graph<&'static str, i32>, NodeId, NodeId) {
    let mut g = Graph::new();
    let a = g.add_node(String::from("source"), "a");
    let b = g.add_node(String::from("sink"), "b");
    (g, a, b)
}

#[test]
fn create_graph() {
    let g = Graph::<f32, f32>::new();
    assert_eq!(g.node_count(), 0);
    assert_eq!(g.slot_count(), 0);
}

#[test]
fn arena_keys_are_regular_and_find_their_records() {
    let mut arena: Arena<char> = Arena::new();
    let a = arena.insert('a');
    let b = arena.insert('b');
    let c = arena.insert('c');
    assert!(is_regular_key(a) && is_regular_key(b) && is_regular_key(c));
    assert!(a != b && b != c && a != c);
    assert_eq!(arena.len(), 3);
    assert_eq!(arena.get(a), Some(&'a'));
    assert_eq!(arena.get(b), Some(&'b'));
    assert_eq!(arena.get(c), Some(&'c'));
    assert_eq!(arena.get(0), None);
    assert_eq!(arena.get(2), None);
}

#[test]
fn arena_remove_keeps_the_other_records_in_place() {
    let mut arena: Arena<u32> = Arena::new();
    let keys: Vec<u64> = (0..6).map(|i| arena.insert(i * 10)).collect();
    assert_eq!(arena.remove(keys[1]), Some(10));
    assert_eq!(arena.remove(keys[1]), None);
    assert_eq!(arena.remove(keys[5]), Some(50));
    assert_eq!(arena.remove(keys[0]), Some(0));
    assert_eq!(arena.len(), 3);
    assert!(!arena.contains(keys[0]));
    assert!(!arena.contains(keys[1]));
    assert_eq!(arena.get(keys[2]), Some(&20));
    assert_eq!(arena.get(keys[3]), Some(&30));
    assert_eq!(arena.get(keys[4]), Some(&40));
    *arena.get_mut(keys[3]) += 1;
    assert_eq!(arena.get(keys[3]), Some(&31));
    assert_eq!(arena.get(keys[4]), Some(&40));
}

#[test]
fn arena_does_not_hand_a_removed_key_out_again() {
    let mut arena: Arena<u8> = Arena::new();
    let first = arena.insert(1);
    assert_eq!(arena.remove(first), Some(1));
    let second = arena.insert(2);
    assert_ne!(first, second);
    assert_eq!(arena.get(first), None);
    assert_eq!(arena.get(second), Some(&2));
}

#[test]
fn add_node_starts_without_slots() {
    let mut g: Graph<u8, ()> = Graph::new();
    let id = g.add_node(String::from("n"), 7);
    assert_eq!(g.node_count(), 1);
    assert!(g.contains_node(id));
    let node = g.node(id).unwrap();
    assert_eq!(node.id, id);
    assert_eq!(node.label, "n");
    assert!(node.inputs.is_empty());
    assert!(node.outputs.is_empty());
    assert_eq!(node.data, 7);
    g.set_root(id);
    assert_eq!(g.node_count(), 1);
}

#[test]
fn slots_are_appended_in_order_and_share_one_key_space() {
    let (mut g, a, _) = two_nodes();
    let i0 = g.add_input_slot(a, String::from("x"), INT, InputParamKind::ConnectionOnly, 5);
    let o0 = g.add_output_slot(a, String::from("sum"), INT);
    let i1 = g.add_input_slot(a, String::from("y"), REAL, InputParamKind::ConstantOnly, 6);
    assert!(i0 != o0 && o0 != i1 && i0 != i1);
    let node = g.node(a).unwrap();
    assert_eq!(node.inputs, vec![(String::from("x"), i0), (String::from("y"), i1)]);
    assert_eq!(node.outputs, vec![(String::from("sum"), o0)]);
    assert!(g.is_input(i0) && g.is_input(i1) && g.is_output(o0));
    assert!(!g.is_output(i0) && !g.is_input(o0));
    assert_eq!(g.slot_type(i0), INT);
    assert_eq!(g.slot_type(i1), REAL);
    assert_eq!(g.slot_type(o0), INT);
    assert_eq!(g.slot_owner(i1), a);
    match g.slot(i1) {
        Some(Slot::Input(input)) => {
            assert_eq!(input.id, i1);
            assert_eq!(input.node, a);
            assert_eq!(input.kind, InputParamKind::ConstantOnly);
            assert_eq!(input.value, 6);
        }
        _ => panic!("an input slot was stored"),
    }
    match g.slot(o0) {
        Some(Slot::Output(output)) => {
            assert_eq!(output.id, o0);
            assert_eq!(output.node, a);
        }
        _ => panic!("an output slot was stored"),
    }
    assert_eq!(g.slot_count(), 3);
}

#[test]
fn connect_stores_the_connection() {
    let (mut g, a, b) = two_nodes();
    let out = g.add_output_slot(a, String::from("out"), INT);
    let input = g.add_input_slot(b, String::from("in"), INT, InputParamKind::ConnectionOnly, 0);
    assert_eq!(g.connection_of(input), None);
    assert_eq!(g.connect(out, input), Ok(()));
    assert_eq!(g.connection_of(input), Some(out));
    assert_eq!(g.connection_of(out), None);
}

#[test]
fn connect_replaces_the_prior_connection() {
    let (mut g, a, b) = two_nodes();
    let c = g.add_node(String::from("other"), "c");
    let out_a = g.add_output_slot(a, String::from("out"), INT);
    let out_c = g.add_output_slot(c, String::from("out"), INT);
    let input = g.add_input_slot(b, String::from("in"), INT, InputParamKind::ConnectionOnly, 0);
    assert_eq!(g.connect(out_a, input), Ok(()));
    assert_eq!(g.connect(out_c, input), Ok(()));
    assert_eq!(g.connection_of(input), Some(out_c));
}

#[test]
fn an_output_fans_out_to_many_inputs() {
    let (mut g, a, b) = two_nodes();
    let out = g.add_output_slot(a, String::from("out"), INT);
    let in0 = g.add_input_slot(b, String::from("p"), INT, InputParamKind::ConnectionOnly, 0);
    let in1 = g.add_input_slot(b, String::from("q"), INT, InputParamKind::ConnectionOnly, 0);
    assert_eq!(g.connect(out, in0), Ok(()));
    assert_eq!(g.connect(out, in1), Ok(()));
    assert_eq!(g.connection_of(in0), Some(out));
    assert_eq!(g.connection_of(in1), Some(out));
}

#[test]
fn connect_declines_a_key_that_is_no_slot() {
    let (mut g, a, b) = two_nodes();
    let out = g.add_output_slot(a, String::from("out"), INT);
    let input = g.add_input_slot(b, String::from("in"), INT, InputParamKind::ConnectionOnly, 0);
    assert_eq!(g.connect(SlotId(0), input), Err(ConnectError::InvalidEndpoint));
    assert_eq!(g.connect(out, SlotId(0x1_0000_0063)), Err(ConnectError::InvalidEndpoint));
    assert_eq!(g.connection_of(input), None);
}

#[test]
fn connect_declines_different_types() {
    let (mut g, a, b) = two_nodes();
    let out = g.add_output_slot(a, String::from("out"), REAL);
    let input = g.add_input_slot(b, String::from("in"), INT, InputParamKind::ConnectionOnly, 0);
    assert_eq!(g.connect(out, input), Err(ConnectError::TypeMismatch));
    assert_eq!(g.connection_of(input), None);
}

#[test]
fn connect_declines_two_slots_of_one_node() {
    let (mut g, a, _) = two_nodes();
    let out = g.add_output_slot(a, String::from("out"), INT);
    let input = g.add_input_slot(a, String::from("in"), INT, InputParamKind::ConnectionOnly, 0);
    assert_eq!(g.connect(out, input), Err(ConnectError::SelfLoop));
    assert_eq!(g.connection_of(input), None);
}

#[test]
fn connect_declines_a_wrong_direction() {
    let (mut g, a, b) = two_nodes();
    let out_a = g.add_output_slot(a, String::from("out"), INT);
    let out_b = g.add_output_slot(b, String::from("out"), INT);
    let in_a = g.add_input_slot(a, String::from("in"), INT, InputParamKind::ConnectionOnly, 0);
    let in_b = g.add_input_slot(b, String::from("in"), INT, InputParamKind::ConnectionOnly, 0);
    assert_eq!(g.connect(in_b, out_a), Err(ConnectError::DirectionError));
    assert_eq!(g.connect(out_a, out_b), Err(ConnectError::DirectionError));
    assert_eq!(g.connect(in_a, in_b), Err(ConnectError::DirectionError));
    assert_eq!(g.connection_of(in_a), None);
    assert_eq!(g.connection_of(in_b), None);
}

#[test]
fn a_type_mismatch_is_reported_before_a_self_loop() {
    let (mut g, a, _) = two_nodes();
    let out = g.add_output_slot(a, String::from("out"), REAL);
    let input = g.add_input_slot(a, String::from("in"), INT, InputParamKind::ConnectionOnly, 0);
    assert_eq!(g.connect(out, input), Err(ConnectError::TypeMismatch));
}

#[test]
fn disconnect_returns_the_source_once() {
    let (mut g, a, b) = two_nodes();
    let out = g.add_output_slot(a, String::from("out"), INT);
    let input = g.add_input_slot(b, String::from("in"), INT, InputParamKind::ConnectionOnly, 0);
    assert_eq!(g.connect(out, input), Ok(()));
    assert_eq!(g.disconnect(input), Some(out));
    assert_eq!(g.connection_of(input), None);
    assert_eq!(g.disconnect(input), None);
    assert_eq!(g.disconnect(SlotId(3)), None);
}

#[test]
fn remove_node_takes_slots_and_connections_along() {
    let mut g: Graph<(), u8> = Graph::new();
    let a = g.add_node(String::from("a"), ());
    let b = g.add_node(String::from("b"), ());
    let c = g.add_node(String::from("c"), ());
    let out_a = g.add_output_slot(a, String::from("out"), INT);
    let in_b = g.add_input_slot(b, String::from("in"), INT, InputParamKind::ConnectionOnly, 0);
    let out_b = g.add_output_slot(b, String::from("out"), INT);
    let in_c = g.add_input_slot(c, String::from("in"), INT, InputParamKind::ConnectionOnly, 0);
    let in_c2 = g.add_input_slot(c, String::from("in2"), INT, InputParamKind::ConnectionOnly, 0);
    assert_eq!(g.connect(out_a, in_b), Ok(()));
    assert_eq!(g.connect(out_b, in_c), Ok(()));
    assert_eq!(g.connect(out_a, in_c2), Ok(()));

    g.remove_node(b);

    assert!(!g.contains_node(b));
    assert!(g.node(b).is_none());
    assert!(!g.contains_slot(in_b));
    assert!(!g.contains_slot(out_b));
    assert!(g.slot(in_b).is_none());
    assert_eq!(g.connection_of(in_b), None);
    assert_eq!(g.connection_of(in_c), None);
    assert_eq!(g.connection_of(in_c2), Some(out_a));
    assert!(g.contains_node(a) && g.contains_node(c));
    assert!(g.contains_slot(out_a) && g.contains_slot(in_c) && g.contains_slot(in_c2));
    assert_eq!(g.node_count(), 2);
    assert_eq!(g.slot_count(), 3);
    assert_eq!(g.connect(out_b, in_c), Err(ConnectError::InvalidEndpoint));
}

#[test]
fn remove_node_twice_changes_nothing_more() {
    let (mut g, a, b) = two_nodes();
    let out = g.add_output_slot(a, String::from("out"), INT);
    g.remove_node(b);
    g.remove_node(b);
    g.remove_node(NodeId(17));
    assert_eq!(g.node_count(), 1);
    assert!(g.contains_slot(out));
}

#[test]
fn a_new_node_does_not_inherit_the_connections_of_a_removed_one() {
    let (mut g, a, b) = two_nodes();
    let out = g.add_output_slot(a, String::from("out"), INT);
    let input = g.add_input_slot(b, String::from("in"), INT, InputParamKind::ConnectionOnly, 0);
    assert_eq!(g.connect(out, input), Ok(()));
    g.remove_node(b);
    let again = g.add_node(String::from("sink"), "again");
    let fresh = g.add_input_slot(again, String::from("in"), INT, InputParamKind::ConnectionOnly, 0);
    assert_ne!(again, b);
    assert_ne!(fresh, input);
    assert_eq!(g.connection_of(fresh), None);
    assert_eq!(g.connection_of(input), None);
    assert_eq!(g.connect(out, fresh), Ok(()));
    assert_eq!(g.connection_of(fresh), Some(out));
    assert_eq!(g.connection_of(input), None);
}

#[test]
fn payload_and_constant_are_changed_in_place() {
    let mut g: Graph<Vec<u8>, String> = Graph::new();
    let a = g.add_node(String::from("a"), vec![1]);
    let b = g.add_node(String::from("b"), vec![2]);
    let input = g.add_input_slot(
        a,
        String::from("in"),
        INT,
        InputParamKind::ConnectionOrConstant,
        String::from("zero"),
    );
    g.node_data_mut(a).push(9);
    *g.input_value_mut(input) = String::from("one");
    assert_eq!(g.node(a).unwrap().data, vec![1, 9]);
    assert_eq!(g.node(b).unwrap().data, vec![2]);
    match g.slot(input) {
        Some(Slot::Input(i)) => assert_eq!(i.value, "one"),
        _ => panic!("an input slot was stored"),
    }
    assert_eq!(g.node(a).unwrap().inputs.len(), 1);
}

#[test]
fn input_kinds_with_a_port() {
    assert!(InputParamKind::ConnectionOnly.shows_port());
    assert!(InputParamKind::ConnectionOrConstant.shows_port());
    assert!(!InputParamKind::ConstantOnly.shows_port());
}

#[test]
fn regular_keys() {
    assert!(is_regular_key(0x0000_0001_0000_0001));
    assert!(is_regular_key(0x0000_0003_0000_0000));
    assert!(!is_regular_key(0x0000_0002_0000_0001));
    assert!(!is_regular_key(0x0000_0001_ffff_ffff));
    assert!(!is_regular_key(0));
}
