use lib::parse_state::ParseState;
use lib::toplevel::{
    toplevel_children_read, toplevel_find, toplevel_next_child, toplevel_node_read, ChildAction, ToplevelAction,
    ToplevelEvent, ToplevelState, STREAMING_CHILDREN,
};

fn fresh() -> ToplevelState {
    ToplevelState { names: Vec::new(), num_children: Vec::new(), parsed_to_end: false, current: None, child_index: 0 }
}

#[test]
fn reading_on_to_a_node() {
    let mut st = fresh();
    assert_eq!(toplevel_find(&mut st, b"Objects"), ToplevelAction::ParseNode);
    // a node that is not the one looked for has its children read whole
    let a = toplevel_node_read(&mut st, b"Objects", ToplevelEvent::Node(b"Definitions".to_vec()));
    assert_eq!(a, ToplevelAction::ParseChildren(ParseState::Definitions));
    assert_eq!(toplevel_children_read(&mut st, 3), ToplevelAction::ParseNode);
    // the node looked for is handed out while its children are read
    let a = toplevel_node_read(&mut st, b"Objects", ToplevelEvent::Node(b"Objects".to_vec()));
    assert_eq!(a, ToplevelAction::Found);
    assert_eq!((st.current, st.child_index), (Some(1), STREAMING_CHILDREN));
    assert_eq!(toplevel_next_child(&mut st), ChildAction::ReadChild(ParseState::Objects));
}

#[test]
fn nodes_read_already_are_found_again() {
    let mut st = fresh();
    toplevel_node_read(&mut st, b"X", ToplevelEvent::Node(b"Definitions".to_vec()));
    toplevel_children_read(&mut st, 2);
    assert_eq!(toplevel_find(&mut st, b"Definitions"), ToplevelAction::Found);
    assert_eq!(toplevel_next_child(&mut st), ChildAction::Child(0));
    assert_eq!(toplevel_next_child(&mut st), ChildAction::Child(1));
    assert_eq!(toplevel_next_child(&mut st), ChildAction::NoChild);
}

#[test]
fn end_of_file() {
    let mut st = fresh();
    assert_eq!(toplevel_node_read(&mut st, b"Takes", ToplevelEvent::End), ToplevelAction::NotFound);
    assert!(st.parsed_to_end);
    assert_eq!(toplevel_find(&mut st, b"Takes"), ToplevelAction::NotFound);
    assert_eq!(toplevel_next_child(&mut st), ChildAction::NoChild);
}
