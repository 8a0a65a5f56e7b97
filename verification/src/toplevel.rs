//! Finding the top-level nodes of an FBX file on demand: nodes read so far
//! are kept; a node not read yet is looked for by reading on, keeping
//! every node passed on the way whole, and the node looked for is handed
//! out child by child as its children are read.
use vstd::prelude::*;
use crate::parse_state::{ParseState, spec_update_parse_state, update_parse_state};

verus! {

/// The child position of a top-level node whose children are still being
/// read from the file.
pub const STREAMING_CHILDREN: usize = usize::MAX;

/// The top-level nodes read so far (their names and child counts), whether
/// the file has been read to its end, the node being handed out and the
/// position of its next child.
#[derive(Clone, Debug)]
pub struct ToplevelState {
    pub names: Vec<Vec<u8>>,
    pub num_children: Vec<usize>,
    pub parsed_to_end: bool,
    pub current: Option<usize>,
    pub child_index: usize,
}

/// Whether the lists of names and of child counts go together and the
/// current node is one of them.
pub open spec fn toplevel_wf(st: ToplevelState) -> bool {
    &&& st.names@.len() == st.num_children@.len()
    &&& st.current matches Some(i) ==> i < st.names@.len()
}

/// What the reader does next: the node is found, there is none, read the
/// next top-level node, or read all children of the node just read, in
/// the given state.
#[derive(Clone, Copy, Debug, PartialEq, Eq, Structural)]
pub enum ToplevelAction {
    Found,
    NotFound,
    ParseNode,
    ParseChildren(ParseState),
}

/// The first top-level node read so far named `name`.
pub open spec fn spec_find_top(names: Seq<Vec<u8>>, name: Seq<u8>, from: int) -> Option<int>
    decreases names.len() - from,
{
    if from < 0 || from >= names.len() {
        None
    } else if names[from]@ == name {
        Some(from)
    } else {
        spec_find_top(names, name, from + 1)
    }
}

/// Starts looking for the top-level node `name`: a node read already is
/// found and handed out from its first child; else, at the end of the file,
/// there is none; else the next node is to be read.
pub fn toplevel_find(st: &mut ToplevelState, name: &[u8]) -> (r: ToplevelAction)
    requires
        toplevel_wf(*old(st)),
    ensures
        toplevel_wf(*final(st)),
        match spec_find_top(old(st).names@, name@, 0) {
            Some(i) => r == ToplevelAction::Found && *final(st) == (ToplevelState {
                current: Some(i as usize),
                child_index: 0,
                ..*old(st)
            }),
            None => if old(st).parsed_to_end {
                r == ToplevelAction::NotFound && *final(st) == (ToplevelState { current: None, child_index: 0, ..*old(st) })
            } else {
                r == ToplevelAction::ParseNode && *final(st) == *old(st)
            },
        },
{
    let mut i: usize = 0;
    while i < st.names.len()
        invariant
            *st == *old(st),
            toplevel_wf(*st),
            i <= st.names@.len(),
            spec_find_top(st.names@, name@, i as int) == spec_find_top(st.names@, name@, 0),
        decreases st.names@.len() - i,
    {
        if crate::obj::bytes_equal(st.names[i].as_slice(), name) {
            st.current = Some(i);
            st.child_index = 0;
            return ToplevelAction::Found;
        }
        i = i + 1;
    }
    if st.parsed_to_end {
        st.current = None;
        st.child_index = 0;
        return ToplevelAction::NotFound;
    }
    ToplevelAction::ParseNode
}

/// What reading a top-level node gave: the end of the file, or a node with
/// its name.
#[derive(Clone, Debug)]
pub enum ToplevelEvent {
    End,
    Node(Vec<u8>),
}

/// Takes in what reading the next top-level node gave while looking for
/// `name`: at the end of the file there is none; a node is kept, and is
/// either the one looked for (handed out while its children are read) or
/// has all its children read next.
pub fn toplevel_node_read(st: &mut ToplevelState, name: &[u8], ev: ToplevelEvent) -> (r: ToplevelAction)
    requires
        toplevel_wf(*old(st)),
    ensures
        toplevel_wf(*final(st)),
        match ev {
            ToplevelEvent::End => r == ToplevelAction::NotFound && *final(st) == (ToplevelState {
                current: None,
                child_index: 0,
                parsed_to_end: true,
                ..*old(st)
            }),
            ToplevelEvent::Node(n) => {
                &&& final(st).names@ == old(st).names@.push(n)
                &&& final(st).num_children@ == old(st).num_children@.push(0)
                &&& final(st).parsed_to_end == old(st).parsed_to_end
                &&& if n@ == name@ {
                    &&& r == ToplevelAction::Found
                    &&& final(st).current == Some(old(st).names@.len() as usize)
                    &&& final(st).child_index == STREAMING_CHILDREN
                } else {
                    &&& r == ToplevelAction::ParseChildren(spec_update_parse_state(ParseState::Root, n@))
                    &&& final(st).current == old(st).current
                    &&& final(st).child_index == old(st).child_index
                }
            },
        },
{
    match ev {
        ToplevelEvent::End => {
            st.current = None;
            st.child_index = 0;
            st.parsed_to_end = true;
            ToplevelAction::NotFound
        },
        ToplevelEvent::Node(n) => {
            let found = crate::obj::bytes_equal(n.as_slice(), name);
            let state = update_parse_state(ParseState::Root, n.as_slice());
            let ix = st.names.len();
            st.names.push(n);
            st.num_children.push(0);
            if found {
                st.current = Some(ix);
                st.child_index = STREAMING_CHILDREN;
                ToplevelAction::Found
            } else {
                ToplevelAction::ParseChildren(state)
            }
        },
    }
}

/// Records that the top-level node read last has `count` children; the
/// next node is read then.
pub fn toplevel_children_read(st: &mut ToplevelState, count: usize) -> (r: ToplevelAction)
    requires
        toplevel_wf(*old(st)),
        old(st).names@.len() > 0,
    ensures
        toplevel_wf(*final(st)),
        r == ToplevelAction::ParseNode,
        *final(st) == (ToplevelState {
            num_children: final(st).num_children,
            ..*old(st)
        }),
        final(st).num_children@ == old(st).num_children@.update(old(st).num_children@.len() - 1, count),
{
    let last = st.num_children.len() - 1;
    st.num_children.set(last, count);
    ToplevelAction::ParseNode
}

/// The next child of the node being handed out: none without a node or
/// past its last child; the child at a position of a node read whole; or
/// a child to read from the file, in the given state.
#[derive(Clone, Copy, Debug, PartialEq, Eq, Structural)]
pub enum ChildAction {
    NoChild,
    Child(usize),
    ReadChild(ParseState),
}

/// Hands out the next child of the current top-level node (see
/// `ChildAction`).
pub fn toplevel_next_child(st: &mut ToplevelState) -> (r: ChildAction)
    requires
        toplevel_wf(*old(st)),
    ensures
        toplevel_wf(*final(st)),
        match old(st).current {
            None => r == ChildAction::NoChild && *final(st) == *old(st),
            Some(i) => if old(st).child_index == STREAMING_CHILDREN {
                r == ChildAction::ReadChild(spec_update_parse_state(ParseState::Root, old(st).names@[i as int]@))
                    && *final(st) == *old(st)
            } else if old(st).child_index == old(st).num_children@[i as int] {
                r == ChildAction::NoChild && *final(st) == *old(st)
            } else {
                r == ChildAction::Child(old(st).child_index) && *final(st) == (ToplevelState {
                    child_index: (old(st).child_index + 1) as usize,
                    ..*old(st)
                })
            },
        },
{
    match st.current {
        None => ChildAction::NoChild,
        Some(i) => {
            if st.child_index == STREAMING_CHILDREN {
                ChildAction::ReadChild(update_parse_state(ParseState::Root, st.names[i].as_slice()))
            } else if st.child_index == st.num_children[i] {
                ChildAction::NoChild
            } else {
                let c = st.child_index;
                st.child_index = c + 1;
                ChildAction::Child(c)
            }
        },
    }
}

} // verus!
