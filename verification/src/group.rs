//! Splitting a buffered element into its direct children.
use vstd::prelude::*;
use crate::event::{EventModel, XmlEvent, copy_bytes};
use crate::names::{local_name, split_name};

verus! {

/// A direct child of a buffered element: its local name and all of its events,
/// from its start (or empty) tag to its end tag.
pub struct Child {
    pub name: Vec<u8>,
    pub events: Vec<XmlEvent>,
}

pub struct ChildModel {
    pub name: Seq<u8>,
    pub events: Seq<EventModel>,
}

impl View for Child {
    type V = ChildModel;

    open spec fn view(&self) -> ChildModel {
        ChildModel { name: self.name@, events: self.events.deep_view() }
    }
}

impl DeepView for Child {
    type V = ChildModel;

    open spec fn deep_view(&self) -> ChildModel {
        self@
    }
}

/// The state of the grouping walk: the children found so far, the events of
/// the child being collected, its name, and the nesting depth.
pub struct GroupModel {
    pub children: Seq<ChildModel>,
    pub block: Seq<EventModel>,
    pub name: Seq<u8>,
    pub depth: int,
}

pub open spec fn group_init() -> GroupModel {
    GroupModel { children: Seq::empty(), block: Seq::empty(), name: Seq::empty(), depth: 0 }
}

/// One event of the walk. Depth 0 is outside the buffered element and depth 1
/// is its content: a tag that opens at depth 1 starts a child, which is complete
/// when the depth comes back to 1. Other content at depth 1 is dropped.
pub open spec fn group_step(g: GroupModel, ev: EventModel) -> GroupModel {
    match ev {
        EventModel::Start(t) => {
            let name = if g.depth == 1 { local_name(t.name) } else { g.name };
            let depth = g.depth + 1;
            let block = if depth > 1 { g.block.push(ev) } else { g.block };
            GroupModel { children: g.children, block, name, depth }
        },
        EventModel::Empty(t) => {
            if g.depth == 1 {
                GroupModel {
                    children: g.children.push(
                        ChildModel { name: local_name(t.name), events: g.block.push(ev) },
                    ),
                    block: Seq::empty(),
                    name: Seq::empty(),
                    depth: g.depth,
                }
            } else if g.depth > 1 {
                GroupModel { block: g.block.push(ev), ..g }
            } else {
                g
            }
        },
        EventModel::End(_) => {
            let depth = g.depth - 1;
            if depth == 1 {
                GroupModel {
                    children: g.children.push(ChildModel { name: g.name, events: g.block.push(ev) }),
                    block: Seq::empty(),
                    name: Seq::empty(),
                    depth,
                }
            } else if depth > 1 {
                GroupModel { block: g.block.push(ev), depth, ..g }
            } else {
                GroupModel { depth, ..g }
            }
        },
        _ => {
            if g.depth > 1 {
                GroupModel { block: g.block.push(ev), ..g }
            } else {
                g
            }
        },
    }
}

pub open spec fn group_walk(evs: Seq<EventModel>) -> GroupModel
    decreases evs.len(),
{
    if evs.len() == 0 {
        group_init()
    } else {
        group_step(group_walk(evs.drop_last()), evs.last())
    }
}

/// The direct children of a buffered element, in document order.
pub open spec fn children_of(evs: Seq<EventModel>) -> Seq<ChildModel> {
    group_walk(evs).children
}

/// Groups the events of a buffered element (its own start tag first) into its
/// direct children.
pub fn group_children(buffer: &[XmlEvent]) -> (r: Vec<Child>)
    ensures
        r.deep_view() == children_of(buffer.deep_view()),
{
    let mut children: Vec<Child> = Vec::new();
    let mut block: Vec<XmlEvent> = Vec::new();
    let mut name: Vec<u8> = Vec::new();
    let mut depth: i128 = 0;
    let mut i: usize = 0;
    while i < buffer.len()
        invariant
            i <= buffer@.len(),
            -(i as int) <= depth <= i,
            ({
                let g = group_walk(buffer.deep_view().subrange(0, i as int));
                &&& children.deep_view() == g.children
                &&& block.deep_view() == g.block
                &&& name@ == g.name
                &&& depth == g.depth
            }),
        decreases buffer@.len() - i,
    {
        let ghost prev = buffer.deep_view().subrange(0, i as int);
        assert(buffer.deep_view().subrange(0, i + 1).drop_last() =~= prev);
        let ghost b0 = block.deep_view();
        let ghost c0 = children.deep_view();
        match &buffer[i] {
            XmlEvent::Start(t) => {
                if depth == 1 {
                    let (_, local) = split_name(t.name.as_slice());
                    name = copy_bytes(local);
                }
                depth = depth + 1;
                if depth > 1 {
                    block.push(buffer[i].copy());
                    assert(block.deep_view() =~= b0.push(buffer@[i as int]@));
                }
            },
            XmlEvent::Empty(t) => {
                if depth == 1 {
                    let (_, local) = split_name(t.name.as_slice());
                    block.push(buffer[i].copy());
                    assert(block.deep_view() =~= b0.push(buffer@[i as int]@));
                    let mut done: Vec<XmlEvent> = Vec::new();
                    std::mem::swap(&mut block, &mut done);
                    children.push(Child { name: copy_bytes(local), events: done });
                    assert(children.deep_view() =~= c0.push(
                        ChildModel { name: local@, events: b0.push(buffer@[i as int]@) },
                    ));
                    name = Vec::new();
                    assert(block.deep_view() =~= Seq::<EventModel>::empty());
                    assert(name@ =~= Seq::<u8>::empty());
                } else if depth > 1 {
                    block.push(buffer[i].copy());
                    assert(block.deep_view() =~= b0.push(buffer@[i as int]@));
                }
            },
            XmlEvent::End(_) => {
                depth = depth - 1;
                if depth == 1 {
                    block.push(buffer[i].copy());
                    assert(block.deep_view() =~= b0.push(buffer@[i as int]@));
                    let mut done: Vec<XmlEvent> = Vec::new();
                    std::mem::swap(&mut block, &mut done);
                    let mut done_name: Vec<u8> = Vec::new();
                    std::mem::swap(&mut name, &mut done_name);
                    let ghost n0 = done_name@;
                    children.push(Child { name: done_name, events: done });
                    assert(children.deep_view() =~= c0.push(
                        ChildModel { name: n0, events: b0.push(buffer@[i as int]@) },
                    ));
                    assert(block.deep_view() =~= Seq::<EventModel>::empty());
                    assert(name@ =~= Seq::<u8>::empty());
                } else if depth > 1 {
                    block.push(buffer[i].copy());
                    assert(block.deep_view() =~= b0.push(buffer@[i as int]@));
                }
            },
            _ => {
                if depth > 1 {
                    block.push(buffer[i].copy());
                    assert(block.deep_view() =~= b0.push(buffer@[i as int]@));
                }
            },
        }
        i = i + 1;
    }
    assert(buffer.deep_view().subrange(0, buffer@.len() as int) =~= buffer.deep_view());
    children
}

/// The first child with the given name, if any (`children.iter().find(..)`).
pub open spec fn find_child(children: Seq<ChildModel>, name: Seq<u8>) -> Option<int>
    decreases children.len(),
{
    if children.len() == 0 {
        None
    } else if children[0].name == name {
        Some(0)
    } else {
        match find_child(children.drop_first(), name) {
            Some(i) => Some(i + 1),
            None => None,
        }
    }
}

pub proof fn lemma_find_child(children: Seq<ChildModel>, name: Seq<u8>)
    ensures
        match find_child(children, name) {
            Some(i) => 0 <= i < children.len() && children[i].name == name && forall|j: int|
                0 <= j < i ==> children[j].name != name,
            None => forall|j: int| 0 <= j < children.len() ==> children[j].name != name,
        },
    decreases children.len(),
{
    if children.len() > 0 && children[0].name != name {
        let rest = children.drop_first();
        lemma_find_child(rest, name);
        assert forall|j: int| 0 < j < children.len() implies children[j] == rest[j - 1] by {}
    }
}

/// Index of the first child named `name`.
pub fn find_child_index(children: &Vec<Child>, name: &[u8]) -> (r: Option<usize>)
    ensures
        r matches Some(i) ==> find_child(children.deep_view(), name@) == Some(i as int) && i
            < children@.len(),
        r is None ==> find_child(children.deep_view(), name@) is None,
{
    proof {
        lemma_find_child(children.deep_view(), name@);
    }
    let mut i: usize = 0;
    while i < children.len()
        invariant
            i <= children@.len(),
            forall|j: int| 0 <= j < i ==> children.deep_view()[j].name != name@,
            match find_child(children.deep_view(), name@) {
                Some(k) => 0 <= k < children.deep_view().len() && children.deep_view()[k].name
                    == name@ && forall|j: int| 0 <= j < k ==> children.deep_view()[j].name != name@,
                None => forall|j: int|
                    0 <= j < children.deep_view().len() ==> children.deep_view()[j].name != name@,
            },
        decreases children@.len() - i,
    {
        if crate::event::bytes_eq(children[i].name.as_slice(), name) {
            assert(children.deep_view()[i as int].name == name@);
            return Some(i);
        }
        i = i + 1;
    }
    None
}

} // verus!
