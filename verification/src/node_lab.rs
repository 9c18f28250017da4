//! The node lab: a list of nodes with parameters that the user edits.
use vstd::prelude::*;
use vstd::string::StringExecFns;

use crate::defaults::Milli;
use crate::text::{blank, chars_of, decimal, digits, is_blank, strip, stripped, text_of, CharClass};

verus! {

/// A parameter of a node.
#[derive(Clone, Debug)]
pub struct NodeParam<N> {
    pub name: String,
    pub value: N,
}

/// A node.
#[derive(Clone, Debug)]
pub struct NodeDef<N> {
    pub id: u64,
    pub title: String,
    pub x: N,
    pub y: N,
    pub params: Vec<NodeParam<N>>,
}

/// The nodes.
#[derive(Clone, Debug)]
pub struct NodeGraph<N> {
    pub nodes: Vec<NodeDef<N>>,
}

/// The node lab: its nodes, and which of them is selected.
pub struct NodeLabState<N> {
    pub open: bool,
    pub graph: NodeGraph<N>,
    pub next_id: u64,
    pub selected_id: Option<u64>,
    pub new_param_name: String,
}

/// Whether a parameter has a name and a value.
pub open spec fn is_param<N, F: Fn(Milli) -> N>(p: NodeParam<N>, name: Seq<char>, number: F, value: Milli) -> bool {
    p.name@ == name && call_ensures(number, (value,), p.value)
}

fn param<N, F: Fn(Milli) -> N>(name: &str, number: &F, value: Milli) -> (r: NodeParam<N>)
    requires
        call_requires(*number, (value,)),
    ensures
        is_param(r, name@, *number, value),
{
    NodeParam { name: name.to_owned(), value: number(value) }
}

/// The nodes that are left when those with an id are taken out.
pub open spec fn without_id<N>(nodes: Seq<NodeDef<N>>, id: u64) -> Seq<NodeDef<N>>
    decreases nodes.len(),
{
    if nodes.len() == 0 {
        Seq::empty()
    } else {
        let before = without_id(nodes.drop_last(), id);
        if nodes.last().id == id {
            before
        } else {
            before.push(nodes.last())
        }
    }
}

/// The id of the first node.
pub open spec fn first_id<N>(nodes: Seq<NodeDef<N>>) -> Option<u64> {
    if nodes.len() == 0 {
        None
    } else {
        Some(nodes[0].id)
    }
}

impl<N> NodeLabState<N> {
    /// No two nodes have the same id, and the next id is beyond them all.
    pub open spec fn wf(self) -> bool {
        &&& forall|i: int, j: int|
            0 <= i < j < self.graph.nodes@.len() ==> (#[trigger] self.graph.nodes@[i]).id != (
            #[trigger] self.graph.nodes@[j]).id
        &&& forall|i: int| 0 <= i < self.graph.nodes@.len() ==> (#[trigger] self.graph.nodes@[i]).id < self.next_id
    }

    /// An empty lab, closed.
    pub fn new() -> (r: Self)
        ensures
            r.wf(),
            !r.open,
            r.graph.nodes@.len() == 0,
            r.next_id == 0,
            r.selected_id is None,
            r.new_param_name@ == Seq::<char>::empty(),
    {
        NodeLabState {
            open: false,
            graph: NodeGraph { nodes: Vec::new() },
            next_id: 0,
            selected_id: None,
            new_param_name: String::new(),
        }
    }

    /// Puts two nodes into an empty lab, a noise and a colouring, and selects the first.
    pub fn ensure_seed_nodes<F: Fn(Milli) -> N>(&mut self, number: F)
        requires
            forall|m: Milli| call_requires(number, (m,)),
        ensures
            old(self).wf() ==> final(self).wf(),
            final(self).open == old(self).open,
            final(self).new_param_name == old(self).new_param_name,
            old(self).graph.nodes@.len() > 0 ==> *final(self) == *old(self),
            old(self).graph.nodes@.len() == 0 ==> {
                let nodes = final(self).graph.nodes@;
                &&& final(self).wf()
                &&& nodes.len() == 2
                &&& final(self).next_id == 3
                &&& final(self).selected_id == Some(1u64)
                &&& nodes[0].id == 1
                &&& nodes[0].title@ == "Noise"@
                &&& call_ensures(number, (Milli(32000),), nodes[0].x)
                &&& call_ensures(number, (Milli(48000),), nodes[0].y)
                &&& nodes[0].params@.len() == 2
                &&& is_param(nodes[0].params@[0], "Scale"@, number, Milli(1000))
                &&& is_param(nodes[0].params@[1], "Seed"@, number, Milli(42000))
                &&& nodes[1].id == 2
                &&& nodes[1].title@ == "Colorize"@
                &&& call_ensures(number, (Milli(280000),), nodes[1].x)
                &&& call_ensures(number, (Milli(120000),), nodes[1].y)
                &&& nodes[1].params@.len() == 2
                &&& is_param(nodes[1].params@[0], "Hue"@, number, Milli(500))
                &&& is_param(nodes[1].params@[1], "Contrast"@, number, Milli(1000))
            },
    {
        if self.graph.nodes.len() > 0 {
            return;
        }
        self.next_id = 3;
        let mut first: Vec<NodeParam<N>> = Vec::new();
        first.push(param("Scale", &number, Milli(1000)));
        first.push(param("Seed", &number, Milli(42000)));
        self.graph.nodes.push(
            NodeDef {
                id: 1,
                title: "Noise".to_owned(),
                x: number(Milli(32000)),
                y: number(Milli(48000)),
                params: first,
            },
        );
        let mut second: Vec<NodeParam<N>> = Vec::new();
        second.push(param("Hue", &number, Milli(500)));
        second.push(param("Contrast", &number, Milli(1000)));
        self.graph.nodes.push(
            NodeDef {
                id: 2,
                title: "Colorize".to_owned(),
                x: number(Milli(280000)),
                y: number(Milli(120000)),
                params: second,
            },
        );
        self.selected_id = Some(1);
    }

    /// Adds a node with one parameter, and selects it.
    pub fn add_node<F: Fn(Milli) -> N>(&mut self, number: F)
        requires
            old(self).next_id < u64::MAX,
            forall|m: Milli| call_requires(number, (m,)),
        ensures
            old(self).wf() ==> final(self).wf(),
            final(self).open == old(self).open,
            final(self).new_param_name == old(self).new_param_name,
            ({
                let id = if old(self).next_id < 1 { 1 } else { old(self).next_id };
                let nodes = final(self).graph.nodes@;
                &&& final(self).next_id == id + 1
                &&& final(self).selected_id == Some(id)
                &&& nodes.len() == old(self).graph.nodes@.len() + 1
                &&& nodes.drop_last() == old(self).graph.nodes@
                &&& nodes.last().id == id
                &&& nodes.last().title@ == "Node "@ + digits(id as nat)
                &&& call_ensures(number, (Milli(80000),), nodes.last().x)
                &&& call_ensures(number, (Milli(80000),), nodes.last().y)
                &&& nodes.last().params@.len() == 1
                &&& is_param(nodes.last().params@[0], "Value"@, number, Milli(1000))
            }),
    {
        let id: u64 = if self.next_id < 1 {
            1
        } else {
            self.next_id
        };
        self.next_id = id + 1;
        let mut title: String = "Node ".to_owned();
        title.append(decimal(id).as_str());
        let mut params: Vec<NodeParam<N>> = Vec::new();
        params.push(param("Value", &number, Milli(1000)));
        let ghost before = self.graph.nodes@;
        self.graph.nodes.push(
            NodeDef { id, title, x: number(Milli(80000)), y: number(Milli(80000)), params },
        );
        assert(self.graph.nodes@.drop_last() == before);
        self.selected_id = Some(id);
    }

    /// Takes out the selected node, if there is one, and selects the first that is left.
    pub fn delete_selected(&mut self)
        ensures
            old(self).wf() ==> final(self).wf(),
            final(self).open == old(self).open,
            final(self).new_param_name == old(self).new_param_name,
            final(self).next_id == old(self).next_id,
            match old(self).selected_id {
                Some(id) => {
                    &&& final(self).graph.nodes@ == without_id(old(self).graph.nodes@, id)
                    &&& final(self).selected_id == first_id(final(self).graph.nodes@)
                },
                None => *final(self) == *old(self),
            },
    {
        let id: u64 = match self.selected_id {
            Some(id) => id,
            None => {
                return;
            },
        };
        let ghost all = self.graph.nodes@;
        let ghost next = self.next_id;
        let mut kept: Vec<NodeDef<N>> = Vec::new();
        let mut rest: Vec<NodeDef<N>> = Vec::new();
        // The nodes are turned round twice, so that they keep their order.
        while self.graph.nodes.len() > 0
            invariant
                self.graph.nodes@ + rest@.reverse() == all,
                self.next_id == next,
                self.open == old(self).open,
                self.new_param_name == old(self).new_param_name,
                self.selected_id == Some(id),
            decreases self.graph.nodes.len(),
        {
            let ghost nodes = self.graph.nodes@;
            let ghost done = rest@;
            if let Some(node) = self.graph.nodes.pop() {
                rest.push(node);
                assert(rest@.reverse() == seq![node] + done.reverse());
                assert(self.graph.nodes@ + rest@.reverse() == all);
            }
        }
        assert(rest@.reverse() == all);
        let ghost turned = rest@;
        assert(all.take(0) == Seq::<NodeDef<N>>::empty());
        while rest.len() > 0
            invariant
                turned.reverse() == all,
                rest@ == turned.take(rest@.len() as int),
                rest@.len() <= turned.len(),
                turned.len() == all.len(),
                kept@ == without_id(all.take(all.len() - rest@.len()), id),
            decreases rest.len(),
        {
            let ghost n = all.len() - rest@.len();
            if let Some(node) = rest.pop() {
                proof {
                    assert(node == turned[turned.len() - 1 - n]);
                    assert(all[n] == turned.reverse()[n]);
                    assert(node == all[n]);
                    assert(all.take(n + 1).drop_last() == all.take(n));
                    assert(all.take(n + 1).last() == node);
                }
                if node.id != id {
                    kept.push(node);
                }
                assert(rest@ == turned.take(rest@.len() as int));
            }
        }
        assert(all.take(all.len() as int) == all);
        proof {
            if old(self).wf() {
                lemma_without_id_keeps_order(all, id, next);
            }
        }
        self.selected_id = if kept.len() > 0 {
            Some(kept[0].id)
        } else {
            None
        };
        self.graph.nodes = kept;
    }

    /// The place of the selected node, the first of its id. One that is gone is replaced by the first.
    pub fn inspect(&mut self) -> (r: Option<usize>)
        ensures
            old(self).wf() ==> final(self).wf(),
            final(self).open == old(self).open,
            final(self).graph == old(self).graph,
            final(self).next_id == old(self).next_id,
            final(self).new_param_name == old(self).new_param_name,
            r matches Some(i) ==> {
                &&& i < old(self).graph.nodes@.len()
                &&& old(self).selected_id == Some(old(self).graph.nodes@[i as int].id)
                &&& forall|j: int|
                    0 <= j < i ==> (#[trigger] old(self).graph.nodes@[j]).id != old(self).graph.nodes@[i as int].id
                &&& final(self).selected_id == old(self).selected_id
            },
            r is None ==> {
                &&& forall|i: int|
                    0 <= i < old(self).graph.nodes@.len() ==> Some((#[trigger] old(self).graph.nodes@[i]).id) != old(
                        self,
                    ).selected_id
                &&& final(self).selected_id == (if old(self).selected_id is None {
                    None
                } else {
                    first_id(old(self).graph.nodes@)
                })
            },
    {
        let id: u64 = match self.selected_id {
            Some(id) => id,
            None => {
                return None;
            },
        };
        let mut i: usize = 0;
        while i < self.graph.nodes.len()
            invariant
                i <= self.graph.nodes@.len(),
                *self == *old(self),
                self.selected_id == Some(id),
                forall|j: int| 0 <= j < i ==> (#[trigger] self.graph.nodes@[j]).id != id,
            decreases self.graph.nodes.len() - i,
        {
            if self.graph.nodes[i].id == id {
                return Some(i);
            }
            i = i + 1;
        }
        self.selected_id = if self.graph.nodes.len() > 0 {
            Some(self.graph.nodes[0].id)
        } else {
            None
        };
        None
    }

    /// The parameter that is to be added, if its name is not blank; the name is then taken
    /// out of the entry.
    pub fn take_new_param(&mut self, zero: N) -> (r: Option<NodeParam<N>>)
        ensures
            final(self).open == old(self).open,
            final(self).graph == old(self).graph,
            final(self).next_id == old(self).next_id,
            final(self).selected_id == old(self).selected_id,
            is_blank(old(self).new_param_name@) ==> r is None && final(self).new_param_name == old(
                self,
            ).new_param_name,
            !is_blank(old(self).new_param_name@) ==> {
                &&& r matches Some(p) && p.name@ == strip(old(self).new_param_name@, CharClass::White) && p.value
                    == zero
                &&& final(self).new_param_name@ == Seq::<char>::empty()
            },
    {
        if blank(self.new_param_name.as_str()) {
            return None;
        }
        let name: String = text_of(&stripped(&chars_of(self.new_param_name.as_str()), CharClass::White));
        self.new_param_name = String::new();
        Some(NodeParam { name, value: zero })
    }
}

proof fn lemma_without_id_keeps_order<N>(nodes: Seq<NodeDef<N>>, id: u64, next: u64)
    requires
        forall|i: int, j: int|
            0 <= i < j < nodes.len() ==> (#[trigger] nodes[i]).id != (#[trigger] nodes[j]).id,
        forall|i: int| 0 <= i < nodes.len() ==> (#[trigger] nodes[i]).id < next,
    ensures
        ({
            let left = without_id(nodes, id);
            &&& forall|i: int, j: int|
                0 <= i < j < left.len() ==> (#[trigger] left[i]).id != (#[trigger] left[j]).id
            &&& forall|i: int| 0 <= i < left.len() ==> (#[trigger] left[i]).id < next
            &&& forall|i: int| 0 <= i < left.len() ==> (#[trigger] left[i]).id != id
            &&& forall|i: int| 0 <= i < left.len() ==> nodes.contains(#[trigger] left[i])
        }),
    decreases nodes.len(),
{
    if nodes.len() > 0 {
        let rest = nodes.drop_last();
        assert forall|i: int| 0 <= i < rest.len() implies (#[trigger] rest[i]).id < next by {
            assert(rest[i] == nodes[i]);
        }
        assert forall|i: int, j: int| 0 <= i < j < rest.len() implies (#[trigger] rest[i]).id != (
        #[trigger] rest[j]).id by {
            assert(rest[i] == nodes[i] && rest[j] == nodes[j]);
        }
        lemma_without_id_keeps_order(rest, id, next);
        let before = without_id(rest, id);
        let left = without_id(nodes, id);
        let last = nodes[nodes.len() - 1];
        assert forall|i: int| 0 <= i < before.len() implies nodes.contains(#[trigger] before[i]) && before[i].id
            != last.id by {
            assert(rest.contains(before[i]));
            let k = choose|k: int| 0 <= k < rest.len() && rest[k] == before[i];
            assert(nodes[k] == before[i]);
        }
        assert forall|i: int| 0 <= i < left.len() implies nodes.contains(#[trigger] left[i]) && left[i].id < next
            && left[i].id != id by {
            if i < before.len() {
                assert(left[i] == before[i]);
            } else {
                assert(left[i] == last);
            }
        }
        assert forall|i: int, j: int| 0 <= i < j < left.len() implies (#[trigger] left[i]).id != (
        #[trigger] left[j]).id by {
            assert(left[i] == before[i]);
            if j < before.len() {
                assert(left[j] == before[j]);
            } else {
                assert(left[j] == last);
            }
        }
    }
}

/// A node that is taken out is gone, and every other node stays.
pub proof fn law_deleting_takes_one_id<N>(nodes: Seq<NodeDef<N>>, id: u64, k: int)
    requires
        0 <= k < nodes.len(),
    ensures
        nodes[k].id != id ==> without_id(nodes, id).contains(nodes[k]),
        nodes[k].id == id ==> !without_id(nodes, id).contains(nodes[k]),
    decreases nodes.len(),
{
    let rest = nodes.drop_last();
    let before = without_id(rest, id);
    let left = without_id(nodes, id);
    if k < rest.len() {
        law_deleting_takes_one_id(rest, id, k);
        assert(rest[k] == nodes[k]);
        if nodes[k].id != id {
            let i = choose|i: int| 0 <= i < before.len() && before[i] == nodes[k];
            assert(left[i] == nodes[k]);
        }
    } else if nodes[k].id != id {
        assert(left[left.len() - 1] == nodes[k]);
    }
    lemma_without_id_has_none(nodes, id);
}

proof fn lemma_without_id_has_none<N>(nodes: Seq<NodeDef<N>>, id: u64)
    ensures
        forall|i: int| 0 <= i < without_id(nodes, id).len() ==> (#[trigger] without_id(nodes, id)[i]).id != id,
    decreases nodes.len(),
{
    if nodes.len() > 0 {
        lemma_without_id_has_none(nodes.drop_last(), id);
        let before = without_id(nodes.drop_last(), id);
        assert forall|i: int| 0 <= i < without_id(nodes, id).len() implies (#[trigger] without_id(nodes, id)[i]).id
            != id by {
            if i < before.len() {
                assert(without_id(nodes, id)[i] == before[i]);
            }
        }
    }
}

/// The column and the row of a node when the nodes are laid out three to a row.
pub fn layout_cell(i: usize) -> (r: (usize, usize))
    ensures
        r.0 == i % 3,
        r.1 == i / 3,
{
    (i % 3, i / 3)
}

/// Taking out an id keeps the order of the other nodes, and taking it out again changes nothing.
pub proof fn law_deleting_keeps_the_order<N>(a: Seq<NodeDef<N>>, b: Seq<NodeDef<N>>, id: u64)
    ensures
        without_id(a + b, id) == without_id(a, id) + without_id(b, id),
        without_id(without_id(a, id), id) == without_id(a, id),
        a.len() == 1 && a[0].id != id ==> without_id(a, id) == a,
    decreases a.len() + b.len(),
{
    if a.len() > 0 {
        law_deleting_keeps_the_order(a.drop_last(), Seq::empty(), id);
        let before = without_id(a.drop_last(), id);
        if a.last().id != id {
            assert(before.push(a.last()).drop_last() =~= before);
        }
        if a.len() == 1 && a[0].id != id {
            assert(a.drop_last() =~= Seq::<NodeDef<N>>::empty());
            assert(without_id(a, id) =~= a);
        }
    }
    if b.len() == 0 {
        assert(a + b =~= a);
        assert(without_id(a, id) + without_id(b, id) =~= without_id(a, id));
    } else {
        assert((a + b).drop_last() =~= a + b.drop_last());
        assert((a + b).last() == b.last());
        law_deleting_keeps_the_order(a, b.drop_last(), id);
        assert(without_id(a + b, id) =~= without_id(a, id) + without_id(b, id));
    }
}

/// The first of some nodes is that of the first part that has any, and an empty lab has none.
pub proof fn law_first_node<N>(a: Seq<NodeDef<N>>, b: Seq<NodeDef<N>>)
    ensures
        a.len() > 0 ==> first_id(a + b) == first_id(a) && first_id(a) == Some(a[0].id),
        a.len() == 0 ==> first_id(a + b) == first_id(b),
        first_id(a) is None <==> a.len() == 0,
{
    if a.len() == 0 {
        assert(a + b =~= b);
    }
}

} // verus!
