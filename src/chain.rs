//! Pointer chains: singly linked lists of tagged, extensible structures.
//!
//! The memory that a chain lives in is modelled as an arena of nodes; a
//! pointer is an index into it. A node may only link to a node placed
//! before it, so every chain in an arena ends.

use vstd::prelude::*;
use crate::codes::{StructureType, LOADER_DEVICE_CREATE_INFO, LOADER_INSTANCE_CREATE_INFO};
use crate::layer_info::{LayerDeviceCreateInfo, LayerInstanceCreateInfo};

verus! {

/// The contents of a node, typed by its tag.
#[derive(Copy, Clone, Debug, PartialEq, Eq, Structural)]
pub enum ChainBody {
    LayerInstance(LayerInstanceCreateInfo),
    LayerDevice(LayerDeviceCreateInfo),
    /// A structure whose layout this library does not interpret.
    Opaque(StructureType),
}

/// Whether a raw tag names a structure that this library interprets.
pub open spec fn is_known_tag(t: i32) -> bool {
    t == LOADER_INSTANCE_CREATE_INFO || t == LOADER_DEVICE_CREATE_INFO
}

impl ChainBody {
    pub open spec fn spec_tag(self) -> StructureType {
        match self {
            ChainBody::LayerInstance(_) => StructureType(LOADER_INSTANCE_CREATE_INFO),
            ChainBody::LayerDevice(_) => StructureType(LOADER_DEVICE_CREATE_INFO),
            ChainBody::Opaque(t) => t,
        }
    }

    /// A body is well formed when its tag is the one its layout has.
    pub open spec fn well_formed(self) -> bool {
        self matches ChainBody::Opaque(t) ==> !is_known_tag(t.0)
    }

    /// The tag of this body.
    pub fn tag(&self) -> (r: StructureType)
        ensures
            r == self.spec_tag(),
    {
        match self {
            ChainBody::LayerInstance(_) => StructureType(LOADER_INSTANCE_CREATE_INFO),
            ChainBody::LayerDevice(_) => StructureType(LOADER_DEVICE_CREATE_INFO),
            ChainBody::Opaque(t) => *t,
        }
    }
}

/// A structure that can stand in a chain under one fixed tag.
pub trait ChainStruct: Sized {
    spec fn spec_type() -> StructureType;

    /// The value of this type that a body holds, if it holds one.
    spec fn spec_from(body: ChainBody) -> Option<Self>;

    fn structure_type() -> (r: StructureType)
        ensures
            r == Self::spec_type(),
    ;

    fn from_body(body: &ChainBody) -> (r: Option<Self>)
        ensures
            r == Self::spec_from(*body),
    ;

    /// The body that holds this value.
    fn into_body(self) -> (r: ChainBody)
        ensures
            r.well_formed(),
            Self::spec_from(r) == Some(self),
    ;

    /// A body that holds a value of this type carries this type's tag.
    proof fn lemma_from_tag(body: ChainBody)
        requires
            Self::spec_from(body) is Some,
        ensures
            body.spec_tag() == Self::spec_type(),
    ;

    /// A well-formed body under this type's tag holds a value of it.
    proof fn lemma_tagged(body: ChainBody)
        requires
            body.well_formed(),
            body.spec_tag() == Self::spec_type(),
        ensures
            Self::spec_from(body) is Some,
    ;
}

impl ChainStruct for LayerInstanceCreateInfo {
    open spec fn spec_type() -> StructureType {
        StructureType(LOADER_INSTANCE_CREATE_INFO)
    }

    open spec fn spec_from(body: ChainBody) -> Option<Self> {
        match body {
            ChainBody::LayerInstance(v) => Some(v),
            _ => None,
        }
    }

    fn structure_type() -> (r: StructureType) {
        StructureType(LOADER_INSTANCE_CREATE_INFO)
    }

    fn from_body(body: &ChainBody) -> (r: Option<Self>) {
        match body {
            ChainBody::LayerInstance(v) => Some(*v),
            _ => None,
        }
    }

    fn into_body(self) -> (r: ChainBody) {
        ChainBody::LayerInstance(self)
    }

    proof fn lemma_tagged(body: ChainBody) {
    }

    proof fn lemma_from_tag(body: ChainBody) {
    }
}

impl ChainStruct for LayerDeviceCreateInfo {
    open spec fn spec_type() -> StructureType {
        StructureType(LOADER_DEVICE_CREATE_INFO)
    }

    open spec fn spec_from(body: ChainBody) -> Option<Self> {
        match body {
            ChainBody::LayerDevice(v) => Some(v),
            _ => None,
        }
    }

    fn structure_type() -> (r: StructureType) {
        StructureType(LOADER_DEVICE_CREATE_INFO)
    }

    fn from_body(body: &ChainBody) -> (r: Option<Self>) {
        match body {
            ChainBody::LayerDevice(v) => Some(*v),
            _ => None,
        }
    }

    fn into_body(self) -> (r: ChainBody) {
        ChainBody::LayerDevice(self)
    }

    proof fn lemma_tagged(body: ChainBody) {
    }

    proof fn lemma_from_tag(body: ChainBody) {
    }
}

/// A node under another type's tag holds no value of `T`: reading it as a
/// `T` has nothing to give, which is why `as_ref` refuses such a node.
pub proof fn lemma_mismatch_holds_nothing<T: ChainStruct>(body: ChainBody)
    requires
        body.spec_tag() != T::spec_type(),
    ensures
        T::spec_from(body) is None,
{
    if T::spec_from(body) is Some {
        T::lemma_from_tag(body);
    }
}

/// A node: its body and the index of the next node, if any.
#[derive(Copy, Clone, Debug, PartialEq, Eq, Structural)]
pub struct ChainNode {
    pub body: ChainBody,
    pub next: Option<usize>,
}

/// The common head of every node: its tag and its link.
#[derive(Copy, Clone, Debug, PartialEq, Eq, Structural)]
pub struct BaseStructure {
    pub s_type: StructureType,
    pub next: Option<usize>,
}

/// The measure that a walk from `cur` decreases.
pub open spec fn rank(cur: Option<usize>) -> nat {
    match cur {
        Some(i) => i as nat + 1,
        None => 0,
    }
}

/// The indices that a walk from `cur` visits, in link order.
pub open spec fn walk(nodes: Seq<ChainNode>, cur: Option<usize>) -> Seq<usize>
    decreases rank(cur),
{
    match cur {
        None => Seq::empty(),
        Some(i) => if i < nodes.len() {
            let nx = nodes[i as int].next;
            if rank(nx) < rank(cur) {
                seq![i] + walk(nodes, nx)
            } else {
                seq![i]
            }
        } else {
            Seq::empty()
        },
    }
}

/// Whether `cur` is null or the index of a node.
pub open spec fn valid_ptr(nodes: Seq<ChainNode>, cur: Option<usize>) -> bool {
    cur matches Some(i) ==> i < nodes.len()
}

/// Whether every node links only to a node placed before it.
pub open spec fn links_backward(nodes: Seq<ChainNode>) -> bool {
    forall|i: int| 0 <= i < nodes.len() ==> (#[trigger] nodes[i].next matches Some(n) ==> n < i)
}

/// A walk visits exactly the linked nodes in link order: it starts at the
/// head, each visited node links to the next one visited, and the last one
/// links nowhere. A null head gives no node.
pub proof fn lemma_walk_follows_links(nodes: Seq<ChainNode>, head: Option<usize>)
    requires
        links_backward(nodes),
        valid_ptr(nodes, head),
    ensures
        head is None <==> walk(nodes, head).len() == 0,
        head matches Some(h) ==> walk(nodes, head)[0] == h,
        forall|k: int| 0 <= k < walk(nodes, head).len() ==> #[trigger] walk(nodes, head)[k] < nodes.len(),
        forall|k: int|
            0 <= k < walk(nodes, head).len() - 1 ==> nodes[#[trigger] walk(nodes, head)[k] as int].next == Some(
                walk(nodes, head)[k + 1],
            ),
        walk(nodes, head).len() > 0 ==> nodes[walk(nodes, head).last() as int].next is None,
    decreases rank(head),
{
    match head {
        None => {},
        Some(h) => {
            let nx = nodes[h as int].next;
            assert(nodes[h as int].next matches Some(n) ==> n < h);
            lemma_walk_follows_links(nodes, nx);
            let w = walk(nodes, head);
            let rest = walk(nodes, nx);
            assert(w == seq![h] + rest);
            assert forall|k: int| 0 <= k < w.len() implies #[trigger] w[k] < nodes.len() by {
                if k > 0 {
                    assert(w[k] == rest[k - 1]);
                }
            }
            assert forall|k: int| 0 <= k < w.len() - 1 implies nodes[#[trigger] w[k] as int].next == Some(w[k + 1]) by {
                if k > 0 {
                    assert(w[k] == rest[k - 1]);
                    assert(w[k + 1] == rest[k]);
                } else {
                    assert(rest.len() > 0);
                    assert(nx is Some);
                    assert(rest[0] == nx->0);
                    assert(w[1] == rest[0]);
                }
            }
            if rest.len() > 0 {
                assert(w.last() == rest.last());
            }
        },
    }
}

/// Whether node `i` is well formed and links only backwards.
pub open spec fn node_ok(nodes: Seq<ChainNode>, i: int) -> bool {
    &&& nodes[i].body.well_formed()
    &&& nodes[i].next matches Some(n) ==> n < i
}

/// Memory holding chain nodes.
pub struct Chain {
    nodes: Vec<ChainNode>,
}

impl Chain {
    #[verifier::type_invariant]
    spec fn inv(&self) -> bool {
        forall|i: int| 0 <= i < self.nodes@.len() ==> #[trigger] node_ok(self.nodes@, i)
    }

    pub closed spec fn view(&self) -> Seq<ChainNode> {
        self.nodes@
    }

    proof fn lemma_inv_links(&self)
        requires
            self.inv(),
        ensures
            links_backward(self.view()),
    {
        assert forall|i: int| 0 <= i < self.view().len() implies (#[trigger] self.view()[i].next matches Some(n) ==> n < i) by {
            assert(node_ok(self.nodes@, i));
        }
    }

    /// Every node of this memory links only to a node placed before it, so
    /// every chain in it ends.
    pub fn links_are_backward(&self)
        ensures
            links_backward(self.view()),
    {
        proof {
            use_type_invariant(self);
            self.lemma_inv_links();
        }
    }

    /// Empty memory.
    pub fn new() -> (r: Self)
        ensures
            r.view() == Seq::<ChainNode>::empty(),
            links_backward(r.view()),
    {
        Chain { nodes: Vec::new() }
    }

    /// The number of nodes.
    pub fn len(&self) -> (r: usize)
        ensures
            r == self.view().len(),
            links_backward(self.view()),
    {
        proof {
            use_type_invariant(self);
            self.lemma_inv_links();
        }
        self.nodes.len()
    }

    /// Places a node that links to `next`, and returns its index.
    pub fn push(&mut self, body: ChainBody, next: Option<usize>) -> (r: usize)
        requires
            body.well_formed(),
            valid_ptr(old(self).view(), next),
        ensures
            r == old(self).view().len(),
            final(self).view() == old(self).view().push(ChainNode { body, next }),
            links_backward(final(self).view()),
    {
        proof {
            use_type_invariant(&*self);
        }
        let r = self.nodes.len();
        let mut nodes = self.take_nodes();
        nodes.push(ChainNode { body, next });
        proof {
            assert forall|i: int| 0 <= i < nodes@.len() implies #[trigger] node_ok(nodes@, i) by {
                if i < r {
                    assert(node_ok(old(self).nodes@, i));
                    assert(nodes@[i] == old(self).nodes@[i]);
                }
            }
        }
        *self = Chain { nodes };
        proof {
            use_type_invariant(&*self);
            assert forall|i: int| 0 <= i < self.view().len() implies (#[trigger] self.view()[i].next matches Some(n) ==> n < i) by {
                assert(node_ok(self.nodes@, i));
            }
        }
        r
    }

    fn take_nodes(&self) -> (r: Vec<ChainNode>)
        ensures
            r@ == self.view(),
    {
        let mut r: Vec<ChainNode> = Vec::new();
        let mut i: usize = 0;
        while i < self.nodes.len()
            invariant
                i <= self.nodes@.len(),
                r@ == self.nodes@.subrange(0, i as int),
            decreases self.nodes.len() - i,
        {
            r.push(self.nodes[i]);
            i += 1;
            assert(r@ =~= self.nodes@.subrange(0, i as int));
        }
        assert(self.nodes@.subrange(0, i as int) =~= self.nodes@);
        r
    }

    /// Replaces the body of node `index` by one under the same tag, as a
    /// callee fills in a structure of an output chain; links stay as they
    /// were.
    pub fn fill(&mut self, index: usize, body: ChainBody)
        requires
            index < old(self).view().len(),
            body.well_formed(),
            body.spec_tag() == old(self).view()[index as int].body.spec_tag(),
        ensures
            final(self).view() == old(self).view().update(
                index as int,
                ChainNode { body, next: old(self).view()[index as int].next },
            ),
    {
        proof {
            use_type_invariant(&*self);
        }
        let mut nodes = self.take_nodes();
        let next = nodes[index].next;
        nodes.set(index, ChainNode { body, next });
        proof {
            assert forall|i: int| 0 <= i < nodes@.len() implies #[trigger] node_ok(nodes@, i) by {
                assert(node_ok(old(self).nodes@, i));
                if i != index {
                    assert(nodes@[i] == old(self).nodes@[i]);
                } else {
                    assert(nodes@[i].next == old(self).nodes@[i].next);
                }
            }
        }
        *self = Chain { nodes };
    }

    /// The node at `index`.
    pub fn node(&self, index: usize) -> (r: ChainNode)
        requires
            index < self.view().len(),
        ensures
            r == self.view()[index as int],
    {
        self.nodes[index]
    }

    /// The walk from `cur` in a chain of this memory follows every link.
    proof fn lemma_walk_step(&self, cur: usize)
        requires
            self.inv(),
            cur < self.view().len(),
        ensures
            walk(self.view(), Some(cur)) == seq![cur] + walk(self.view(), self.view()[cur as int].next),
            valid_ptr(self.view(), self.view()[cur as int].next),
    {
        assert(node_ok(self.nodes@, cur as int));
    }

    /// The indices that a walk from `head` visits, in link order.
    pub fn walk_from(&self, head: Option<usize>) -> (r: Vec<usize>)
        requires
            valid_ptr(self.view(), head),
        ensures
            r@ == walk(self.view(), head),
    {
        proof {
            use_type_invariant(self);
        }
        let mut out: Vec<usize> = Vec::new();
        let mut cur = head;
        while cur.is_some()
            invariant
                self.inv(),
                valid_ptr(self.view(), cur),
                out@ + walk(self.view(), cur) == walk(self.view(), head),
            decreases rank(cur),
        {
            let i = cur.unwrap();
            proof {
                self.lemma_walk_step(i);
                assert(out@.push(i) + walk(self.view(), self.view()[i as int].next) =~= out@ + walk(self.view(), cur));
            }
            out.push(i);
            cur = self.nodes[i].next;
        }
        assert(out@ + walk(self.view(), cur) =~= out@);
        out
    }
}

/// A non-null pointer into an input chain.
#[derive(Copy, Clone, Debug, PartialEq, Eq, Structural, Hash)]
pub struct InputChainPtr {
    pub index: usize,
}

/// A non-null pointer into an output chain.
#[derive(Copy, Clone, Debug, PartialEq, Eq, Structural, Hash)]
pub struct OutputChainPtr {
    pub index: usize,
}

/// The cursor positions of a walk.
pub open spec fn input_ptrs(w: Seq<usize>) -> Seq<InputChainPtr> {
    w.map_values(|i: usize| InputChainPtr { index: i })
}

pub open spec fn output_ptrs(w: Seq<usize>) -> Seq<OutputChainPtr> {
    w.map_values(|i: usize| OutputChainPtr { index: i })
}

/// The input cursor at `p`, none for null.
pub open spec fn input_ptr_at(p: Option<usize>) -> Option<InputChainPtr> {
    match p {
        Some(i) => Some(InputChainPtr { index: i }),
        None => None,
    }
}

/// The output cursor at `p`, none for null.
pub open spec fn output_ptr_at(p: Option<usize>) -> Option<OutputChainPtr> {
    match p {
        Some(i) => Some(OutputChainPtr { index: i }),
        None => None,
    }
}

/// The nodes of an input chain from `head`, in link order; empty for a null head.
pub fn input_chain(chain: &Chain, head: Option<usize>) -> (r: Vec<InputChainPtr>)
    requires
        valid_ptr(chain.view(), head),
    ensures
        r@ == input_ptrs(walk(chain.view(), head)),
        links_backward(chain.view()),
        head is None <==> r@.len() == 0,
        head matches Some(h) ==> r@[0].index == h,
        forall|k: int|
            0 <= k < r@.len() - 1 ==> chain.view()[#[trigger] r@[k].index as int].next == Some(r@[k + 1].index),
        r@.len() > 0 ==> chain.view()[r@.last().index as int].next is None,
{
    chain.links_are_backward();
    proof {
        lemma_walk_follows_links(chain.view(), head);
    }
    let w = chain.walk_from(head);
    let mut out: Vec<InputChainPtr> = Vec::new();
    let mut k: usize = 0;
    while k < w.len()
        invariant
            k <= w@.len(),
            out@ == input_ptrs(w@.subrange(0, k as int)),
        decreases w.len() - k,
    {
        out.push(InputChainPtr { index: w[k] });
        k += 1;
        assert(out@ =~= input_ptrs(w@.subrange(0, k as int)));
    }
    assert(w@.subrange(0, k as int) =~= w@);
    out
}

/// The nodes of an output chain from `head`, in link order; empty for a null head.
pub fn output_chain(chain: &Chain, head: Option<usize>) -> (r: Vec<OutputChainPtr>)
    requires
        valid_ptr(chain.view(), head),
    ensures
        r@ == output_ptrs(walk(chain.view(), head)),
        links_backward(chain.view()),
        head is None <==> r@.len() == 0,
        head matches Some(h) ==> r@[0].index == h,
        forall|k: int|
            0 <= k < r@.len() - 1 ==> chain.view()[#[trigger] r@[k].index as int].next == Some(r@[k + 1].index),
        r@.len() > 0 ==> chain.view()[r@.last().index as int].next is None,
{
    chain.links_are_backward();
    proof {
        lemma_walk_follows_links(chain.view(), head);
    }
    let w = chain.walk_from(head);
    let mut out: Vec<OutputChainPtr> = Vec::new();
    let mut k: usize = 0;
    while k < w.len()
        invariant
            k <= w@.len(),
            out@ == output_ptrs(w@.subrange(0, k as int)),
        decreases w.len() - k,
    {
        out.push(OutputChainPtr { index: w[k] });
        k += 1;
        assert(out@ =~= output_ptrs(w@.subrange(0, k as int)));
    }
    assert(w@.subrange(0, k as int) =~= w@);
    out
}

impl InputChainPtr {
    /// A pointer to `head`, or none for a null head.
    pub fn new(head: Option<usize>) -> (r: Option<Self>)
        ensures
            r == input_ptr_at(head),
    {
        match head {
            Some(i) => Some(InputChainPtr { index: i }),
            None => None,
        }
    }

    /// The head of the node: its tag and its link, nothing else of it.
    pub fn as_base_ref(&self, chain: &Chain) -> (r: BaseStructure)
        requires
            self.index < chain.view().len(),
        ensures
            r.s_type == chain.view()[self.index as int].body.spec_tag(),
            r.next == chain.view()[self.index as int].next,
    {
        let n = chain.node(self.index);
        BaseStructure { s_type: n.body.tag(), next: n.next }
    }

    /// The node's tag.
    pub fn peek_tag(&self, chain: &Chain) -> (r: StructureType)
        requires
            self.index < chain.view().len(),
        ensures
            r == chain.view()[self.index as int].body.spec_tag(),
    {
        chain.node(self.index).body.tag()
    }

    /// The node as a `T`; its tag must be `T`'s.
    pub fn as_ref<T: ChainStruct>(&self, chain: &Chain) -> (r: T)
        requires
            self.index < chain.view().len(),
            chain.view()[self.index as int].body.spec_tag() == T::spec_type(),
        ensures
            T::spec_from(chain.view()[self.index as int].body) == Some(r),
    {
        let n = chain.node(self.index);
        proof {
            use_type_invariant(chain);
            assert(node_ok(chain.nodes@, self.index as int));
            T::lemma_tagged(n.body);
        }
        T::from_body(&n.body).unwrap()
    }

    /// The next node of the chain, if any.
    pub fn next(&self, chain: &Chain) -> (r: Option<Self>)
        requires
            self.index < chain.view().len(),
        ensures
            r == input_ptr_at(chain.view()[self.index as int].next),
    {
        InputChainPtr::new(chain.node(self.index).next)
    }
}

impl OutputChainPtr {
    /// A pointer to `head`, or none for a null head.
    pub fn new(head: Option<usize>) -> (r: Option<Self>)
        ensures
            r == output_ptr_at(head),
    {
        match head {
            Some(i) => Some(OutputChainPtr { index: i }),
            None => None,
        }
    }

    /// The head of the node: its tag and its link, nothing else of it.
    pub fn as_base_ref(&self, chain: &Chain) -> (r: BaseStructure)
        requires
            self.index < chain.view().len(),
        ensures
            r.s_type == chain.view()[self.index as int].body.spec_tag(),
            r.next == chain.view()[self.index as int].next,
    {
        let n = chain.node(self.index);
        BaseStructure { s_type: n.body.tag(), next: n.next }
    }

    /// The node as a `T`; its tag must be `T`'s.
    pub fn as_ref<T: ChainStruct>(&self, chain: &Chain) -> (r: T)
        requires
            self.index < chain.view().len(),
            chain.view()[self.index as int].body.spec_tag() == T::spec_type(),
        ensures
            T::spec_from(chain.view()[self.index as int].body) == Some(r),
    {
        let n = chain.node(self.index);
        proof {
            use_type_invariant(chain);
            assert(node_ok(chain.nodes@, self.index as int));
            T::lemma_tagged(n.body);
        }
        T::from_body(&n.body).unwrap()
    }

    /// Fills the node in with `value`, whose type must be the node's.
    pub fn write<T: ChainStruct>(&self, chain: &mut Chain, value: T)
        requires
            self.index < old(chain).view().len(),
            old(chain).view()[self.index as int].body.spec_tag() == T::spec_type(),
        ensures
            final(chain).view().len() == old(chain).view().len(),
            T::spec_from(final(chain).view()[self.index as int].body) == Some(value),
            final(chain).view()[self.index as int].next == old(chain).view()[self.index as int].next,
            forall|i: int| 0 <= i < old(chain).view().len() && i != self.index ==> final(chain).view()[i] == old(chain).view()[i],
    {
        let body = value.into_body();
        proof {
            T::lemma_from_tag(body);
        }
        chain.fill(self.index, body);
    }

    /// The next node of the chain, if any.
    pub fn next(&self, chain: &Chain) -> (r: Option<Self>)
        requires
            self.index < chain.view().len(),
        ensures
            r == output_ptr_at(chain.view()[self.index as int].next),
    {
        OutputChainPtr::new(chain.node(self.index).next)
    }
}

} // verus!
