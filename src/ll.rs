//! A singly linked stack of `u32` values.
use vstd::prelude::*;

verus! {

/// A cell of the list: a value and the rest of the list.
pub struct Node {
    value: u32,
    next: Option<Box<Node>>,
}

/// The values of a chain of nodes, first node first.
pub closed spec fn chain_view(link: Option<Box<Node>>) -> Seq<u32>
    decreases link,
{
    match link {
        None => Seq::empty(),
        Some(node) => seq![node.value] + chain_view(node.next),
    }
}

impl View for Node {
    type V = Seq<u32>;

    /// The values from this node to the end of its chain.
    closed spec fn view(&self) -> Seq<u32> {
        seq![self.value] + chain_view(self.next)
    }
}

impl Node {
    /// A node holding `value` in front of the chain `next`.
    pub fn new(value: u32, next: Option<Box<Node>>) -> (r: Node)
        ensures
            r@ == seq![value] + chain_view(next),
    {
        Node { value, next }
    }
}

/// A list with constant-time insertion and removal at the front.
pub struct LinkedList {
    head: Option<Box<Node>>,
    size: usize,
}

impl View for LinkedList {
    type V = Seq<u32>;

    closed spec fn view(&self) -> Seq<u32> {
        chain_view(self.head)
    }
}

impl LinkedList {
    /// The stored size is the number of values.
    pub closed spec fn wf(&self) -> bool {
        self.size == self@.len()
    }

    /// An empty list.
    pub fn new() -> (r: LinkedList)
        ensures
            r.wf(),
            r@ == Seq::<u32>::empty(),
    {
        LinkedList { head: None, size: 0 }
    }

    /// The number of values in the list.
    pub fn get_size(&self) -> (r: usize)
        requires
            self.wf(),
        ensures
            r == self@.len(),
    {
        self.size
    }

    /// Whether the list holds no value.
    pub fn is_empty(&self) -> (r: bool)
        requires
            self.wf(),
        ensures
            r == (self@.len() == 0),
    {
        self.get_size() == 0
    }

    /// Puts `value` in front of the list.
    pub fn push(&mut self, value: u32)
        requires
            old(self).wf(),
            old(self)@.len() < usize::MAX,
        ensures
            final(self).wf(),
            final(self)@ == seq![value] + old(self)@,
    {
        let new_node: Box<Node> = Box::new(Node::new(value, self.head.take()));
        self.head = Some(new_node);
        self.size = self.size + 1;
    }

    /// Takes the front value out of the list, if there is one.
    pub fn pop(&mut self) -> (r: Option<u32>)
        requires
            old(self).wf(),
        ensures
            final(self).wf(),
            old(self)@.len() == 0 ==> r is None && final(self)@ == old(self)@,
            old(self)@.len() > 0 ==> r == Some(old(self)@[0]) && final(self)@ == old(self)@.drop_first(),
    {
        match self.head.take() {
            None => None,
            Some(node) => {
                let node = *node;
                proof {
                    assert(old(self)@ == seq![node.value] + chain_view(node.next));
                    assert((seq![node.value] + chain_view(node.next)).drop_first() =~= chain_view(node.next));
                }
                self.head = node.next;
                self.size = self.size - 1;
                Some(node.value)
            },
        }
    }
}

} // verus!
