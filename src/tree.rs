use vstd::prelude::*;

verus! {

/// Position of a node in a [`TreeContext`].
pub type NodeHandle = usize;

/// One attribute of a tag: its name, and its value unless it was written
/// without one (`<input disabled>`).
#[derive(Debug, Clone)]
pub struct Attr {
    pub name: Vec<u8>,
    pub value: Option<Vec<u8>>,
}

/// An element of the tree.
#[derive(Debug, Clone)]
pub struct HtmlTag {
    pub name: Vec<u8>,
    pub attributes: Vec<Attr>,
    /// The enclosing element, if any.
    pub parent: Option<NodeHandle>,
}

/// A node of the tree: an element, or text, or a comment.
#[derive(Debug, Clone)]
pub enum Node {
    Tag(HtmlTag),
    Raw(Vec<u8>),
    Comment(Vec<u8>),
}

/// What a lookup of an attribute by name finds in `attrs`: the first
/// attribute of that name, as its value or its absence of value.
pub open spec fn lookup_attr(attrs: Seq<Attr>, name: Seq<u8>) -> Option<Option<Seq<u8>>>
    decreases attrs.len(),
{
    if attrs.len() == 0 {
        None
    } else if attrs[0].name@ == name {
        match attrs[0].value {
            Some(v) => Some(Some(v@)),
            None => Some(None),
        }
    } else {
        lookup_attr(attrs.skip(1), name)
    }
}

/// Compares two byte strings.
pub fn bytes_eq(a: &[u8], b: &[u8]) -> (r: bool)
    ensures
        r == (a@ == b@),
{
    if a.len() != b.len() {
        return false;
    }
    let mut i: usize = 0;
    while i < a.len()
        invariant
            a@.len() == b@.len(),
            i <= a@.len(),
            a@.subrange(0, i as int) == b@.subrange(0, i as int),
        decreases a@.len() - i,
    {
        if a[i] != b[i] {
            assert(a@.subrange(0, i as int + 1)[i as int] != b@.subrange(0, i as int + 1)[i as int]);
            return false;
        }
        assert(a@.subrange(0, i as int + 1) =~= a@.subrange(0, i as int).push(a@[i as int]));
        assert(b@.subrange(0, i as int + 1) =~= b@.subrange(0, i as int).push(b@[i as int]));
        i = i + 1;
    }
    assert(a@ =~= a@.subrange(0, i as int));
    assert(b@ =~= b@.subrange(0, i as int));
    true
}

impl HtmlTag {
    /// The attribute named `name`: `None` when the tag has none, `Some(None)`
    /// when it has one without a value.
    pub open spec fn attribute_spec(self, name: Seq<u8>) -> Option<Option<Seq<u8>>> {
        lookup_attr(self.attributes@, name)
    }

    /// Looks up the first attribute named `name`.
    pub fn attribute(&self, name: &[u8]) -> (r: Option<&Attr>)
        ensures
            match r {
                Some(a) => a.name@ == name@ && self.attribute_spec(name@) == Some(
                    match a.value {
                        Some(v) => Some(v@),
                        None => None,
                    },
                ),
                None => self.attribute_spec(name@) is None,
            },
    {
        let mut i: usize = 0;
        assert(self.attributes@.skip(0) =~= self.attributes@);
        while i < self.attributes.len()
            invariant
                i <= self.attributes@.len(),
                lookup_attr(self.attributes@, name@) == lookup_attr(
                    self.attributes@.skip(i as int),
                    name@,
                ),
            decreases self.attributes@.len() - i,
        {
            let a = &self.attributes[i];
            assert(self.attributes@.skip(i as int)[0] == *a);
            if bytes_eq(a.name.as_slice(), name) {
                return Some(a);
            }
            assert(self.attributes@.skip(i as int).skip(1) =~= self.attributes@.skip(i as int + 1));
            i = i + 1;
        }
        None
    }
}

impl Node {
    /// The parent handle that an element holds; other nodes hold none.
    pub open spec fn parent_handle(self) -> Option<NodeHandle> {
        match self {
            Node::Tag(t) => t.parent,
            _ => None,
        }
    }

    /// The element that this node is, if it is one.
    pub fn as_tag(&self) -> (r: Option<&HtmlTag>)
        ensures
            match *self {
                Node::Tag(t) => r == Some(&t),
                _ => r is None,
            },
    {
        match self {
            Node::Tag(t) => Some(t),
            _ => None,
        }
    }
}

/// The nodes of one tree, each reached by its handle.
///
/// Nodes are appended, and the parent of an element is always a node that
/// was appended before it, so every chain of parents ends.
pub struct TreeContext {
    nodes: Vec<Node>,
}

impl View for TreeContext {
    type V = Seq<Node>;

    closed spec fn view(&self) -> Seq<Node> {
        self.nodes@
    }
}

impl TreeContext {
    /// The handle of the parent of `n`, where `n` is an element whose parent
    /// handle names a node of this tree.
    pub open spec fn parent_index(self, n: Node) -> Option<NodeHandle> {
        match n {
            Node::Tag(t) => match t.parent {
                Some(h) => if h < self@.len() {
                    Some(h)
                } else {
                    None
                },
                None => None,
            },
            _ => None,
        }
    }

    /// The parent of `n` in this tree.
    pub open spec fn parent_node(self, n: Node) -> Option<Node> {
        match self.parent_index(n) {
            Some(h) => Some(self@[h as int]),
            None => None,
        }
    }

    /// The ancestor of `n` that lies `k + 1` steps up: its parent for `k == 0`.
    pub open spec fn ancestor(self, n: Node, k: nat) -> Option<Node>
        decreases k,
    {
        if k == 0 {
            self.parent_node(n)
        } else {
            match self.ancestor(n, (k - 1) as nat) {
                Some(m) => self.parent_node(m),
                None => None,
            }
        }
    }

    /// Every parent comes before its child.
    pub open spec fn wf(self) -> bool {
        forall|i: int|
            0 <= i < self@.len() ==> match #[trigger] self@[i].parent_handle() {
                Some(p) => p < i,
                None => true,
            }
    }

    /// Creates an empty tree.
    pub fn new() -> (r: Self)
        ensures
            r@ == Seq::<Node>::empty(),
            r.wf(),
    {
        TreeContext { nodes: Vec::new() }
    }

    /// The number of nodes.
    pub fn len(&self) -> (r: usize)
        ensures
            r == self@.len(),
    {
        self.nodes.len()
    }

    /// `n` may be appended: it names no parent, or one already in the tree.
    pub open spec fn accepts(self, n: Node) -> bool {
        match n.parent_handle() {
            Some(p) => p < self@.len(),
            None => true,
        }
    }

    /// Appends `node` and returns its handle. An element whose parent handle
    /// names no node of the tree yet is refused, and `None` returned.
    pub fn push(&mut self, node: Node) -> (r: Option<NodeHandle>)
        requires
            old(self).wf(),
        ensures
            final(self).wf(),
            old(self).accepts(node) ==> r == Some(old(self)@.len() as NodeHandle) && final(self)@
                == old(self)@.push(node),
            !old(self).accepts(node) ==> r is None && final(self)@ == old(self)@,
    {
        if let Node::Tag(t) = &node {
            if let Some(p) = t.parent {
                if p >= self.nodes.len() {
                    return None;
                }
            }
        }
        let h = self.nodes.len();
        let ghost before = self@;
        self.nodes.push(node);
        assert forall|i: int| 0 <= i < self@.len() implies match #[trigger] self@[i].parent_handle() {
            Some(p) => p < i,
            None => true,
        } by {
            if i < h {
                assert(self@[i] == before[i]);
            }
        }
        Some(h)
    }

    /// The node with handle `h`, if there is one.
    pub fn get(&self, h: NodeHandle) -> (r: Option<&Node>)
        ensures
            h < self@.len() ==> r == Some(&self@[h as int]),
            h >= self@.len() ==> r is None,
    {
        if h < self.nodes.len() {
            Some(&self.nodes[h])
        } else {
            None
        }
    }

    /// The handle of the parent of `n`, where it names a node of this tree.
    pub fn parent_of(&self, n: &Node) -> (r: Option<NodeHandle>)
        ensures
            r == self.parent_index(*n),
    {
        match n {
            Node::Tag(t) => match t.parent {
                Some(h) => if h < self.nodes.len() {
                    Some(h)
                } else {
                    None
                },
                None => None,
            },
            _ => None,
        }
    }
}

} // verus!
