use vstd::prelude::*;

use crate::relation::{decode_lossy, has_ascii_word, is_ascii_word, lossy_text, Relation};
use crate::tree::{bytes_eq, Node, TreeContext};

verus! {

/// The name of the `id` attribute.
pub open spec fn id_attr() -> Seq<u8> {
    seq![0x69u8, 0x64u8]
}

/// The name of the `class` attribute.
pub open spec fn class_attr() -> Seq<u8> {
    seq![0x63u8, 0x6cu8, 0x61u8, 0x73u8, 0x73u8]
}

/// A single query selector node.
#[derive(Debug)]
pub enum Selector<'a> {
    /// Tag selector: `foo`
    Tag(&'a [u8]),
    /// ID selector: `#foo`
    Id(&'a [u8]),
    /// Class selector: `.foo`
    Class(&'a [u8]),
    /// All selector: `*`
    All,
    /// And combinator: `.foo.bar`
    And(Box<Selector<'a>>, Box<Selector<'a>>),
    /// Or combinator: `.foo, .bar`
    Or(Box<Selector<'a>>, Box<Selector<'a>>),
    /// Descendant combinator: `.foo .bar`
    Descendant(Box<Selector<'a>>, Box<Selector<'a>>),
    /// Parent combinator: `.foo > .bar`
    Parent(Box<Selector<'a>>, Box<Selector<'a>>),
    /// Attribute: `[foo]`
    Attribute(&'a [u8]),
    /// Attribute with value: `[foo=bar]`
    AttributeValue(&'a [u8], &'a [u8]),
    /// Attribute with a white-space separated list of values that holds a value: `[foo~=bar]`
    AttributeValueWhitespacedContains(&'a [u8], &'a [u8]),
    /// Attribute with a value that starts with: `[foo^=bar]`
    AttributeValueStartsWith(&'a [u8], &'a [u8]),
    /// Attribute with a value that ends with: `[foo$=bar]`
    AttributeValueEndsWith(&'a [u8], &'a [u8]),
    /// Attribute with a value that contains: `[foo*=bar]`
    AttributeValueSubstring(&'a [u8], &'a [u8]),
}

impl<'a> Clone for Selector<'a> {
    fn clone(&self) -> (r: Self)
        ensures
            r == *self,
        decreases self,
    {
        match self {
            Selector::Tag(x) => Selector::Tag(x),
            Selector::Id(x) => Selector::Id(x),
            Selector::Class(x) => Selector::Class(x),
            Selector::All => Selector::All,
            Selector::And(a, b) => Selector::And(Box::new((**a).clone()), Box::new((**b).clone())),
            Selector::Or(a, b) => Selector::Or(Box::new((**a).clone()), Box::new((**b).clone())),
            Selector::Descendant(a, b) => Selector::Descendant(
                Box::new((**a).clone()),
                Box::new((**b).clone()),
            ),
            Selector::Parent(a, b) => Selector::Parent(
                Box::new((**a).clone()),
                Box::new((**b).clone()),
            ),
            Selector::Attribute(x) => Selector::Attribute(x),
            Selector::AttributeValue(x, y) => Selector::AttributeValue(x, y),
            Selector::AttributeValueWhitespacedContains(x, y) => Selector::AttributeValueWhitespacedContains(x, y),
            Selector::AttributeValueStartsWith(x, y) => Selector::AttributeValueStartsWith(x, y),
            Selector::AttributeValueEndsWith(x, y) => Selector::AttributeValueEndsWith(x, y),
            Selector::AttributeValueSubstring(x, y) => Selector::AttributeValueSubstring(x, y),
        }
    }
}

/// `n` is an element with an attribute `name` whose value, decoded, stands in
/// relation `rel` to the decoded `text`.
pub open spec fn attribute_relates(n: Node, name: Seq<u8>, text: Seq<u8>, rel: Relation) -> bool {
    match n {
        Node::Tag(t) => match t.attribute_spec(name) {
            Some(Some(v)) => rel.holds(lossy_text(v), lossy_text(text)),
            _ => false,
        },
        _ => false,
    }
}

/// Some strict ancestor of `n` in `ctx` is matched by `a`.
pub open spec fn some_ancestor_matches(a: Selector, n: Node, ctx: TreeContext) -> bool
    decreases a, 1nat,
{
    exists|k: nat|
        match #[trigger] ctx.ancestor(n, k) {
            Some(m) => a.spec_matches(m, ctx),
            None => false,
        }
}

impl<'a> Selector<'a> {
    /// Whether node `n` of `ctx` satisfies this selector.
    pub open spec fn spec_matches(self, n: Node, ctx: TreeContext) -> bool
        decreases self, 0nat,
    {
        match self {
            Selector::Tag(name) => n matches Node::Tag(t) && t.name@ == name@,
            Selector::Id(id) => n matches Node::Tag(t) && t.attribute_spec(id_attr()) == Some(
                Some(id@),
            ),
            Selector::Class(class) => n matches Node::Tag(t) && t.attribute_spec(class_attr())
                matches Some(Some(list)) && is_ascii_word(list, class@),
            Selector::All => true,
            Selector::And(a, b) => a.spec_matches(n, ctx) && b.spec_matches(n, ctx),
            Selector::Or(a, b) => a.spec_matches(n, ctx) || b.spec_matches(n, ctx),
            Selector::Descendant(a, b) => b.spec_matches(n, ctx) && some_ancestor_matches(
                *a,
                n,
                ctx,
            ),
            Selector::Parent(a, b) => ctx.parent_node(n) matches Some(p) && a.spec_matches(p, ctx)
                && b.spec_matches(n, ctx),
            Selector::Attribute(name) => n matches Node::Tag(t) && t.attribute_spec(name@) is Some,
            Selector::AttributeValue(name, text) => attribute_relates(
                n,
                name@,
                text@,
                Relation::Equals,
            ),
            Selector::AttributeValueWhitespacedContains(name, text) => attribute_relates(
                n,
                name@,
                text@,
                Relation::WhitespaceToken,
            ),
            Selector::AttributeValueStartsWith(name, text) => attribute_relates(
                n,
                name@,
                text@,
                Relation::StartsWith,
            ),
            Selector::AttributeValueEndsWith(name, text) => attribute_relates(
                n,
                name@,
                text@,
                Relation::EndsWith,
            ),
            Selector::AttributeValueSubstring(name, text) => attribute_relates(
                n,
                name@,
                text@,
                Relation::Contains,
            ),
        }
    }
    /// Checks whether `node`, a node of `ctx` or one that names its parent in
    /// `ctx`, matches this selector.
    pub fn matches(&self, node: &Node, ctx: &TreeContext) -> (r: bool)
        requires
            ctx.wf(),
        ensures
            r == self.spec_matches(*node, *ctx),
        decreases self, 0nat,
    {
        match self {
            Selector::Tag(name) => match node.as_tag() {
                Some(t) => bytes_eq(t.name.as_slice(), name),
                None => false,
            },
            Selector::Id(id) => match node.as_tag() {
                Some(t) => {
                    let attr: [u8; 2] = [0x69, 0x64];
                    assert(attr@ =~= id_attr());
                    match t.attribute(attr.as_slice()) {
                        Some(a) => match &a.value {
                            Some(v) => bytes_eq(v.as_slice(), id),
                            None => false,
                        },
                        None => false,
                    }
                },
                None => false,
            },
            Selector::Class(class) => match node.as_tag() {
                Some(t) => {
                    let attr: [u8; 5] = [0x63, 0x6c, 0x61, 0x73, 0x73];
                    assert(attr@ =~= class_attr());
                    match t.attribute(attr.as_slice()) {
                        Some(a) => match &a.value {
                            Some(v) => has_ascii_word(v.as_slice(), class),
                            None => false,
                        },
                        None => false,
                    }
                },
                None => false,
            },
            Selector::All => true,
            Selector::And(a, b) => a.matches(node, ctx) && b.matches(node, ctx),
            Selector::Or(a, b) => a.matches(node, ctx) || b.matches(node, ctx),
            Selector::Parent(a, b) => match ctx.parent_of(node) {
                Some(h) => {
                    let parent = ctx.get(h).unwrap();
                    a.matches(parent, ctx) && b.matches(node, ctx)
                },
                None => false,
            },
            Selector::Descendant(a, b) => b.matches(node, ctx) && ancestor_matches(a, node, ctx),
            Selector::Attribute(name) => match node.as_tag() {
                Some(t) => t.attribute(name).is_some(),
                None => false,
            },
            Selector::AttributeValue(name, text) => check_attribute(
                node,
                name,
                text,
                Relation::Equals,
            ),
            Selector::AttributeValueEndsWith(name, text) => check_attribute(
                node,
                name,
                text,
                Relation::EndsWith,
            ),
            Selector::AttributeValueStartsWith(name, text) => check_attribute(
                node,
                name,
                text,
                Relation::StartsWith,
            ),
            Selector::AttributeValueSubstring(name, text) => check_attribute(
                node,
                name,
                text,
                Relation::Contains,
            ),
            Selector::AttributeValueWhitespacedContains(name, text) => check_attribute(
                node,
                name,
                text,
                Relation::WhitespaceToken,
            ),
        }
    }
}

/// Walks up from `node`, nearest ancestor first, and checks whether some
/// strict ancestor matches `a`.
fn ancestor_matches(a: &Selector, node: &Node, ctx: &TreeContext) -> (r: bool)
    requires
        ctx.wf(),
    ensures
        r == some_ancestor_matches(*a, *node, *ctx),
    decreases a, 1nat,
{
    let mut h = match ctx.parent_of(node) {
        Some(h) => h,
        None => {
            proof {
                lemma_chain_ends(*ctx, *node, 0);
            }
            return false;
        },
    };
    let ghost mut k: nat = 0;
    loop
        invariant
            ctx.wf(),
            h < ctx@.len(),
            ctx.ancestor(*node, k) == Some(ctx@[h as int]),
            forall|j: nat|
                j < k ==> match #[trigger] ctx.ancestor(*node, j) {
                    Some(m) => !a.spec_matches(m, *ctx),
                    None => true,
                },
        decreases h,
    {
        let current = ctx.get(h).unwrap();
        if a.matches(current, ctx) {
            assert(match ctx.ancestor(*node, k) {
                Some(m) => a.spec_matches(m, *ctx),
                None => false,
            });
            return true;
        }
        match ctx.parent_of(current) {
            Some(p) => {
                assert(ctx@[h as int].parent_handle() == Some(p));
                proof {
                    k = k + 1;
                }
                h = p;
            },
            None => {
                proof {
                    lemma_chain_ends(*ctx, *node, k);
                }
                return false;
            },
        }
    }
}

/// Once the chain of parents of `n` stops, at its `k`-th step or before, no
/// later step reaches a node.
pub proof fn lemma_chain_ends(ctx: TreeContext, n: Node, k: nat)
    requires
        match ctx.ancestor(n, k) {
            Some(m) => ctx.parent_node(m) is None,
            None => true,
        },
    ensures
        forall|j: nat| j > k ==> (#[trigger] ctx.ancestor(n, j)) is None,
{
    assert forall|j: nat| j > k implies (#[trigger] ctx.ancestor(n, j)) is None by {
        lemma_chain_ends_at(ctx, n, k, j);
    }
}

proof fn lemma_chain_ends_at(ctx: TreeContext, n: Node, k: nat, j: nat)
    requires
        j > k,
        match ctx.ancestor(n, k) {
            Some(m) => ctx.parent_node(m) is None,
            None => true,
        },
    ensures
        ctx.ancestor(n, j) is None,
    decreases j,
{
    if j > k + 1 {
        lemma_chain_ends_at(ctx, n, k, (j - 1) as nat);
    }
}

/// Checks that `node` is an element with an attribute `name` whose value,
/// decoded, stands in relation `rel` to the decoded `text`.
pub fn check_attribute(node: &Node, name: &[u8], text: &[u8], rel: Relation) -> (r: bool)
    ensures
        r == attribute_relates(*node, name@, text@, rel),
{
    match node.as_tag() {
        Some(t) => match t.attribute(name) {
            Some(a) => match &a.value {
                Some(v) => {
                    let value = decode_lossy(v.as_slice());
                    let wanted = decode_lossy(text);
                    rel.test(value.as_slice(), wanted.as_slice())
                },
                None => false,
            },
            None => false,
        },
        None => false,
    }
}

} // verus!
