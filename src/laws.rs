use vstd::prelude::*;

use crate::relation::{lossy_text, occurs_at, Relation};
use crate::selector::Selector;
use crate::tree::{Node, TreeContext};

verus! {

/// `All` is a unit of `And` and an absorbing element of `Or`: `Or(e, All)`
/// matches every node, and `And(e, All)` matches exactly where `e` does.
pub proof fn lemma_all_identities<'a>(e: Selector<'a>, n: Node, ctx: TreeContext)
    ensures
        Selector::Or(Box::new(e), Box::new(Selector::All)).spec_matches(n, ctx),
        Selector::And(Box::new(e), Box::new(Selector::All)).spec_matches(n, ctx)
            == e.spec_matches(n, ctx),
{
    reveal_with_fuel(Selector::spec_matches, 3);
}

/// `And` and `Or` are commutative in their result.
pub proof fn lemma_and_or_commutative<'a>(a: Selector<'a>, b: Selector<'a>, n: Node, ctx: TreeContext)
    ensures
        Selector::And(Box::new(a), Box::new(b)).spec_matches(n, ctx) == Selector::And(
            Box::new(b),
            Box::new(a),
        ).spec_matches(n, ctx),
        Selector::Or(Box::new(a), Box::new(b)).spec_matches(n, ctx) == Selector::Or(
            Box::new(b),
            Box::new(a),
        ).spec_matches(n, ctx),
{
    reveal_with_fuel(Selector::spec_matches, 3);
}

/// `And` and `Or` are associative in their result.
pub proof fn lemma_and_or_associative<'a>(
    a: Selector<'a>,
    b: Selector<'a>,
    c: Selector<'a>,
    n: Node,
    ctx: TreeContext,
)
    ensures
        Selector::And(Box::new(a), Box::new(Selector::And(Box::new(b), Box::new(c)))).spec_matches(
            n,
            ctx,
        ) == Selector::And(
            Box::new(Selector::And(Box::new(a), Box::new(b))),
            Box::new(c),
        ).spec_matches(n, ctx),
        Selector::Or(Box::new(a), Box::new(Selector::Or(Box::new(b), Box::new(c)))).spec_matches(
            n,
            ctx,
        ) == Selector::Or(
            Box::new(Selector::Or(Box::new(a), Box::new(b))),
            Box::new(c),
        ).spec_matches(n, ctx),
{
    reveal_with_fuel(Selector::spec_matches, 3);
}

/// A node without a parent in the tree matches no descendant selector,
/// whatever the ancestor selector is.
pub proof fn lemma_descendant_of_root<'a>(a: Selector<'a>, t: Selector<'a>, n: Node, ctx: TreeContext)
    requires
        ctx.parent_node(n) is None,
    ensures
        !Selector::Descendant(Box::new(a), Box::new(t)).spec_matches(n, ctx),
{
    reveal_with_fuel(Selector::spec_matches, 2);
    crate::selector::lemma_chain_ends(ctx, n, 0);
    assert(!crate::selector::some_ancestor_matches(a, n, ctx));
}

/// A node without a parent matches no parent selector; a node with one
/// matches it exactly where the target matches the node and the parent
/// selector matches its parent.
pub proof fn lemma_parent_combinator<'a>(a: Selector<'a>, t: Selector<'a>, n: Node, ctx: TreeContext)
    ensures
        Selector::Parent(Box::new(a), Box::new(t)).spec_matches(n, ctx) == match ctx.parent_node(
            n,
        ) {
            Some(p) => t.spec_matches(n, ctx) && a.spec_matches(p, ctx),
            None => false,
        },
{
}

/// Every value begins with the empty text.
pub proof fn lemma_empty_prefix(value: Seq<char>)
    ensures
        Relation::StartsWith.holds(value, Seq::empty()),
{
    assert(value.subrange(0, 0) =~= Seq::<char>::empty());
}

/// A selector that asks for a prefix whose text decodes to nothing matches
/// every element that has the attribute with a value.
pub proof fn lemma_empty_prefix_matches<'a>(
    name: &'a [u8],
    text: &'a [u8],
    n: Node,
    ctx: TreeContext,
)
    requires
        n matches Node::Tag(t) && t.attribute_spec(name@) matches Some(Some(_)),
        lossy_text(text@).len() == 0,
    ensures
        Selector::AttributeValueStartsWith(name, text).spec_matches(n, ctx),
{
    if let Node::Tag(t) = n {
        if let Some(Some(v)) = t.attribute_spec(name@) {
            lemma_empty_prefix(lossy_text(v));
            assert(lossy_text(text@) =~= Seq::<char>::empty());
        }
    }
}

/// A value that equals the text also contains it.
pub proof fn lemma_equal_contains(value: Seq<char>, text: Seq<char>)
    requires
        Relation::Equals.holds(value, text),
    ensures
        Relation::Contains.holds(value, text),
{
    assert(value.subrange(0, text.len() as int) =~= text);
    assert(occurs_at(value, text, 0));
}

/// Wherever an exact attribute value selector matches, the substring
/// selector with the same name and text matches too.
pub proof fn lemma_exact_implies_substring<'a>(
    name: &'a [u8],
    text: &'a [u8],
    n: Node,
    ctx: TreeContext,
)
    requires
        Selector::AttributeValue(name, text).spec_matches(n, ctx),
    ensures
        Selector::AttributeValueSubstring(name, text).spec_matches(n, ctx),
{
    if let Node::Tag(t) = n {
        if let Some(Some(v)) = t.attribute_spec(name@) {
            lemma_equal_contains(lossy_text(v), lossy_text(text@));
        }
    }
}

/// A tag selector matches no node that is not an element.
pub proof fn lemma_tag_needs_element<'a>(name: &'a [u8], n: Node, ctx: TreeContext)
    requires
        !(n is Tag),
    ensures
        !Selector::Tag(name).spec_matches(n, ctx),
{
}

} // verus!
