use tl::relation::Relation;
use tl::{Attr, HtmlTag, Node, NodeHandle, Selector, TreeContext};

fn attr(name: &str, value: Option<&[u8]>) -> Attr {
    Attr { name: name.as_bytes().to_vec(), value: value.map(|v| v.to_vec()) }
}

fn tag(name: &str, attributes: Vec<Attr>, parent: Option<NodeHandle>) -> Node {
    Node::Tag(HtmlTag { name: name.as_bytes().to_vec(), attributes, parent })
}

fn add(ctx: &mut TreeContext, node: Node) -> NodeHandle {
    ctx.push(node).expect("parent precedes child")
}

fn node(ctx: &TreeContext, h: NodeHandle) -> &Node {
    ctx.get(h).expect("handle of the tree")
}

fn b(s: &str) -> Box<Selector<'_>> {
    Box::new(Selector::Tag(s.as_bytes()))
}

/// html > body > div#main.card > span.label, with a text node under the span.
struct Page {
    ctx: TreeContext,
    html: NodeHandle,
    body: NodeHandle,
    div: NodeHandle,
    span: NodeHandle,
    text: NodeHandle,
}

fn page() -> Page {
    let mut ctx = TreeContext::new();
    let html = add(&mut ctx, tag("html", vec![], None));
    let body = add(&mut ctx, tag("body", vec![], Some(html)));
    let div = add(
        &mut ctx,
        tag("div", vec![attr("id", Some(b"main")), attr("class", Some(b"card"))], Some(body)),
    );
    let span = add(&mut ctx, tag("span", vec![attr("class", Some(b"label"))], Some(div)));
    let text = add(&mut ctx, Node::Raw(b"hello".to_vec()));
    Page { ctx, html, body, div, span, text }
}

fn single(attributes: Vec<Attr>) -> (TreeContext, NodeHandle) {
    let mut ctx = TreeContext::new();
    let h = add(&mut ctx, tag("p", attributes, None));
    (ctx, h)
}

#[test]
fn end_to_end_card_page() {
    let p = page();
    let desc = Selector::Descendant(
        Box::new(Selector::Class(b"card")),
        Box::new(Selector::Tag(b"span")),
    );
    assert!(desc.matches(node(&p.ctx, p.span), &p.ctx));
    let parent = Selector::Parent(b("div"), b("span"));
    assert!(parent.matches(node(&p.ctx, p.span), &p.ctx));
    let id = Selector::Id(b"main");
    for h in [p.html, p.body, p.div, p.span, p.text] {
        assert_eq!(id.matches(node(&p.ctx, h), &p.ctx), h == p.div);
    }
}

#[test]
fn tag_matches_element_not_text() {
    let p = page();
    let div = Selector::Tag(b"div");
    assert!(div.matches(node(&p.ctx, p.div), &p.ctx));
    assert!(!div.matches(node(&p.ctx, p.span), &p.ctx));
    assert!(!div.matches(node(&p.ctx, p.text), &p.ctx));
    assert!(!div.matches(&Node::Comment(b"div".to_vec()), &p.ctx));
}

#[test]
fn all_is_identity_of_and_and_absorbs_or() {
    let p = page();
    for h in [p.html, p.body, p.div, p.span, p.text] {
        let n = node(&p.ctx, h);
        let or = Selector::Or(b("div"), Box::new(Selector::All));
        assert!(or.matches(n, &p.ctx));
        let and = Selector::And(b("div"), Box::new(Selector::All));
        assert_eq!(and.matches(n, &p.ctx), Selector::Tag(b"div").matches(n, &p.ctx));
    }
}

#[test]
fn and_or_commute_and_associate() {
    let p = page();
    let cls = || Box::new(Selector::Class(b"card"));
    let id = || Box::new(Selector::Id(b"main"));
    for h in [p.html, p.body, p.div, p.span, p.text] {
        let n = node(&p.ctx, h);
        let ab = Selector::And(b("div"), cls()).matches(n, &p.ctx);
        let ba = Selector::And(cls(), b("div")).matches(n, &p.ctx);
        assert_eq!(ab, ba);
        let oab = Selector::Or(b("span"), cls()).matches(n, &p.ctx);
        let oba = Selector::Or(cls(), b("span")).matches(n, &p.ctx);
        assert_eq!(oab, oba);
        let left = Selector::And(Box::new(Selector::And(b("div"), cls())), id());
        let right = Selector::And(b("div"), Box::new(Selector::And(cls(), id())));
        assert_eq!(left.matches(n, &p.ctx), right.matches(n, &p.ctx));
        let left = Selector::Or(Box::new(Selector::Or(b("html"), cls())), b("span"));
        let right = Selector::Or(b("html"), Box::new(Selector::Or(cls(), b("span"))));
        assert_eq!(left.matches(n, &p.ctx), right.matches(n, &p.ctx));
    }
    let all_three = Selector::And(Box::new(Selector::And(b("div"), cls())), id());
    assert!(all_three.matches(node(&p.ctx, p.div), &p.ctx));
}

#[test]
fn descendant_of_root_is_false() {
    let p = page();
    let sel = Selector::Descendant(Box::new(Selector::All), Box::new(Selector::All));
    assert!(!sel.matches(node(&p.ctx, p.html), &p.ctx));
    assert!(sel.matches(node(&p.ctx, p.body), &p.ctx));
}

#[test]
fn descendant_reaches_far_ancestors() {
    let p = page();
    let sel = Selector::Descendant(b("html"), b("span"));
    assert!(sel.matches(node(&p.ctx, p.span), &p.ctx));
    let sel = Selector::Descendant(b("span"), b("span"));
    assert!(!sel.matches(node(&p.ctx, p.span), &p.ctx));
    let sel = Selector::Descendant(b("html"), b("div"));
    assert!(!sel.matches(node(&p.ctx, p.span), &p.ctx));
}

#[test]
fn text_node_has_no_ancestors() {
    let mut ctx = TreeContext::new();
    let _root = add(&mut ctx, tag("html", vec![], None));
    let text = add(&mut ctx, Node::Raw(b"x".to_vec()));
    let sel = Selector::Descendant(Box::new(Selector::All), Box::new(Selector::All));
    assert!(!sel.matches(node(&ctx, text), &ctx));
    let sel = Selector::Parent(Box::new(Selector::All), Box::new(Selector::All));
    assert!(!sel.matches(node(&ctx, text), &ctx));
}

#[test]
fn parent_combinator() {
    let p = page();
    let sel = Selector::Parent(Box::new(Selector::All), Box::new(Selector::All));
    assert!(!sel.matches(node(&p.ctx, p.html), &p.ctx));
    let sel = Selector::Parent(b("body"), b("div"));
    assert!(sel.matches(node(&p.ctx, p.div), &p.ctx));
    let sel = Selector::Parent(b("html"), b("div"));
    assert!(!sel.matches(node(&p.ctx, p.div), &p.ctx));
    let sel = Selector::Parent(b("body"), b("span"));
    assert!(!sel.matches(node(&p.ctx, p.div), &p.ctx));
}

#[test]
fn parent_outside_tree_is_absent() {
    let p = page();
    let stray = tag("span", vec![], Some(99));
    let sel = Selector::Parent(Box::new(Selector::All), b("span"));
    assert!(!sel.matches(&stray, &p.ctx));
    let detached = tag("span", vec![], Some(p.div));
    assert!(sel.matches(&detached, &p.ctx));
}

#[test]
fn push_refuses_unknown_parent() {
    let mut ctx = TreeContext::new();
    assert_eq!(ctx.push(tag("a", vec![], Some(0))), None);
    assert_eq!(ctx.len(), 0);
    assert_eq!(ctx.push(tag("a", vec![], None)), Some(0));
    assert_eq!(ctx.push(tag("b", vec![], Some(0))), Some(1));
    assert_eq!(ctx.push(tag("c", vec![], Some(2))), None);
    assert_eq!(ctx.len(), 2);
    assert!(ctx.get(2).is_none());
}

#[test]
fn whitespaced_contains_class_words() {
    let (ctx, h) = single(vec![attr("class", Some(b"foo bar"))]);
    let sel = Selector::AttributeValueWhitespacedContains(b"class", b"foo");
    assert!(sel.matches(node(&ctx, h), &ctx));
    let (ctx, h) = single(vec![attr("class", Some(b"foobar"))]);
    assert!(!sel.matches(node(&ctx, h), &ctx));
}

#[test]
fn whitespaced_contains_unicode_space_and_empty() {
    let (ctx, h) = single(vec![attr("title", Some("foo\u{3000}bar".as_bytes()))]);
    let sel = Selector::AttributeValueWhitespacedContains(b"title", b"bar");
    assert!(sel.matches(node(&ctx, h), &ctx));
    let sel = Selector::AttributeValueWhitespacedContains(b"title", b"");
    assert!(!sel.matches(node(&ctx, h), &ctx));
    let sel = Selector::AttributeValueWhitespacedContains(b"title", b"foo bar");
    assert!(!sel.matches(node(&ctx, h), &ctx));
}

#[test]
fn class_splits_on_ascii_space() {
    let (ctx, h) = single(vec![attr("class", Some(b" a\tb\nc  "))]);
    for c in [&b"a"[..], b"b", b"c"] {
        assert!(Selector::Class(c).matches(node(&ctx, h), &ctx));
    }
    assert!(!Selector::Class(b"a b").matches(node(&ctx, h), &ctx));
    assert!(!Selector::Class(b"").matches(node(&ctx, h), &ctx));
    let (ctx, h) = single(vec![attr("class", Some("x\u{3000}y".as_bytes()))]);
    assert!(!Selector::Class(b"y").matches(node(&ctx, h), &ctx));
}

#[test]
fn id_needs_exact_value() {
    let (ctx, h) = single(vec![attr("id", Some(b"main"))]);
    assert!(Selector::Id(b"main").matches(node(&ctx, h), &ctx));
    assert!(!Selector::Id(b"mai").matches(node(&ctx, h), &ctx));
    let (ctx, h) = single(vec![attr("id", None)]);
    assert!(!Selector::Id(b"").matches(node(&ctx, h), &ctx));
}

#[test]
fn attribute_presence_includes_valueless() {
    let (ctx, h) = single(vec![attr("disabled", None), attr("data-x", Some(b""))]);
    let n = node(&ctx, h);
    assert!(Selector::Attribute(b"disabled").matches(n, &ctx));
    assert!(Selector::Attribute(b"data-x").matches(n, &ctx));
    assert!(!Selector::Attribute(b"hidden").matches(n, &ctx));
    assert!(!Selector::AttributeValue(b"disabled", b"").matches(n, &ctx));
    assert!(!Selector::AttributeValueStartsWith(b"disabled", b"").matches(n, &ctx));
    assert!(Selector::AttributeValue(b"data-x", b"").matches(n, &ctx));
}

#[test]
fn first_attribute_of_a_name_counts() {
    let (ctx, h) = single(vec![attr("k", Some(b"one")), attr("k", Some(b"two"))]);
    let n = node(&ctx, h);
    assert!(Selector::AttributeValue(b"k", b"one").matches(n, &ctx));
    assert!(!Selector::AttributeValue(b"k", b"two").matches(n, &ctx));
}

#[test]
fn empty_prefix_and_exact_implies_substring() {
    let (ctx, h) = single(vec![attr("href", Some(b"https://example.org/x"))]);
    let n = node(&ctx, h);
    assert!(Selector::AttributeValueStartsWith(b"href", b"").matches(n, &ctx));
    let exact = Selector::AttributeValue(b"href", b"https://example.org/x");
    let sub = Selector::AttributeValueSubstring(b"href", b"https://example.org/x");
    assert!(exact.matches(n, &ctx));
    assert!(sub.matches(n, &ctx));
}

#[test]
fn attribute_value_relations() {
    let (ctx, h) = single(vec![attr("href", Some(b"https://example.org/x.png"))]);
    let n = node(&ctx, h);
    assert!(Selector::AttributeValueStartsWith(b"href", b"https://").matches(n, &ctx));
    assert!(!Selector::AttributeValueStartsWith(b"href", b"http:").matches(n, &ctx));
    assert!(Selector::AttributeValueEndsWith(b"href", b".png").matches(n, &ctx));
    assert!(!Selector::AttributeValueEndsWith(b"href", b".jpg").matches(n, &ctx));
    assert!(Selector::AttributeValueSubstring(b"href", b"example").matches(n, &ctx));
    assert!(!Selector::AttributeValueSubstring(b"href", b"sample").matches(n, &ctx));
    assert!(!Selector::AttributeValue(b"href", b"https").matches(n, &ctx));
    assert!(!Selector::AttributeValueEndsWith(b"href", b"much longer than the value itself")
        .matches(n, &ctx));
}

#[test]
fn attribute_values_compare_as_decoded_text() {
    let (ctx, h) = single(vec![attr("data", Some(&[0x61, 0xff][..]))]);
    let n = node(&ctx, h);
    assert!(Selector::AttributeValue(b"data", &[0x61, 0xfe]).matches(n, &ctx));
    assert!(Selector::AttributeValueEndsWith(b"data", "\u{fffd}".as_bytes()).matches(n, &ctx));
    assert!(!Selector::AttributeValue(b"data", b"a").matches(n, &ctx));
}

#[test]
fn relation_test_on_text() {
    let v: Vec<char> = "alpha beta".chars().collect();
    let t = |s: &str| s.chars().collect::<Vec<char>>();
    assert!(Relation::Equals.test(&v, &t("alpha beta")));
    assert!(!Relation::Equals.test(&v, &t("alpha")));
    assert!(Relation::StartsWith.test(&v, &t("alp")));
    assert!(Relation::EndsWith.test(&v, &t("eta")));
    assert!(!Relation::EndsWith.test(&v, &t("alpha")));
    assert!(Relation::Contains.test(&v, &t("ha b")));
    assert!(Relation::Contains.test(&v, &t("")));
    assert!(Relation::WhitespaceToken.test(&v, &t("beta")));
    assert!(!Relation::WhitespaceToken.test(&v, &t("bet")));
}

#[test]
fn cloned_selector_matches_alike() {
    let p = page();
    let sel = Selector::Descendant(b("body"), Box::new(Selector::Class(b"label")));
    let copy = sel.clone();
    for h in [p.html, p.body, p.div, p.span, p.text] {
        let n = node(&p.ctx, h);
        assert_eq!(sel.matches(n, &p.ctx), copy.matches(n, &p.ctx));
    }
    assert!(copy.matches(node(&p.ctx, p.span), &p.ctx));
}
