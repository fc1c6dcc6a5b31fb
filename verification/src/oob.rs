//! Out-of-band swaps: the `hx-swap-oob` attribute injected into the root element of an HTML
//! fragment, or a `<template>` wrapped around a fragment without a single root element.

use vstd::prelude::*;
use crate::htmx::{InsertStrategy, Strategy, strategy_name};
use crate::text::{chars_of, push_char, push_str, str_eq};

verus! {

broadcast use vstd::seq::group_seq_axioms;

/// An element at the root of an HTML fragment: its tag name, its attributes (in the order the
/// parser keeps them), the value of its `id` attribute, and its inner HTML.
#[derive(Debug, Clone)]
pub struct FragmentElement {
    pub tag: String,
    pub attrs: Vec<(String, String)>,
    pub id: Option<String>,
    pub inner_html: String,
}

/// A node at the root of an HTML fragment.
#[derive(Debug, Clone)]
pub enum FragmentNode {
    /// An element.
    Element(FragmentElement),
    /// Any other node, such as text or a comment.
    Other,
}

/// The model of a root element: tag name, attributes, `id` value and inner HTML.
pub type ElementModel = (Seq<char>, Seq<(Seq<char>, Seq<char>)>, Option<Seq<char>>, Seq<char>);

/// The model of an optional string.
pub open spec fn opt_view(o: Option<String>) -> Option<Seq<char>> {
    match o {
        Some(s) => Some(s@),
        None => None,
    }
}

impl View for FragmentNode {
    type V = Option<ElementModel>;

    open spec fn view(&self) -> Option<ElementModel> {
        match self {
            FragmentNode::Element(e) => Some(
                (
                    e.tag@,
                    e.attrs@.map_values(|a: (String, String)| (a.0@, a.1@)),
                    opt_view(e.id),
                    e.inner_html@,
                ),
            ),
            FragmentNode::Other => None,
        }
    }
}

/// The models of a list of nodes.
pub open spec fn nodes_view(v: Seq<FragmentNode>) -> Seq<Option<ElementModel>> {
    v.map_values(|n: FragmentNode| n@)
}

/// The root nodes that the HTML parser finds in a fragment.
pub uninterp spec fn fragment_nodes(html: Seq<char>) -> Seq<Option<ElementModel>>;

/// Parses an HTML fragment and describes the nodes at its root.
///
/// Trusted: calls `scraper::Html::parse_fragment` and reads the children of the fragment's root
/// element; each is described, if it is an element, by its name, its attributes as
/// `Element::attrs` lists them, its `id` attribute as `Element::attr` finds it, and its inner
/// HTML. The contract names the outcome, a function of the fragment alone.
#[verifier::external_body]
fn parse_fragment_nodes(html: &str) -> (res: Vec<FragmentNode>)
    ensures
        nodes_view(res@) == fragment_nodes(html@),
{
    let fragment = scraper::Html::parse_fragment(html);
    let nodes = fragment.root_element().children().map(|child| match scraper::ElementRef::wrap(child) {
        Some(e) => FragmentNode::Element(FragmentElement {
            tag: e.value().name().to_string(),
            attrs: e.value().attrs().map(|(n, v)| (n.to_string(), v.to_string())).collect(),
            id: e.value().attr("id").map(|v| v.to_string()),
            inner_html: e.inner_html(),
        }),
        None => FragmentNode::Other,
    });
    nodes.collect()
}

/// The elements among some nodes, in order.
pub open spec fn elements_of(nodes: Seq<Option<ElementModel>>) -> Seq<ElementModel>
    decreases nodes.len(),
{
    if nodes.len() == 0 {
        Seq::empty()
    } else {
        match nodes.last() {
            Some(e) => elements_of(nodes.drop_last()).push(e),
            None => elements_of(nodes.drop_last()),
        }
    }
}

/// The elements that HTML writes without an end tag.
pub open spec fn is_void_tag(tag: Seq<char>) -> bool {
    tag == "area"@ || tag == "base"@ || tag == "br"@ || tag == "col"@ || tag == "embed"@ || tag
        == "hr"@ || tag == "img"@ || tag == "input"@ || tag == "link"@ || tag == "meta"@ || tag
        == "param"@ || tag == "source"@ || tag == "track"@ || tag == "wbr"@
}

/// Check if an HTML tag is a void element (self-closing).
pub fn is_void_element(tag: &str) -> (res: bool)
    ensures
        res == is_void_tag(tag@),
{
    str_eq(tag, "area") || str_eq(tag, "base") || str_eq(tag, "br") || str_eq(tag, "col") || str_eq(
        tag,
        "embed",
    ) || str_eq(tag, "hr") || str_eq(tag, "img") || str_eq(tag, "input") || str_eq(tag, "link")
        || str_eq(tag, "meta") || str_eq(tag, "param") || str_eq(tag, "source") || str_eq(
        tag,
        "track",
    ) || str_eq(tag, "wbr")
}

/// The value of the `hx-swap-oob` attribute: `true` when an `outerHTML` swap targets the id of
/// the element itself, otherwise `<strategy>:<target>`.
pub open spec fn oob_value(strategy: Strategy, target: Seq<char>, id: Option<Seq<char>>) -> Seq<char> {
    if target.len() > 0 && target[0] == '#' && strategy_name(strategy) == "outerHTML"@ && (
    id matches Some(i) && seq!['#'] + i == target) {
        "true"@
    } else {
        strategy_name(strategy) + seq![':'] + target
    }
}

/// An attribute as written in a start tag: `name="value"`.
pub open spec fn attr_text(name: Seq<char>, value: Seq<char>) -> Seq<char> {
    name + seq!['=', '"'] + value + seq!['"']
}

/// The attributes of an element, but any `hx-swap-oob` one, as written in a start tag.
pub open spec fn kept_attrs(attrs: Seq<(Seq<char>, Seq<char>)>) -> Seq<Seq<char>>
    decreases attrs.len(),
{
    if attrs.len() == 0 {
        Seq::empty()
    } else if attrs.last().0 == "hx-swap-oob"@ {
        kept_attrs(attrs.drop_last())
    } else {
        kept_attrs(attrs.drop_last()).push(attr_text(attrs.last().0, attrs.last().1))
    }
}

/// Texts joined with single spaces.
pub open spec fn join_spaces(parts: Seq<Seq<char>>) -> Seq<char>
    decreases parts.len(),
{
    if parts.len() == 0 {
        Seq::empty()
    } else if parts.len() == 1 {
        parts[0]
    } else {
        join_spaces(parts.drop_last()) + seq![' '] + parts.last()
    }
}

/// The fragment with its out-of-band swap instruction. A single root element gets the
/// `hx-swap-oob` attribute, in place of any it had, after its other attributes; it is written
/// self-closing when it is a void element without content. Any other fragment is wrapped in a
/// `<template>` element that carries the attribute.
pub open spec fn oob_markup(
    html: Seq<char>,
    strategy: Strategy,
    target: Seq<char>,
    nodes: Seq<Option<ElementModel>>,
) -> Seq<char> {
    let els = elements_of(nodes);
    if els.len() == 1 {
        let (tag, attrs, id, inner) = els[0];
        let a = join_spaces(
            kept_attrs(attrs).push(attr_text("hx-swap-oob"@, oob_value(strategy, target, id))),
        );
        if inner.len() == 0 && is_void_tag(tag) {
            seq!['<'] + tag + seq![' '] + a + " />"@
        } else {
            seq!['<'] + tag + seq![' '] + a + seq!['>'] + inner + "</"@ + tag + seq!['>']
        }
    } else {
        "<template hx-swap-oob=\""@ + strategy_name(strategy) + seq![':'] + target + "\">"@ + html
            + "</template>"@
    }
}

/// Appends a part to a space-separated list; `first` tells whether the list is empty.
fn push_part(res: &mut String, part: &str, first: bool, Ghost(parts): Ghost<Seq<Seq<char>>>)
    requires
        old(res)@ == join_spaces(parts),
        first == (parts.len() == 0),
    ensures
        final(res)@ == join_spaces(parts.push(part@)),
{
    assert(parts.push(part@).drop_last() =~= parts);
    if first {
        push_str(res, part);
        assert(res@ =~= part@);
    } else {
        push_char(res, ' ');
        push_str(res, part);
    }
}

/// The `hx-swap-oob` value for a root element.
fn oob_value_text(strategy: &InsertStrategy, target: &str, id: &Option<String>) -> (res: String)
    ensures
        res@ == oob_value(strategy@, target@, opt_view(*id)),
{
    let name = strategy.to_string();
    let t = chars_of(target);
    let mut matches_id = false;
    if t.len() > 0 && t[0] == '#' && strategy.is_outer_html() {
        if let Some(i) = id {
            let mut hashed = String::new();
            push_char(&mut hashed, '#');
            push_str(&mut hashed, i.as_str());
            matches_id = str_eq(hashed.as_str(), target);
        }
    }
    if matches_id {
        "true".to_owned()
    } else {
        let mut res = name;
        push_char(&mut res, ':');
        push_str(&mut res, target);
        res
    }
}

/// Injects the out-of-band swap instruction into a fragment whose root nodes are given.
pub fn inject_oob_attribute_with_nodes(
    html: &str,
    strategy: &InsertStrategy,
    target: &str,
    nodes: &Vec<FragmentNode>,
) -> (res: String)
    ensures
        res@ == oob_markup(html@, strategy@, target@, nodes_view(nodes@)),
{
    let mut count: usize = 0;
    let mut first: usize = 0;
    let mut i: usize = 0;
    assert(nodes_view(nodes@).take(0) =~= Seq::<Option<ElementModel>>::empty());
    while i < nodes.len()
        invariant
            i <= nodes@.len(),
            count == elements_of(nodes_view(nodes@).take(i as int)).len(),
            count <= i,
            count > 0 ==> first < i && nodes@[first as int]@ is Some && elements_of(
                nodes_view(nodes@).take(i as int),
            )[0] == nodes@[first as int]@->0,
        decreases nodes@.len() - i,
    {
        let ghost prev = nodes_view(nodes@).take(i as int);
        assert(nodes_view(nodes@).take(i + 1).drop_last() =~= prev);
        assert(nodes_view(nodes@).take(i + 1).last() == nodes@[i as int]@);
        match &nodes[i] {
            FragmentNode::Element(_) => {
                if count == 0 {
                    first = i;
                }
                count += 1;
            },
            FragmentNode::Other => {},
        }
        i += 1;
    }
    assert(nodes_view(nodes@).take(nodes@.len() as int) =~= nodes_view(nodes@));
    if count == 1 {
        match &nodes[first] {
            FragmentNode::Element(e) => {
                let value = oob_value_text(strategy, target, &e.id);
                let ghost attrs = e.attrs@.map_values(|a: (String, String)| (a.0@, a.1@));
                let mut joined = String::new();
                let mut any = false;
                let mut k: usize = 0;
                assert(attrs.take(0) =~= Seq::<(Seq<char>, Seq<char>)>::empty());
                while k < e.attrs.len()
                    invariant
                        k <= e.attrs@.len(),
                        attrs == e.attrs@.map_values(|a: (String, String)| (a.0@, a.1@)),
                        joined@ == join_spaces(kept_attrs(attrs.take(k as int))),
                        any == (kept_attrs(attrs.take(k as int)).len() > 0),
                    decreases e.attrs@.len() - k,
                {
                    assert(attrs.take(k + 1).drop_last() =~= attrs.take(k as int));
                    assert(attrs.take(k + 1).last() == attrs[k as int]);
                    let (n, v) = &e.attrs[k];
                    assert(attrs[k as int] == (n@, v@));
                    if !str_eq(n.as_str(), "hx-swap-oob") {
                        let mut part = n.clone();
                        push_char(&mut part, '=');
                        push_char(&mut part, '"');
                        push_str(&mut part, v.as_str());
                        push_char(&mut part, '"');
                        assert(part@ =~= attr_text(n@, v@));
                        push_part(&mut joined, part.as_str(), !any, Ghost(kept_attrs(attrs.take(k as int))));
                        any = true;
                    }
                    k += 1;
                }
                assert(attrs.take(e.attrs@.len() as int) =~= attrs);
                let mut oob_attr = String::from_str("hx-swap-oob=\"");
                push_str(&mut oob_attr, value.as_str());
                push_char(&mut oob_attr, '"');
                proof {
                    reveal_strlit("hx-swap-oob=\"");
                    reveal_strlit("hx-swap-oob");
                    assert(oob_attr@ =~= attr_text("hx-swap-oob"@, value@));
                }
                push_part(&mut joined, oob_attr.as_str(), !any, Ghost(kept_attrs(attrs)));
                let ghost el = elements_of(nodes_view(nodes@))[0];
                assert(el == (e.tag@, attrs, opt_view(e.id), e.inner_html@));
                let ghost a = join_spaces(
                    kept_attrs(attrs).push(attr_text("hx-swap-oob"@, oob_value(strategy@, target@, opt_view(e.id)))),
                );
                assert(joined@ == a);
                let mut res = String::new();
                push_char(&mut res, '<');
                push_str(&mut res, e.tag.as_str());
                push_char(&mut res, ' ');
                push_str(&mut res, joined.as_str());
                proof {
                    reveal_strlit("");
                }
                if str_eq(e.inner_html.as_str(), "") && is_void_element(e.tag.as_str()) {
                    push_str(&mut res, " />");
                    assert(res@ =~= seq!['<'] + e.tag@ + seq![' '] + a + " />"@);

                } else {
                    assert(!(e.inner_html@.len() == 0 && is_void_tag(e.tag@))) by {
                        if e.inner_html@.len() == 0 {
                            assert(e.inner_html@ =~= ""@);
                        }
                    }
                    push_char(&mut res, '>');
                    push_str(&mut res, e.inner_html.as_str());
                    push_str(&mut res, "</");
                    push_str(&mut res, e.tag.as_str());
                    push_char(&mut res, '>');
                    assert(res@ =~= seq!['<'] + e.tag@ + seq![' '] + a + seq!['>'] + e.inner_html@ + "</"@
                        + e.tag@ + seq!['>']);
                }
                res
            },
            FragmentNode::Other => {
                String::new()
            },
        }
    } else {
        let mut res = String::from_str("<template hx-swap-oob=\"");
        let name = strategy.to_string();
        push_str(&mut res, name.as_str());
        push_char(&mut res, ':');
        push_str(&mut res, target);
        push_str(&mut res, "\">");
        push_str(&mut res, html);
        push_str(&mut res, "</template>");
        assert(res@ =~= "<template hx-swap-oob=\""@ + strategy_name(strategy@) + seq![':'] + target@
            + "\">"@ + html@ + "</template>"@);
        res
    }
}

/// Injects the out-of-band swap instruction into an HTML fragment: the `hx-swap-oob` attribute
/// on its root element, or a `<template>` around it when it has no single root element.
pub fn inject_oob_attribute(html: &str, strategy: &InsertStrategy, target: &str) -> (res: String)
    ensures
        res@ == oob_markup(html@, strategy@, target@, fragment_nodes(html@)),
{
    let nodes = parse_fragment_nodes(html);
    inject_oob_attribute_with_nodes(html, strategy, target, &nodes)
}

} // verus!

verus! {

/// The elements that HTML writes without an end tag, as the HTML standard lists them.
pub open spec fn html_void_elements() -> Seq<Seq<char>> {
    seq![
        "area"@, "base"@, "br"@, "col"@, "embed"@, "hr"@, "img"@, "input"@, "link"@, "meta"@,
        "param"@, "source"@, "track"@, "wbr"@,
    ]
}

/// A fragment with a single root element that is not a void element keeps that element's end
/// tag after its inner HTML, even when the inner HTML is empty: the out-of-band markup starts
/// with the element's start tag and ends with its inner HTML and `</tag>`, so the parser closes
/// the element where the fragment ends and does not swallow what follows.
pub proof fn law_single_root_element_keeps_its_end_tag(
    html: Seq<char>,
    strategy: Strategy,
    target: Seq<char>,
    nodes: Seq<Option<ElementModel>>,
)
    requires
        elements_of(nodes).len() == 1,
        !html_void_elements().contains(elements_of(nodes)[0].0),
    ensures
        (seq!['<'] + elements_of(nodes)[0].0 + seq![' ']).is_prefix_of(
            oob_markup(html, strategy, target, nodes),
        ),
        (elements_of(nodes)[0].3 + "</"@ + elements_of(nodes)[0].0 + seq!['>']).is_suffix_of(
            oob_markup(html, strategy, target, nodes),
        ),
{
    let (tag, attrs, id, inner) = elements_of(nodes)[0];
    let a = join_spaces(
        kept_attrs(attrs).push(attr_text("hx-swap-oob"@, oob_value(strategy, target, id))),
    );
    assert(!is_void_tag(tag)) by {
        if is_void_tag(tag) {
            let l = html_void_elements();
            if tag == "area"@ { assert(l[0] == tag); }
            else if tag == "base"@ { assert(l[1] == tag); }
            else if tag == "br"@ { assert(l[2] == tag); }
            else if tag == "col"@ { assert(l[3] == tag); }
            else if tag == "embed"@ { assert(l[4] == tag); }
            else if tag == "hr"@ { assert(l[5] == tag); }
            else if tag == "img"@ { assert(l[6] == tag); }
            else if tag == "input"@ { assert(l[7] == tag); }
            else if tag == "link"@ { assert(l[8] == tag); }
            else if tag == "meta"@ { assert(l[9] == tag); }
            else if tag == "param"@ { assert(l[10] == tag); }
            else if tag == "source"@ { assert(l[11] == tag); }
            else if tag == "track"@ { assert(l[12] == tag); }
            else { assert(l[13] == tag); }
        }
    }
    let m = oob_markup(html, strategy, target, nodes);
    let start = seq!['<'] + tag + seq![' '];
    let end = inner + "</"@ + tag + seq!['>'];
    assert(m == start + (a + seq!['>']) + end);
    assert(m.subrange(0, start.len() as int) =~= start);
    assert(m.subrange(m.len() - end.len(), m.len() as int) =~= end);
}

/// A fragment whose single root element is a void element without content is written
/// self-closing: the markup ends with ` />`.
pub proof fn law_empty_void_root_element_is_self_closing(
    html: Seq<char>,
    strategy: Strategy,
    target: Seq<char>,
    nodes: Seq<Option<ElementModel>>,
)
    requires
        elements_of(nodes).len() == 1,
        html_void_elements().contains(elements_of(nodes)[0].0),
        elements_of(nodes)[0].3.len() == 0,
    ensures
        " />"@.is_suffix_of(oob_markup(html, strategy, target, nodes)),
{
    let (tag, attrs, id, inner) = elements_of(nodes)[0];
    let a = join_spaces(
        kept_attrs(attrs).push(attr_text("hx-swap-oob"@, oob_value(strategy, target, id))),
    );
    let l = html_void_elements();
    let k = choose|k: int| 0 <= k < l.len() && l[k] == tag;
    assert(is_void_tag(tag));
    let m = oob_markup(html, strategy, target, nodes);
    assert(m == seq!['<'] + tag + seq![' '] + a + " />"@);
    reveal_strlit(" />");
    assert(m.subrange(m.len() - 3, m.len() as int) =~= " />"@);
}

} // verus!
