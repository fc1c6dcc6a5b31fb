//! Web-components support: the registered components, written out as one `<script>` block.

use vstd::prelude::*;
use crate::text::{push_char, push_str};

verus! {

broadcast use vstd::seq::group_seq_axioms;

/// The shadow DOM attachment mode.
#[derive(Debug, Clone, Copy, PartialEq, Eq, Structural)]
pub enum ShadowDomMode {
    /// Open shadow DOM.
    Open,
    /// Closed shadow DOM.
    Closed,
}

impl Default for ShadowDomMode {
    fn default() -> (res: Self)
        ensures
            res == ShadowDomMode::Open,
    {
        ShadowDomMode::Open
    }
}

impl ShadowDomMode {
    /// The name of the mode, as its `Display` implementation writes it.
    pub fn to_string(&self) -> (res: String)
        ensures
            res@ == match self {
                ShadowDomMode::Open => "open"@,
                ShadowDomMode::Closed => "closed"@,
            },
    {
        match self {
            ShadowDomMode::Open => String::from_str("open"),
            ShadowDomMode::Closed => String::from_str("closed"),
        }
    }
}

/// A web component: an HTML element backed by a JavaScript class with a shadow DOM.
#[derive(Debug)]
pub struct WebComponent {
    /// The name of the HTML element.
    pub html_element_name: String,
    /// The name of the JS component.
    pub js_component_name: String,
    /// The shadow DOM attachment mode.
    pub shadow_dom_mode: ShadowDomMode,
    /// The HTML content of the component.
    pub html_content: String,
}

/// A container that deals with web components registration.
#[derive(Debug)]
pub struct WebComponents {
    /// The registered web components.
    pub web_components: Vec<WebComponent>,
}

impl Default for WebComponents {
    fn default() -> (res: Self)
        ensures
            res.web_components@.len() == 0,
    {
        WebComponents { web_components: Vec::new() }
    }
}

/// The lines of the rendered components, each followed by a line break.
pub open spec fn component_lines(rendered: Seq<Seq<char>>) -> Seq<char>
    decreases rendered.len(),
{
    if rendered.len() == 0 {
        Seq::empty()
    } else {
        component_lines(rendered.drop_last()) + rendered.last() + seq!['\n']
    }
}

/// The script block of the components: `<script>`, each rendered component on its own line, and
/// `</script>`, each line ending with a line break.
pub open spec fn script_block(rendered: Seq<Seq<char>>) -> Seq<char> {
    "<script>\n"@ + component_lines(rendered) + "</script>\n"@
}

impl WebComponents {
    /// Writes the registration script, given the rendering of each component in order.
    pub fn to_script(&self, rendered: &Vec<String>) -> (res: String)
        ensures
            res@ == script_block(rendered@.map_values(|r: String| r@)),
    {
        let ghost rv = rendered@.map_values(|r: String| r@);
        let mut res = String::from_str("<script>\n");
        let ghost head = res@;
        let mut i: usize = 0;
        assert(rv.take(0) =~= Seq::<Seq<char>>::empty());
        assert(head + component_lines(rv.take(0)) =~= head);
        while i < rendered.len()
            invariant
                i <= rendered@.len(),
                rv == rendered@.map_values(|r: String| r@),
                res@ == head + component_lines(rv.take(i as int)),
            decreases rendered@.len() - i,
        {
            push_str(&mut res, rendered[i].as_str());
            push_char(&mut res, '\n');
            assert(rv.take(i + 1).drop_last() =~= rv.take(i as int));
            assert(rv.take(i + 1).last() == rendered@[i as int]@);
            assert(res@ =~= head + component_lines(rv.take(i + 1)));
            i += 1;
        }
        assert(rv.take(rendered@.len() as int) =~= rv);
        push_str(&mut res, "</script>\n");
        res
    }
}

} // verus!

verus! {

/// The length of the lines of the first components: each rendered component and its line break.
pub open spec fn lines_length(rendered: Seq<Seq<char>>) -> int
    decreases rendered.len(),
{
    if rendered.len() == 0 {
        0
    } else {
        lines_length(rendered.drop_last()) + rendered.last().len() + 1
    }
}

proof fn lemma_lines_length_nonnegative(rendered: Seq<Seq<char>>)
    ensures
        0 <= lines_length(rendered),
    decreases rendered.len(),
{
    if rendered.len() > 0 {
        lemma_lines_length_nonnegative(rendered.drop_last());
    }
}

proof fn lemma_lines_length_grows(rendered: Seq<Seq<char>>, k: int)
    requires
        0 <= k <= rendered.len(),
    ensures
        0 <= lines_length(rendered.take(k)) <= lines_length(rendered),
    decreases rendered.len() - k,
{
    lemma_lines_length_nonnegative(rendered.take(k));
    if k < rendered.len() {
        lemma_lines_length_grows(rendered, k + 1);
        assert(rendered.take(k + 1).drop_last() =~= rendered.take(k));
    } else {
        assert(rendered.take(k) =~= rendered);
    }
}

proof fn lemma_component_lines_hold_each(rendered: Seq<Seq<char>>)
    ensures
        component_lines(rendered).len() == lines_length(rendered),
        forall|k: int|
            0 <= k < rendered.len() ==> {
                let at = lines_length(#[trigger] rendered.take(k));
                &&& component_lines(rendered).subrange(at, at + rendered[k].len()) == rendered[k]
                &&& component_lines(rendered)[at + rendered[k].len()] == '\n'
            },
    decreases rendered.len(),
{
    if rendered.len() > 0 {
        let p = rendered.drop_last();
        lemma_component_lines_hold_each(p);
        let c = component_lines(rendered);
        let cp = component_lines(p);
        assert(c == cp + rendered.last() + seq!['\n']);
        assert forall|k: int| 0 <= k < rendered.len() implies {
            let at = lines_length(#[trigger] rendered.take(k));
            &&& c.subrange(at, at + rendered[k].len()) == rendered[k]
            &&& c[at + rendered[k].len()] == '\n'
        } by {
            let at = lines_length(rendered.take(k));
            lemma_lines_length_nonnegative(rendered.take(k));
            if k < p.len() {
                assert(rendered.take(k) =~= p.take(k));
                assert(p[k] == rendered[k]);
                assert(p.take(k + 1).drop_last() =~= p.take(k));
                assert(p.take(k + 1).last() == p[k]);
                assert(lines_length(p.take(k + 1)) == at + p[k].len() + 1);
                lemma_lines_length_grows(p, k + 1);
                assert(at + p[k].len() + 1 <= cp.len());
                assert(cp.subrange(at, at + p[k].len()) == p[k]);
                assert(c.subrange(at, at + rendered[k].len()) =~= cp.subrange(at, at + p[k].len()));
                assert(c[at + rendered[k].len()] == cp[at + p[k].len()]);
            } else {
                assert(rendered.take(k) =~= p);
                assert(rendered[k] == rendered.last());
                assert(c.subrange(at, at + rendered[k].len()) =~= rendered[k]);
            }
        }
    }
}

/// The registration script holds every rendered component, in order, each on a line of its own
/// between `<script>` and `</script>`: the `k`-th component starts after the opening line and the
/// lines of the components before it, and the script is exactly as long as those lines and the
/// two tags.
pub proof fn law_script_registers_every_component(rendered: Seq<Seq<char>>)
    ensures
        script_block(rendered).len() == lines_length(rendered) + 19,
        "<script>\n"@.is_prefix_of(script_block(rendered)),
        forall|k: int|
            0 <= k < rendered.len() ==> {
                let at = 9 + lines_length(#[trigger] rendered.take(k));
                &&& script_block(rendered).subrange(at, at + rendered[k].len()) == rendered[k]
                &&& script_block(rendered)[at + rendered[k].len()] == '\n'
            },
{
    reveal_strlit("<script>\n");
    reveal_strlit("</script>\n");
    lemma_component_lines_hold_each(rendered);
    let c = component_lines(rendered);
    let s = script_block(rendered);
    assert(s.subrange(0, 9) =~= "<script>\n"@);
    assert forall|k: int| 0 <= k < rendered.len() implies {
        let at = 9 + lines_length(#[trigger] rendered.take(k));
        &&& s.subrange(at, at + rendered[k].len()) == rendered[k]
        &&& s[at + rendered[k].len()] == '\n'
    } by {
        let at = lines_length(rendered.take(k));
        lemma_lines_length_nonnegative(rendered.take(k));
        lemma_lines_length_grows(rendered, k + 1);
        assert(rendered.take(k + 1).drop_last() =~= rendered.take(k));
        assert(rendered.take(k + 1).last() == rendered[k]);
        assert(lines_length(rendered.take(k + 1)) == at + rendered[k].len() + 1);
        assert(at + rendered[k].len() + 1 <= c.len());
        assert(s == "<script>\n"@ + c + "</script>\n"@);
        assert(s.subrange(9 + at, 9 + at + rendered[k].len()) =~= c.subrange(at, at + rendered[k].len()));
        assert(s[9 + at + rendered[k].len()] == c[at + rendered[k].len()]);
    }
}

} // verus!
