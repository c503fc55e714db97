//! Semantic parser: turns raw DOM elements, or a page's HTML text, into a
//! simplified tree for an automation client.
//!
//! Hidden elements (display:none, an opacity of zero, visibility:hidden, or
//! an attribute named by a hidden-element selector) and non-content tags are
//! dropped, interactive elements are recognised by tag, ARIA role or event
//! attribute, a CSS selector is generated to address each element, nothing
//! deeper than the maximum depth is traversed, and consecutive static text
//! nodes are merged. The nodes then get fresh interaction ids, consecutive
//! in depth-first document order. From HTML text, the interactive elements
//! (buttons, inputs, links, selects, text areas, labels) are extracted with
//! their text.
use vstd::prelude::*;
use vstd::string::*;

pub mod html;

use self::html::{
    content_end, content_start, find_char, find_seq, opens_at, opens_here, strip_from,
    strip_markup, tag_count,
};
use crate::text::{
    ascii_lower, chars_of, copy_opt, first_token, is_ascii_seq, is_whitespace, is_ws, lowercase,
    matches_at, occurs_at, opt_view, seq_contains, seq_starts_with, spec_first_token, spec_trim,
    str_contains,
    str_eq, to_lowercase, trim,
};

verus! {

broadcast use vstd::std_specs::vec::axiom_spec_into_iter;

/// Semantic node representation.
#[derive(Debug)]
pub struct SemanticNode {
    /// Unique interaction ID for /act calls
    pub id: u32,
    /// HTML tag name
    pub tag: String,
    /// ARIA role if available
    pub role: Option<String>,
    /// Core visible text content
    pub text: String,
    /// Whether element is interactive
    pub is_interactive: bool,
    /// CSS selector for execution
    pub path: String,
    /// Child nodes
    pub children: Vec<SemanticNode>,
    /// Input value (for input elements)
    pub value: Option<String>,
    /// Placeholder text
    pub placeholder: Option<String>,
    /// Href (for links)
    pub href: Option<String>,
}

/// Raw DOM element from the browser.
#[derive(Debug)]
pub struct RawElement {
    pub tag: String,
    pub id: Option<String>,
    pub class: Option<String>,
    pub name: Option<String>,
    pub role: Option<String>,
    pub text: String,
    pub value: Option<String>,
    pub placeholder: Option<String>,
    pub href: Option<String>,
    pub style: Option<String>,
    /// The attributes present on the element, each by its name, or as
    /// `name='value'` where its value matters (such as `aria-hidden='true'`);
    /// a set: order and repetition carry no meaning.
    pub attributes: Vec<String>,
    pub children: Vec<RawElement>,
}

/// Parser configuration.
#[derive(Debug, Clone)]
pub struct ParserConfig {
    /// Maximum depth to traverse
    pub max_depth: usize,
    /// Minimum text length to include
    pub min_text_length: usize,
    /// Hidden element selectors to skip
    pub hidden_selectors: Vec<String>,
    /// Interactive tag names
    pub interactive_tags: Vec<&'static str>,
    /// Interactive ARIA roles
    pub interactive_roles: Vec<&'static str>,
    /// Tags to skip entirely
    pub skip_tags: Vec<&'static str>,
}

/// The mathematical content of a semantic node.
pub struct NodeView {
    pub id: int,
    pub tag: Seq<char>,
    pub role: Option<Seq<char>>,
    pub text: Seq<char>,
    pub is_interactive: bool,
    pub path: Seq<char>,
    pub children: Seq<NodeView>,
    pub value: Option<Seq<char>>,
    pub placeholder: Option<Seq<char>>,
    pub href: Option<Seq<char>>,
}

/// The content of a node, children included.
pub open spec fn node_view(n: SemanticNode) -> NodeView
    decreases n,
{
    NodeView {
        id: n.id as int,
        tag: n.tag@,
        role: opt_view(n.role),
        text: n.text@,
        is_interactive: n.is_interactive,
        path: n.path@,
        children: nodes_view(n.children@),
        value: opt_view(n.value),
        placeholder: opt_view(n.placeholder),
        href: opt_view(n.href),
    }
}

/// The content of a list of nodes.
pub open spec fn nodes_view(s: Seq<SemanticNode>) -> Seq<NodeView>
    decreases s,
{
    if s.len() == 0 {
        Seq::empty()
    } else {
        nodes_view(s.drop_last()).push(node_view(s.last()))
    }
}

impl Clone for SemanticNode {
    /// A deep copy: the same content, children included.
    fn clone(&self) -> (r: Self)
        ensures
            node_view(r) == node_view(*self),
        decreases self,
    {
        let mut children: Vec<SemanticNode> = Vec::new();
        let n = self.children.len();
        let mut i: usize = 0;
        while i < n
            invariant
                n == self.children@.len(),
                i <= n,
                nodes_view(children@) == nodes_view(self.children@.take(i as int)),
            decreases n - i,
        {
            proof {
                assert(self.children@.take(i + 1).drop_last() =~= self.children@.take(i as int));
                assert(decreases_to!(*self => self.children@[i as int]));
            }
            let c = self.children[i].clone();
            let ghost prev = children@;
            children.push(c);
            proof {
                assert(children@.drop_last() =~= prev);
            }
            i = i + 1;
        }
        proof {
            assert(self.children@.take(n as int) =~= self.children@);
        }
        SemanticNode {
            id: self.id,
            tag: self.tag.clone(),
            role: copy_opt(&self.role),
            text: self.text.clone(),
            is_interactive: self.is_interactive,
            path: self.path.clone(),
            children,
            value: copy_opt(&self.value),
            placeholder: copy_opt(&self.placeholder),
            href: copy_opt(&self.href),
        }
    }
}

/// The content of a raw element, children included.
pub struct RawView {
    pub tag: Seq<char>,
    pub id: Option<Seq<char>>,
    pub class: Option<Seq<char>>,
    pub name: Option<Seq<char>>,
    pub role: Option<Seq<char>>,
    pub text: Seq<char>,
    pub value: Option<Seq<char>>,
    pub placeholder: Option<Seq<char>>,
    pub href: Option<Seq<char>>,
    pub style: Option<Seq<char>>,
    pub attributes: Seq<Seq<char>>,
    pub children: Seq<RawView>,
}

/// The content of a raw element.
pub open spec fn raw_view(e: RawElement) -> RawView
    decreases e,
{
    RawView {
        tag: e.tag@,
        id: opt_view(e.id),
        class: opt_view(e.class),
        name: opt_view(e.name),
        role: opt_view(e.role),
        text: e.text@,
        value: opt_view(e.value),
        placeholder: opt_view(e.placeholder),
        href: opt_view(e.href),
        style: opt_view(e.style),
        attributes: e.attributes@.map_values(|a: String| a@),
        children: raws_view(e.children@),
    }
}

/// The content of a list of raw elements.
pub open spec fn raws_view(s: Seq<RawElement>) -> Seq<RawView>
    decreases s,
{
    if s.len() == 0 {
        Seq::empty()
    } else {
        raws_view(s.drop_last()).push(raw_view(s.last()))
    }
}

/// Copy a list of strings.
fn copy_strings(v: &Vec<String>) -> (r: Vec<String>)
    ensures
        r@.map_values(|a: String| a@) == v@.map_values(|a: String| a@),
{
    let mut out: Vec<String> = Vec::new();
    let n = v.len();
    let mut i: usize = 0;
    while i < n
        invariant
            n == v@.len(),
            i <= n,
            out@.map_values(|a: String| a@) == v@.take(i as int).map_values(|a: String| a@),
        decreases n - i,
    {
        out.push(v[i].clone());
        proof {
            assert(v@.take(i + 1).map_values(|a: String| a@) =~= v@.take(i as int).map_values(
                |a: String| a@,
            ).push(v@[i as int]@));
            assert(out@.map_values(|a: String| a@) =~= v@.take(i + 1).map_values(|a: String| a@));
        }
        i = i + 1;
    }
    proof {
        assert(v@.take(n as int) =~= v@);
    }
    out
}

impl Clone for RawElement {
    /// A deep copy: the same content, children included.
    fn clone(&self) -> (r: Self)
        ensures
            raw_view(r) == raw_view(*self),
        decreases self,
    {
        let mut children: Vec<RawElement> = Vec::new();
        let n = self.children.len();
        let mut i: usize = 0;
        while i < n
            invariant
                n == self.children@.len(),
                i <= n,
                raws_view(children@) == raws_view(self.children@.take(i as int)),
            decreases n - i,
        {
            proof {
                assert(self.children@.take(i + 1).drop_last() =~= self.children@.take(i as int));
                assert(decreases_to!(*self => self.children@[i as int]));
            }
            let c = self.children[i].clone();
            let ghost prev = children@;
            children.push(c);
            proof {
                assert(children@.drop_last() =~= prev);
            }
            i = i + 1;
        }
        proof {
            assert(self.children@.take(n as int) =~= self.children@);
        }
        RawElement {
            tag: self.tag.clone(),
            id: copy_opt(&self.id),
            class: copy_opt(&self.class),
            name: copy_opt(&self.name),
            role: copy_opt(&self.role),
            text: self.text.clone(),
            value: copy_opt(&self.value),
            placeholder: copy_opt(&self.placeholder),
            href: copy_opt(&self.href),
            style: copy_opt(&self.style),
            attributes: copy_strings(&self.attributes),
            children,
        }
    }
}

/// `s` is one of the names in `list`.
pub open spec fn name_in(list: Seq<&'static str>, s: Seq<char>) -> bool {
    exists|i: int| 0 <= i < list.len() && (#[trigger] list[i])@ == s
}

/// `s` is one of the attribute names in `attrs`.
pub open spec fn attr_in(attrs: Seq<String>, s: Seq<char>) -> bool {
    exists|i: int| 0 <= i < attrs.len() && (#[trigger] attrs[i])@ == s
}

/// The element carries an event handler or a link target.
pub open spec fn has_interactive_attr(attrs: Seq<String>) -> bool {
    ||| attr_in(attrs, "onclick"@)
    ||| attr_in(attrs, "onchange"@)
    ||| attr_in(attrs, "onsubmit"@)
    ||| attr_in(attrs, "onfocus"@)
    ||| attr_in(attrs, "onblur"@)
    ||| attr_in(attrs, "href"@)
}

/// Interactive by tag, by ARIA role, or by attribute.
pub open spec fn interactive(
    cfg: ParserConfig,
    tag: Seq<char>,
    role: Option<Seq<char>>,
    attrs: Seq<String>,
) -> bool {
    ||| name_in(cfg.interactive_tags@, tag)
    ||| (role matches Some(r) && name_in(cfg.interactive_roles@, r))
    ||| has_interactive_attr(attrs)
}

/// Index of the first character at or after `k` that is not a space, or
/// `s.len()`.
pub open spec fn skip_spaces(s: Seq<char>, k: int) -> int
    decreases s.len() - k,
{
    if 0 <= k < s.len() && s[k] == ' ' {
        skip_spaces(s, k + 1)
    } else {
        k
    }
}

/// Index of the end of the value that starts at `k`: the first `;`, `!` or
/// white space at or after `k`, or `s.len()`.
pub open spec fn value_end(s: Seq<char>, k: int) -> int
    decreases s.len() - k,
{
    if 0 <= k < s.len() && s[k] != ';' && s[k] != '!' && !is_ws(s[k]) {
        value_end(s, k + 1)
    } else {
        k
    }
}

/// `v` is a decimal number whose value is zero: zeros with at most one
/// decimal point, and at least one digit (`0`, `00`, `0.0`, `.0`, `0.`).
pub open spec fn zero_number(v: Seq<char>) -> bool {
    &&& forall|j: int| 0 <= j < v.len() ==> v[j] == '0' || v[j] == '.'
    &&& exists|j: int| 0 <= j < v.len() && v[j] == '0'
    &&& forall|i: int, j: int| 0 <= i < j < v.len() ==> !(v[i] == '.' && v[j] == '.')
}

/// The declaration `opacity:` starts at `i`, and the value after it (past
/// any spaces) is zero.
pub open spec fn opacity_zero_at(s: Seq<char>, i: int) -> bool {
    occurs_at(s, "opacity:"@, i) && {
        let a = skip_spaces(s, i + 8);
        zero_number(s.subrange(a, value_end(s, a)))
    }
}

/// A lowercased style declaration sets the opacity to zero.
pub open spec fn opacity_zero(lowered: Seq<char>) -> bool {
    exists|i: int| opacity_zero_at(lowered, i)
}

/// A lowercased style declaration hides the element: `display: none`,
/// `visibility: hidden` (with or without the space) or an opacity of zero.
pub open spec fn hidden_style(lowered: Seq<char>) -> bool {
    ||| seq_contains(lowered, "display: none"@)
    ||| seq_contains(lowered, "display:none"@)
    ||| opacity_zero(lowered)
    ||| seq_contains(lowered, "visibility: hidden"@)
    ||| seq_contains(lowered, "visibility:hidden"@)
}

/// An element with this inline style is hidden.
pub open spec fn hidden(style: Option<String>) -> bool {
    style matches Some(s) && hidden_style(lowercase(s@))
}

/// `sel` is the attribute selector `[a]`.
pub open spec fn bracketed(sel: Seq<char>, a: Seq<char>) -> bool {
    sel == seq!['['] + a + seq![']']
}

/// One of the configured hidden-element selectors is `[a]` for an entry `a`
/// of the element's attribute list (such as `hidden` or
/// `aria-hidden='true'`).
pub open spec fn hidden_by_selector(cfg: ParserConfig, attrs: Seq<String>) -> bool {
    exists|i: int, j: int|
        0 <= i < cfg.hidden_selectors@.len() && 0 <= j < attrs.len() && bracketed(
            #[trigger] cfg.hidden_selectors@[i]@,
            #[trigger] attrs[j]@,
        )
}

/// The CSS selector generated for an element: `#id` when it has an id,
/// otherwise the tag, its first class, its name and, for inputs, its value
/// as a type.
pub open spec fn selector(e: RawElement) -> Seq<char> {
    match e.id {
        Some(id) => "#"@ + id@,
        None => {
            let class_part = match e.class {
                Some(c) => match spec_first_token(c@) {
                    Some(t) => "."@ + t,
                    None => Seq::empty(),
                },
                None => Seq::empty(),
            };
            let name_part = match e.name {
                Some(n) => "[name=\""@ + n@ + "\"]"@,
                None => Seq::empty(),
            };
            let type_part = if e.tag@ == "input"@ {
                match e.value {
                    Some(v) => "[type=\""@ + v@ + "\"]"@,
                    None => Seq::empty(),
                }
            } else {
                Seq::empty()
            };
            e.tag@ + class_part + name_part + type_part
        },
    }
}

/// The children of an element at depth `d` are traversed: there are some,
/// and they lie within the maximum depth.
pub open spec fn traversed_children(cfg: ParserConfig, e: RawElement, d: int) -> bool {
    d < cfg.max_depth && e.children@.len() > 0
}

/// Whether an element at depth `d` becomes a node: it is not of a skipped
/// tag, not hidden by its style or a hidden-element selector, and is
/// interactive, has at least the minimum length of visible text, or has
/// children that are traversed.
pub open spec fn kept(cfg: ParserConfig, e: RawElement, d: int) -> bool {
    &&& !name_in(cfg.skip_tags@, e.tag@)
    &&& !hidden(e.style)
    &&& !hidden_by_selector(cfg, e.attributes@)
    &&& (interactive(cfg, e.tag@, opt_view(e.role), e.attributes@) || spec_trim(e.text@).len()
        >= cfg.min_text_length || traversed_children(cfg, e, d))
}

/// A static text node: not interactive, without children.
pub open spec fn is_static(v: NodeView) -> bool {
    !v.is_interactive && v.children.len() == 0
}

/// Two texts joined by a space (an empty one adds nothing).
pub open spec fn joined(a: Seq<char>, b: Seq<char>) -> Seq<char> {
    if a.len() == 0 {
        b
    } else if b.len() == 0 {
        a
    } else {
        a + " "@ + b
    }
}

/// A static text node with the text of the next one added to its own.
pub open spec fn merged(a: NodeView, b: NodeView) -> NodeView {
    NodeView { text: joined(a.text, b.text), ..a }
}

/// The node made of one element at depth `d` (its id not yet given), or
/// `None` when the element is dropped.
pub open spec fn parse_one(cfg: ParserConfig, e: RawElement, d: int) -> Option<NodeView>
    decreases e,
{
    if kept(cfg, e, d) {
        Some(
            NodeView {
                id: 0,
                tag: e.tag@,
                role: opt_view(e.role),
                text: spec_trim(e.text@),
                is_interactive: interactive(cfg, e.tag@, opt_view(e.role), e.attributes@),
                path: selector(e),
                children: parse_list(cfg, e.children@, d + 1),
                value: opt_view(e.value),
                placeholder: opt_view(e.placeholder),
                href: opt_view(e.href),
            },
        )
    } else {
        None
    }
}

/// The nodes made of a list of sibling elements at depth `d` (the top level
/// is depth 1), in order, their ids not yet given. Nothing deeper than the
/// maximum depth is traversed, and a static text node that follows another
/// is merged into it.
pub open spec fn parse_list(cfg: ParserConfig, es: Seq<RawElement>, d: int) -> Seq<NodeView>
    decreases es,
{
    if es.len() == 0 || d > cfg.max_depth {
        Seq::empty()
    } else {
        let prev = parse_list(cfg, es.drop_last(), d);
        match parse_one(cfg, es.last(), d) {
            Some(v) => if is_static(v) && prev.len() > 0 && is_static(prev.last()) {
                prev.update(prev.len() - 1, merged(prev.last(), v))
            } else {
                prev.push(v)
            },
            None => prev,
        }
    }
}

/// The text of the element of tag `t` opening at `i`: none for an `input`
/// (it has no content), otherwise its content with markup left out,
/// trimmed.
pub open spec fn element_text(s: Seq<char>, t: Seq<char>, i: int) -> Seq<char> {
    if t == "input"@ {
        Seq::empty()
    } else {
        spec_trim(strip_from(s, content_start(s, t, i), content_end(s, t, i), false))
    }
}

/// The node for the element of tag `t` opening at `i` in HTML text `s`,
/// with id `n`: its tag (which also addresses it), its text, and whether the
/// tag is interactive.
pub open spec fn html_node(cfg: ParserConfig, s: Seq<char>, t: Seq<char>, i: int, n: int) -> NodeView {
    NodeView {
        id: n,
        tag: t,
        role: None,
        text: element_text(s, t, i),
        is_interactive: interactive(cfg, t, None, Seq::<String>::empty()),
        path: t,
        children: Seq::empty(),
        value: None,
        placeholder: None,
        href: None,
    }
}

/// The nodes for the elements of tag `t` that open at or after `i`, in
/// order, with ids from `n` on.
pub open spec fn tag_nodes(cfg: ParserConfig, s: Seq<char>, t: Seq<char>, i: int, n: int) -> Seq<
    NodeView,
>
    decreases s.len() - i,
{
    if i < 0 || i >= s.len() {
        Seq::empty()
    } else if opens_at(s, t, i) {
        seq![html_node(cfg, s, t, i, n)] + tag_nodes(cfg, s, t, i + 1, n + 1)
    } else {
        tag_nodes(cfg, s, t, i + 1, n)
    }
}

/// There are as many nodes for a tag as elements of it.
pub proof fn lemma_tag_nodes_len(cfg: ParserConfig, s: Seq<char>, t: Seq<char>, i: int, n: int)
    ensures
        tag_nodes(cfg, s, t, i, n).len() == tag_count(s, t, i),
    decreases s.len() - i,
{
    if 0 <= i < s.len() {
        lemma_tag_nodes_len(cfg, s, t, i + 1, n + 1);
        lemma_tag_nodes_len(cfg, s, t, i + 1, n);
    }
}

/// The number of elements extracted from HTML text: those of the tags
/// `button`, `input`, `a`, `select`, `textarea` and `label`.
pub open spec fn html_count(s: Seq<char>) -> nat {
    tag_count(s, "button"@, 0) + tag_count(s, "input"@, 0) + tag_count(s, "a"@, 0) + tag_count(
        s,
        "select"@,
        0,
    ) + tag_count(s, "textarea"@, 0) + tag_count(s, "label"@, 0)
}

/// The nodes extracted from HTML text with ids from `n` on: every `button`,
/// then every `input`, `a`, `select`, `textarea` and `label`, each tag's
/// elements in document order, ids consecutive.
pub open spec fn html_nodes(cfg: ParserConfig, s: Seq<char>, n: int) -> Seq<NodeView> {
    let c1 = n + tag_count(s, "button"@, 0);
    let c2 = c1 + tag_count(s, "input"@, 0);
    let c3 = c2 + tag_count(s, "a"@, 0);
    let c4 = c3 + tag_count(s, "select"@, 0);
    let c5 = c4 + tag_count(s, "textarea"@, 0);
    tag_nodes(cfg, s, "button"@, 0, n) + tag_nodes(cfg, s, "input"@, 0, c1) + tag_nodes(
        cfg,
        s,
        "a"@,
        0,
        c2,
    ) + tag_nodes(cfg, s, "select"@, 0, c3) + tag_nodes(cfg, s, "textarea"@, 0, c4) + tag_nodes(
        cfg,
        s,
        "label"@,
        0,
        c5,
    )
}

/// The number of nodes in a tree: its root and all descendants.
pub open spec fn node_count(v: NodeView) -> nat
    decreases v,
{
    1 + nodes_count(v.children)
}

/// The number of nodes in a forest, descendants included.
pub open spec fn nodes_count(s: Seq<NodeView>) -> nat
    decreases s,
{
    if s.len() == 0 {
        0
    } else {
        nodes_count(s.drop_last()) + node_count(s.last())
    }
}

/// A tree with ids given in depth-first order from `n`: the root gets `n`,
/// its children the ids that follow.
pub open spec fn numbered_node(v: NodeView, n: int) -> NodeView
    decreases v,
{
    NodeView { id: n, children: numbered(v.children, n + 1), ..v }
}

/// A forest with ids given in depth-first, document order from `n`.
pub open spec fn numbered(s: Seq<NodeView>, n: int) -> Seq<NodeView>
    decreases s,
{
    if s.len() == 0 {
        Seq::empty()
    } else {
        numbered(s.drop_last(), n).push(numbered_node(s.last(), n + nodes_count(s.drop_last())))
    }
}

/// Giving ids keeps the forest's shape: each tree keeps its place and gets
/// the ids after those of the trees before it.
pub proof fn lemma_numbered_index(s: Seq<NodeView>, n: int)
    ensures
        numbered(s, n).len() == s.len(),
        forall|i: int|
            0 <= i < s.len() ==> #[trigger] numbered(s, n)[i] == numbered_node(
                s[i],
                n + nodes_count(s.take(i)),
            ),
    decreases s,
{
    if s.len() > 0 {
        lemma_numbered_index(s.drop_last(), n);
        assert(s.take(s.len() - 1) =~= s.drop_last());
        assert forall|i: int| 0 <= i < s.len() implies #[trigger] numbered(s, n)[i]
            == numbered_node(s[i], n + nodes_count(s.take(i))) by {
            if i < s.len() - 1 {
                assert(s.drop_last().take(i) =~= s.take(i));
                assert(s.drop_last()[i] == s[i]);
            }
        }
    }
}

/// The ids of a list of nodes in depth-first, document order.
pub open spec fn ids_of(nodes: Seq<NodeView>) -> Seq<int>
    decreases nodes,
{
    if nodes.len() == 0 {
        Seq::empty()
    } else {
        ids_of(nodes.drop_last()) + ids_of_node(nodes.last())
    }
}

/// The ids of a node and its descendants in depth-first order.
pub open spec fn ids_of_node(v: NodeView) -> Seq<int>
    decreases v,
{
    seq![v.id] + ids_of(v.children)
}

/// The integers from `a` up to but excluding `b`.
pub open spec fn id_range(a: int, b: int) -> Seq<int> {
    Seq::new((b - a) as nat, |i: int| a + i)
}

/// A tree numbered from `n` carries the ids from `n` on, one per node,
/// consecutively in depth-first order.
pub proof fn lemma_numbered_node_ids(v: NodeView, n: int)
    ensures
        ids_of_node(numbered_node(v, n)) == id_range(n, n + node_count(v)),
    decreases v,
{
    lemma_numbered_ids(v.children, n + 1);
    assert(seq![n] + id_range(n + 1, n + 1 + nodes_count(v.children)) =~= id_range(
        n,
        n + node_count(v),
    ));
}

/// A forest numbered from `n` carries the ids from `n` on, one per node,
/// consecutively in depth-first, document order.
pub proof fn lemma_numbered_ids(s: Seq<NodeView>, n: int)
    ensures
        ids_of(numbered(s, n)) == id_range(n, n + nodes_count(s)),
    decreases s,
{
    if s.len() == 0 {
        assert(id_range(n, n) =~= Seq::<int>::empty());
    } else {
        lemma_numbered_ids(s.drop_last(), n);
        let m = n + nodes_count(s.drop_last());
        lemma_numbered_node_ids(s.last(), m);
        let u = numbered(s.drop_last(), n);
        assert(u.push(numbered_node(s.last(), m)).drop_last() =~= u);
        assert(id_range(n, m) + id_range(m, m + node_count(s.last())) =~= id_range(
            n,
            n + nodes_count(s),
        ));
    }
}

/// The ids of a parse, listed in depth-first document order, are exactly
/// those from the parser's next id on, one per node; the next id afterwards
/// is the one after the last, so later parses continue the sequence.
pub proof fn lemma_ids_consecutive(cfg: ParserConfig, es: Seq<RawElement>, n: int)
    ensures
        ids_of(numbered(parse_list(cfg, es, 1), n)) == id_range(
            n,
            n + nodes_count(parse_list(cfg, es, 1)),
        ),
{
    lemma_numbered_ids(parse_list(cfg, es, 1), n);
}

/// No two nodes of a parse share an interaction id.
pub proof fn lemma_ids_unique(cfg: ParserConfig, es: Seq<RawElement>, n: int)
    ensures
        forall|i: int, j: int|
            0 <= i < j < ids_of(numbered(parse_list(cfg, es, 1), n)).len() ==> ids_of(
                numbered(parse_list(cfg, es, 1), n),
            )[i] != ids_of(numbered(parse_list(cfg, es, 1), n))[j],
{
    lemma_ids_consecutive(cfg, es, n);
}

/// Every node of the forest lies at most `k` levels deep (the top level is
/// level 1): with `k` at most 0 the forest is empty.
pub open spec fn within_depth(s: Seq<NodeView>, k: int) -> bool
    decreases k,
{
    if k <= 0 {
        s.len() == 0
    } else {
        forall|i: int| 0 <= i < s.len() ==> within_depth(#[trigger] s[i].children, k - 1)
    }
}

/// The node made of an element at depth `d` has descendants down to the
/// maximum depth at most.
proof fn lemma_one_depth(cfg: ParserConfig, e: RawElement, d: int)
    ensures
        parse_one(cfg, e, d) matches Some(v) ==> within_depth(v.children, cfg.max_depth - d),
    decreases e,
{
    if kept(cfg, e, d) {
        lemma_list_depth(cfg, e.children@, d + 1);
    }
}

/// Parsing siblings at depth `d` yields nodes no deeper than the maximum
/// depth: nothing at all when `d` is beyond it.
proof fn lemma_list_depth(cfg: ParserConfig, es: Seq<RawElement>, d: int)
    ensures
        within_depth(parse_list(cfg, es, d), cfg.max_depth - d + 1),
    decreases es,
{
    let r = parse_list(cfg, es, d);
    if es.len() > 0 && d <= cfg.max_depth {
        lemma_list_depth(cfg, es.drop_last(), d);
        let prev = parse_list(cfg, es.drop_last(), d);
        lemma_one_depth(cfg, es.last(), d);
        assert forall|i: int| 0 <= i < r.len() implies within_depth(
            #[trigger] r[i].children,
            cfg.max_depth - d,
        ) by {
            if i < prev.len() {
                assert(within_depth(prev[i].children, cfg.max_depth - d));
            }
        }
    }
}

/// Giving ids keeps every node at its depth.
proof fn lemma_numbered_depth(s: Seq<NodeView>, n: int, k: int)
    requires
        within_depth(s, k),
    ensures
        within_depth(numbered(s, n), k),
    decreases k,
{
    lemma_numbered_index(s, n);
    if k > 0 {
        assert forall|i: int| 0 <= i < numbered(s, n).len() implies within_depth(
            #[trigger] numbered(s, n)[i].children,
            k - 1,
        ) by {
            assert(within_depth(s[i].children, k - 1));
            lemma_numbered_depth(s[i].children, n + nodes_count(s.take(i)) + 1, k - 1);
        }
    }
}

/// A parse from the top level never yields nodes deeper than the configured
/// maximum depth.
pub proof fn lemma_depth_limited(cfg: ParserConfig, es: Seq<RawElement>, n: int)
    ensures
        within_depth(numbered(parse_list(cfg, es, 1), n), cfg.max_depth as int),
{
    lemma_list_depth(cfg, es, 1);
    lemma_numbered_depth(parse_list(cfg, es, 1), n, cfg.max_depth as int);
}

/// No two neighbouring nodes of the list are both static text nodes.
pub open spec fn no_static_neighbours(s: Seq<NodeView>) -> bool {
    forall|i: int| 0 <= i < s.len() - 1 ==> !(is_static(#[trigger] s[i]) && is_static(s[i + 1]))
}

/// No two neighbouring siblings are both static text nodes, at any level
/// down to `k` levels.
pub open spec fn text_merged(s: Seq<NodeView>, k: int) -> bool
    decreases k,
{
    if k <= 0 {
        true
    } else {
        no_static_neighbours(s) && forall|i: int|
            0 <= i < s.len() ==> text_merged(#[trigger] s[i].children, k - 1)
    }
}

/// The node made of one element has its static text children merged, at
/// every level below it.
proof fn lemma_one_merged(cfg: ParserConfig, e: RawElement, d: int, k: int)
    ensures
        parse_one(cfg, e, d) matches Some(v) ==> text_merged(v.children, k),
    decreases e,
{
    if kept(cfg, e, d) {
        lemma_list_merged(cfg, e.children@, d + 1, k);
    }
}

/// Parsing siblings leaves no two neighbouring static text nodes, at any
/// level (down to any `k`).
proof fn lemma_list_merged(cfg: ParserConfig, es: Seq<RawElement>, d: int, k: int)
    ensures
        text_merged(parse_list(cfg, es, d), k),
    decreases es,
{
    let r = parse_list(cfg, es, d);
    if es.len() > 0 && d <= cfg.max_depth && k > 0 {
        lemma_list_merged(cfg, es.drop_last(), d, k);
        let prev = parse_list(cfg, es.drop_last(), d);
        lemma_one_merged(cfg, es.last(), d, k - 1);
        assert forall|i: int| 0 <= i < r.len() implies text_merged(
            #[trigger] r[i].children,
            k - 1,
        ) by {
            if i < prev.len() {
                assert(text_merged(prev[i].children, k - 1));
            }
        }
        assert forall|i: int| 0 <= i < r.len() - 1 implies !(is_static(#[trigger] r[i])
            && is_static(r[i + 1])) by {
            if i + 1 < prev.len() {
                assert(!(is_static(prev[i]) && is_static(prev[i + 1])));
            }
        }
    }
}

/// Giving ids keeps which nodes are static text, so merged text stays
/// merged.
proof fn lemma_numbered_merged(s: Seq<NodeView>, n: int, k: int)
    requires
        text_merged(s, k),
    ensures
        text_merged(numbered(s, n), k),
    decreases k,
{
    lemma_numbered_index(s, n);
    if k > 0 {
        let u = numbered(s, n);
        assert forall|i: int| 0 <= i < u.len() implies is_static(#[trigger] u[i]) == is_static(
            s[i],
        ) by {
            lemma_numbered_index(s[i].children, n + nodes_count(s.take(i)) + 1);
        }
        assert forall|i: int| 0 <= i < u.len() - 1 implies !(is_static(#[trigger] u[i])
            && is_static(u[i + 1])) by {
            assert(is_static(u[i + 1]) == is_static(s[i + 1]));
            assert(!(is_static(s[i]) && is_static(s[i + 1])));
        }
        assert forall|i: int| 0 <= i < u.len() implies text_merged(
            #[trigger] u[i].children,
            k - 1,
        ) by {
            assert(text_merged(s[i].children, k - 1));
            lemma_numbered_merged(s[i].children, n + nodes_count(s.take(i)) + 1, k - 1);
        }
    }
}

/// After a parse, no two neighbouring siblings at any level are both static
/// text nodes: consecutive static text is merged into one node.
pub proof fn lemma_text_merged(cfg: ParserConfig, es: Seq<RawElement>, n: int)
    ensures
        text_merged(numbered(parse_list(cfg, es, 1), n), cfg.max_depth as int),
{
    lemma_list_merged(cfg, es, 1, cfg.max_depth as int);
    lemma_numbered_merged(parse_list(cfg, es, 1), n, cfg.max_depth as int);
}

/// An element that is neither of a skipped tag nor hidden, and whose ARIA
/// role is one of the configured interactive roles, becomes one node marked
/// interactive, with its tag, role and trimmed text and the parser's next id.
pub proof fn lemma_role_makes_interactive(cfg: ParserConfig, e: RawElement, n: int)
    requires
        cfg.max_depth >= 1,
        !name_in(cfg.skip_tags@, e.tag@),
        !hidden(e.style),
        !hidden_by_selector(cfg, e.attributes@),
        e.role matches Some(r) && name_in(cfg.interactive_roles@, r@),
    ensures
        numbered(parse_list(cfg, seq![e], 1), n).len() == 1,
        numbered(parse_list(cfg, seq![e], 1), n)[0].is_interactive,
        numbered(parse_list(cfg, seq![e], 1), n)[0].role == opt_view(e.role),
        numbered(parse_list(cfg, seq![e], 1), n)[0].tag == e.tag@,
        numbered(parse_list(cfg, seq![e], 1), n)[0].text == spec_trim(e.text@),
        numbered(parse_list(cfg, seq![e], 1), n)[0].id == n,
{
    assert(interactive(cfg, e.tag@, opt_view(e.role), e.attributes@));
    lemma_interactive_flag(cfg, e, n);
    lemma_numbered_index(parse_list(cfg, seq![e], 1), n);
}

/// A lone element that becomes a node is marked interactive exactly as
/// `is_interactive` answers for its own tag, role and attributes, and keeps
/// its tag and role; an interactive element is never dropped unless it is
/// of a skipped tag or hidden.
pub proof fn lemma_interactive_flag(cfg: ParserConfig, e: RawElement, n: int)
    requires
        cfg.max_depth >= 1,
    ensures
        parse_list(cfg, seq![e], 1).len() == 1 ==> numbered(parse_list(cfg, seq![e], 1), n)[0].is_interactive
            == interactive(cfg, e.tag@, opt_view(e.role), e.attributes@),
        parse_list(cfg, seq![e], 1).len() == 1 ==> numbered(parse_list(cfg, seq![e], 1), n)[0].role
            == opt_view(e.role) && numbered(parse_list(cfg, seq![e], 1), n)[0].tag == e.tag@
            && numbered(parse_list(cfg, seq![e], 1), n)[0].text == spec_trim(e.text@)
            && numbered(parse_list(cfg, seq![e], 1), n)[0].id == n,
        parse_list(cfg, seq![e], 1).len() <= 1,
        interactive(cfg, e.tag@, opt_view(e.role), e.attributes@) && !name_in(
            cfg.skip_tags@,
            e.tag@,
        ) && !hidden(e.style) && !hidden_by_selector(cfg, e.attributes@) ==> parse_list(
            cfg,
            seq![e],
            1,
        ).len() == 1,
{
    let es = seq![e];
    assert(es.drop_last() =~= Seq::<RawElement>::empty());
    assert(es.last() == e);
    let l = parse_list(cfg, es, 1);
    let u = numbered(l, n);
    assert(parse_list(cfg, es.drop_last(), 1) =~= Seq::<NodeView>::empty());
    match parse_one(cfg, e, 1) {
        Some(v) => {
            assert(l =~= Seq::<NodeView>::empty().push(v));
            assert(l[0] == v);
        },
        None => {
            assert(l.len() == 0);
        },
    }
    lemma_numbered_index(l, n);
    if l.len() == 1 {
        assert(l.take(0) =~= Seq::<NodeView>::empty());
        assert(nodes_count(l.take(0)) == 0);
        assert(u[0] == numbered_node(l[0], n));
    }
}

/// The selector of an element with an id is `#` and the id; without one it
/// starts with the tag and names the element's `name` (for every tag) and,
/// for an input, its value as a type.
pub proof fn lemma_selector_parts(e: RawElement)
    ensures
        e.id matches Some(i) ==> selector(e) == "#"@ + i@,
        e.id is None ==> seq_starts_with(selector(e), e.tag@),
        e.id is None && e.name is Some ==> seq_contains(
            selector(e),
            "[name=\""@ + e.name.unwrap()@ + "\"]"@,
        ),
        e.id is None && e.tag@ == "input"@ && e.value is Some ==> seq_contains(
            selector(e),
            "[type=\""@ + e.value.unwrap()@ + "\"]"@,
        ),
{
    if e.id is None {
        let class_part = match e.class {
            Some(c) => match spec_first_token(c@) {
                Some(t) => "."@ + t,
                None => Seq::empty(),
            },
            None => Seq::empty(),
        };
        let name_part = match e.name {
            Some(nm) => "[name=\""@ + nm@ + "\"]"@,
            None => Seq::empty(),
        };
        let type_part = if e.tag@ == "input"@ {
            match e.value {
                Some(v) => "[type=\""@ + v@ + "\"]"@,
                None => Seq::empty(),
            }
        } else {
            Seq::empty()
        };
        let sel = selector(e);
        assert(sel == e.tag@ + class_part + name_part + type_part);
        assert(sel.subrange(0, e.tag@.len() as int) =~= e.tag@);
        let a: int = (e.tag@.len() + class_part.len()) as int;
        assert(sel.subrange(a, a + name_part.len()) =~= name_part);
        assert(occurs_at(sel, name_part, a));
        let b: int = a + name_part.len();
        assert(sel.subrange(b, b + type_part.len()) =~= type_part);
        assert(occurs_at(sel, type_part, b));
    }
}

proof fn lemma_count_last(s: Seq<SemanticNode>)
    requires
        s.len() > 0,
    ensures
        nodes_count(nodes_view(s)) == nodes_count(nodes_view(s.drop_last())) + node_count(
            node_view(s.last()),
        ),
{
    let v = nodes_view(s);
    assert(v.drop_last() =~= nodes_view(s.drop_last()));
}

proof fn lemma_count_prefix(all: Seq<SemanticNode>, i: int)
    requires
        0 <= i <= all.len(),
    ensures
        nodes_count(nodes_view(all.take(i))) <= nodes_count(nodes_view(all)),
    decreases all.len() - i,
{
    if i < all.len() {
        lemma_count_prefix(all, i + 1);
        assert(all.take(i + 1).drop_last() =~= all.take(i));
        lemma_count_last(all.take(i + 1));
    } else {
        assert(all.take(i) =~= all);
    }
}

/// The number of nodes in a forest, descendants included, when it is at
/// most `budget`.
pub fn count_nodes_within(nodes: &Vec<SemanticNode>, budget: u32) -> (r: Option<u32>)
    ensures
        r matches Some(c) ==> c == nodes_count(nodes_view(nodes@)) && c <= budget,
        r is None ==> nodes_count(nodes_view(nodes@)) > budget,
    decreases nodes@,
{
    let n = nodes.len();
    let mut total: u32 = 0;
    let mut i: usize = 0;
    proof {
        assert(nodes@.take(0) =~= Seq::<SemanticNode>::empty());
    }
    while i < n
        invariant
            n == nodes@.len(),
            i <= n,
            total == nodes_count(nodes_view(nodes@.take(i as int))),
            total <= budget,
        decreases n - i,
    {
        proof {
            assert(nodes@.take(i + 1).drop_last() =~= nodes@.take(i as int));
            assert(nodes@.take(i + 1).last() == nodes@[i as int]);
            lemma_count_prefix(nodes@, i + 1);
            lemma_count_last(nodes@.take(i + 1));
        }
        if total >= budget {
            return None;
        }
        proof {
            assert(decreases_to!(nodes@ => nodes@[i as int]));
        }
        match count_nodes_within(&nodes[i].children, budget - total - 1) {
            None => {
                return None;
            },
            Some(c) => {
                total = total + 1 + c;
            },
        }
        i = i + 1;
    }
    proof {
        assert(nodes@.take(n as int) =~= nodes@);
    }
    Some(total)
}

/// Whether `s` is one of the names in `list`.
fn contains_name(list: &Vec<&'static str>, s: &str) -> (r: bool)
    ensures
        r == name_in(list@, s@),
{
    let n = list.len();
    let mut i: usize = 0;
    while i < n
        invariant
            n == list@.len(),
            i <= n,
            forall|k: int| 0 <= k < i ==> (#[trigger] list@[k])@ != s@,
        decreases n - i,
    {
        if str_eq(list[i], s) {
            return true;
        }
        i = i + 1;
    }
    false
}

/// Whether `s` is one of the attribute names in `attrs`.
fn contains_attr(attrs: &Vec<String>, s: &str) -> (r: bool)
    ensures
        r == attr_in(attrs@, s@),
{
    let n = attrs.len();
    let mut i: usize = 0;
    while i < n
        invariant
            n == attrs@.len(),
            i <= n,
            forall|k: int| 0 <= k < i ==> (#[trigger] attrs@[k])@ != s@,
        decreases n - i,
    {
        if str_eq(attrs[i].as_str(), s) {
            return true;
        }
        i = i + 1;
    }
    false
}

/// Index of the first character at or after `k` that is not a space.
fn skip_spaces_at(s: &Vec<char>, k: usize) -> (r: usize)
    requires
        k <= s@.len(),
    ensures
        r == skip_spaces(s@, k as int),
        k <= r <= s@.len(),
{
    let mut j = k;
    while j < s.len() && s[j] == ' '
        invariant
            k <= j <= s@.len(),
            skip_spaces(s@, j as int) == skip_spaces(s@, k as int),
        decreases s@.len() - j,
    {
        j = j + 1;
    }
    j
}

/// Index of the end of the value that starts at `k`.
fn value_end_at(s: &Vec<char>, k: usize) -> (r: usize)
    requires
        k <= s@.len(),
    ensures
        r == value_end(s@, k as int),
        k <= r <= s@.len(),
{
    let mut j = k;
    while j < s.len() && s[j] != ';' && s[j] != '!' && !is_whitespace(s[j])
        invariant
            k <= j <= s@.len(),
            value_end(s@, j as int) == value_end(s@, k as int),
        decreases s@.len() - j,
    {
        j = j + 1;
    }
    j
}

/// Whether `s[a..b]` is a decimal number whose value is zero.
fn is_zero_number(s: &Vec<char>, a: usize, b: usize) -> (r: bool)
    requires
        a <= b <= s@.len(),
    ensures
        r == zero_number(s@.subrange(a as int, b as int)),
{
    let ghost v = s@.subrange(a as int, b as int);
    let mut seen_zero = false;
    let mut seen_dot = false;
    let mut j = a;
    while j < b
        invariant
            a <= j <= b <= s@.len(),
            v == s@.subrange(a as int, b as int),
            forall|t: int| 0 <= t < j - a ==> v[t] == '0' || v[t] == '.',
            seen_zero == exists|t: int| 0 <= t < j - a && v[t] == '0',
            seen_dot == exists|t: int| 0 <= t < j - a && v[t] == '.',
            forall|t: int, u: int| 0 <= t < u < j - a ==> !(v[t] == '.' && v[u] == '.'),
        decreases b - j,
    {
        let c = s[j];
        assert(v[j - a] == c);
        if c == '0' {
            seen_zero = true;
        } else if c == '.' {
            if seen_dot {
                let ghost t = choose|t: int| 0 <= t < j - a && v[t] == '.';
                assert(!(forall|t: int, u: int|
                    0 <= t < u < v.len() ==> !(v[t] == '.' && v[u] == '.'))) by {
                    assert(v[t] == '.' && v[j - a] == '.');
                }
                return false;
            }
            seen_dot = true;
        } else {
            assert(!(v[j - a] == '0' || v[j - a] == '.'));
            return false;
        }
        j = j + 1;
    }
    seen_zero
}

/// Whether a lowercased style declaration sets the opacity to zero.
fn has_zero_opacity(lowered: &str) -> (r: bool)
    ensures
        r == opacity_zero(lowered@),
{
    proof {
        reveal_strlit("opacity:");
    }
    let s = chars_of(lowered);
    let p = chars_of("opacity:");
    let n = s.len();
    if n < 8 {
        assert forall|i: int| !opacity_zero_at(lowered@, i) by {}
        return false;
    }
    let mut i: usize = 0;
    while i <= n - 8
        invariant
            n == s@.len(),
            8 <= n,
            s@ == lowered@,
            p@ == "opacity:"@,
            p@.len() == 8,
            i <= n - 7,
            forall|k: int| 0 <= k < i ==> !opacity_zero_at(lowered@, k),
        decreases n - 7 - i,
    {
        if matches_at(&s, &p, i) {
            let a = skip_spaces_at(&s, i + 8);
            let b = value_end_at(&s, a);
            if is_zero_number(&s, a, b) {
                assert(opacity_zero_at(lowered@, i as int));
                return true;
            }
        }
        i = i + 1;
    }
    assert forall|k: int| !opacity_zero_at(lowered@, k) by {
        if k >= i {
            assert(!occurs_at(lowered@, "opacity:"@, k));
        }
    }
    false
}

/// Whether an already lowercased style declaration hides its element.
pub fn is_hidden_style(lowered: &str) -> (r: bool)
    ensures
        r == hidden_style(lowered@),
{
    str_contains(lowered, "display: none") || str_contains(lowered, "display:none")
        || has_zero_opacity(lowered) || str_contains(lowered, "visibility: hidden")
        || str_contains(lowered, "visibility:hidden")
}

/// Whether `sel` is the attribute selector `[a]`.
fn is_bracketed(sel: &str, a: &str) -> (r: bool)
    ensures
        r == bracketed(sel@, a@),
{
    let sv = chars_of(sel);
    let av = chars_of(a);
    let ghost want = seq!['['] + a@ + seq![']'];
    assert(want.len() == a@.len() + 2);
    if sv.len() < 2 || sv.len() - 2 != av.len() {
        return false;
    }
    let m = av.len();
    assert(want[0] == '[' && want[m + 1] == ']');
    if sv[0] != '[' || sv[m + 1] != ']' {
        return false;
    }
    let mut j: usize = 0;
    while j < m
        invariant
            m == av@.len(),
            sv@.len() == m + 2,
            av@ == a@,
            sv@ == sel@,
            want == seq!['['] + a@ + seq![']'],
            want.len() == m + 2,
            j <= m,
            forall|t: int| 0 <= t < j ==> sv@[t + 1] == av@[t],
        decreases m - j,
    {
        if sv[j + 1] != av[j] {
            assert(want[j + 1] == av@[j as int]);
            return false;
        }
        j = j + 1;
    }
    assert(sv@ =~= want);
    true
}

/// Two texts joined by a space (an empty one adds nothing).
fn join_text(a: &str, b: &str) -> (r: String)
    ensures
        r@ == joined(a@, b@),
{
    if a.unicode_len() == 0 {
        b.to_owned()
    } else if b.unicode_len() == 0 {
        a.to_owned()
    } else {
        let mut s = a.to_owned();
        s.append(" ");
        s.append(b);
        s
    }
}

/// The number of elements of tag `tag` in the characters `s`.
fn count_tag(s: &Vec<char>, tag: &str) -> (r: usize)
    ensures
        r == tag_count(s@, tag@, 0),
{
    proof {
        reveal_strlit("<");
    }
    let mut open_tag = String::from_str("<");
    open_tag.append(tag);
    let open = chars_of(open_tag.as_str());
    assert(open@ =~= seq!['<'] + tag@);
    let n = s.len();
    let mut c: usize = 0;
    let mut i: usize = n;
    while i > 0
        invariant
            n == s@.len(),
            open@ == seq!['<'] + tag@,
            i <= n,
            c == tag_count(s@, tag@, i as int),
            c <= n - i,
        decreases i,
    {
        i = i - 1;
        if opens_here(s, &open, Ghost(tag@), i) {
            c = c + 1;
        }
    }
    c
}

/// The interactive tag names of the default configuration.
pub open spec fn default_interactive_tags() -> Seq<Seq<char>> {
    seq![
        "a"@,
        "button"@,
        "input"@,
        "select"@,
        "textarea"@,
        "details"@,
        "label"@,
        "option"@,
        "optgroup"@,
        "fieldset"@,
        "form"@,
    ]
}

/// The interactive ARIA roles of the default configuration.
pub open spec fn default_interactive_roles() -> Seq<Seq<char>> {
    seq![
        "button"@,
        "searchbox"@,
        "textbox"@,
        "checkbox"@,
        "radio"@,
        "menuitem"@,
        "tab"@,
        "link"@,
        "combobox"@,
        "switch"@,
        "slider"@,
        "spinbutton"@,
        "search"@,
        "listbox"@,
        "tree"@,
        "treeitem"@,
    ]
}

/// The skipped tags of the default configuration.
pub open spec fn default_skip_tags() -> Seq<Seq<char>> {
    seq!["script"@, "style"@, "noscript"@, "meta"@, "link"@, "head"@, "template"@]
}

/// The hidden-element selectors of the default configuration.
pub open spec fn default_hidden_selectors() -> Seq<Seq<char>> {
    seq![
        "[style*='display: none']"@,
        "[style*='display:none']"@,
        "[style*='opacity: 0']"@,
        "[style*='opacity:0']"@,
        "[style*='visibility: hidden']"@,
        "[style*='visibility:hidden']"@,
        "[hidden]"@,
        "[aria-hidden='true']"@,
    ]
}

impl Default for ParserConfig {
    fn default() -> (r: Self)
        ensures
            r.max_depth == 20,
            r.min_text_length == 1,
            r.hidden_selectors@.map_values(|s: String| s@) == default_hidden_selectors(),
            r.interactive_tags@.map_values(|s: &'static str| s@) == default_interactive_tags(),
            r.interactive_roles@.map_values(|s: &'static str| s@) == default_interactive_roles(),
            r.skip_tags@.map_values(|s: &'static str| s@) == default_skip_tags(),
    {
        let interactive_tags: Vec<&'static str> = vec![
            "a",
            "button",
            "input",
            "select",
            "textarea",
            "details",
            "label",
            "option",
            "optgroup",
            "fieldset",
            "form",
        ];
        let interactive_roles: Vec<&'static str> = vec![
            "button",
            "searchbox",
            "textbox",
            "checkbox",
            "radio",
            "menuitem",
            "tab",
            "link",
            "combobox",
            "switch",
            "slider",
            "spinbutton",
            "search",
            "listbox",
            "tree",
            "treeitem",
        ];
        // Tags to skip (script, style, etc.)
        let skip_tags: Vec<&'static str> = vec![
            "script",
            "style",
            "noscript",
            "meta",
            "link",
            "head",
            "template",
        ];
        let hidden_selectors: Vec<String> = vec![
            String::from_str("[style*='display: none']"),
            String::from_str("[style*='display:none']"),
            String::from_str("[style*='opacity: 0']"),
            String::from_str("[style*='opacity:0']"),
            String::from_str("[style*='visibility: hidden']"),
            String::from_str("[style*='visibility:hidden']"),
            String::from_str("[hidden]"),
            String::from_str("[aria-hidden='true']"),
        ];
        assert(interactive_tags@.map_values(|s: &'static str| s@) =~= default_interactive_tags());
        assert(interactive_roles@.map_values(|s: &'static str| s@) =~= default_interactive_roles());
        assert(skip_tags@.map_values(|s: &'static str| s@) =~= default_skip_tags());
        assert(hidden_selectors@.map_values(|s: String| s@) =~= default_hidden_selectors());
        ParserConfig {
            max_depth: 20,
            min_text_length: 1,
            hidden_selectors,
            interactive_tags,
            interactive_roles,
            skip_tags,
        }
    }
}

/// Semantic parser: a configuration and the next interaction id to hand out.
pub struct SemanticParser {
    pub config: ParserConfig,
    pub next_id: u32,
}

impl SemanticParser {
    /// Create a new parser; ids start at 1.
    pub fn new(config: ParserConfig) -> (r: Self)
        ensures
            r.config == config,
            r.next_id == 1,
    {
        SemanticParser { config, next_id: 1 }
    }

    /// Create with the default configuration.
    pub fn default_parser() -> (r: Self)
        ensures
            r.next_id == 1,
            r.config.max_depth == 20,
            r.config.min_text_length == 1,
            r.config.hidden_selectors@.map_values(|s: String| s@) == default_hidden_selectors(),
            r.config.interactive_tags@.map_values(|s: &'static str| s@)
                == default_interactive_tags(),
            r.config.interactive_roles@.map_values(|s: &'static str| s@)
                == default_interactive_roles(),
            r.config.skip_tags@.map_values(|s: &'static str| s@) == default_skip_tags(),
    {
        Self::new(ParserConfig::default())
    }

    /// Whether an element with this inline style is hidden: its lowercased
    /// style says `display: none`, `opacity: 0` or `visibility: hidden`
    /// (with or without the space).
    pub fn is_hidden_element(&self, style: &Option<String>) -> (r: bool)
        ensures
            r == hidden(*style),
            style matches Some(s) ==> (is_ascii_seq(s@) ==> r == hidden_style(ascii_lower(s@))),
    {
        match style {
            Some(s) => {
                let lowered = to_lowercase(s.as_str());
                is_hidden_style(lowered.as_str())
            },
            None => false,
        }
    }

    /// Whether elements of this tag are skipped entirely.
    pub fn should_skip_tag(&self, tag: &str) -> (r: bool)
        ensures
            r == name_in(self.config.skip_tags@, tag@),
    {
        contains_name(&self.config.skip_tags, tag)
    }

    /// Whether an element is interactive, by tag name, ARIA role or one of
    /// the attributes onclick, onchange, onsubmit, onfocus, onblur, href.
    pub fn is_interactive(&self, tag: &str, role: Option<&str>, attributes: &Vec<String>) -> (r:
        bool)
        ensures
            r == interactive(
                self.config,
                tag@,
                match role {
                    Some(x) => Some(x@),
                    None => None,
                },
                attributes@,
            ),
    {
        if contains_name(&self.config.interactive_tags, tag) {
            return true;
        }
        match role {
            Some(r) => {
                if contains_name(&self.config.interactive_roles, r) {
                    return true;
                }
            },
            None => {},
        }
        contains_attr(attributes, "onclick") || contains_attr(attributes, "onchange")
            || contains_attr(attributes, "onsubmit") || contains_attr(attributes, "onfocus")
            || contains_attr(attributes, "onblur") || contains_attr(attributes, "href")
    }

    /// Generate the CSS selector for an element.
    pub fn generate_selector(&self, element: &RawElement, _depth: usize) -> (r: String)
        ensures
            r@ == selector(*element),
    {
        match &element.id {
            Some(id) => {
                let mut s = String::from_str("#");
                s.append(id.as_str());
                return s;
            },
            None => {},
        }
        let mut sel = element.tag.clone();
        let ghost base = sel@;
        match &element.class {
            Some(class) => {
                match first_token(class.as_str()) {
                    Some(t) => {
                        sel.append(".");
                        sel.append(t.as_str());
                    },
                    None => {},
                }
            },
            None => {},
        }
        match &element.name {
            Some(name) => {
                sel.append("[name=\"");
                sel.append(name.as_str());
                sel.append("\"]");
            },
            None => {},
        }
        if str_eq(element.tag.as_str(), "input") {
            match &element.value {
                Some(value) => {
                    sel.append("[type=\"");
                    sel.append(value.as_str());
                    sel.append("\"]");
                },
                None => {},
            }
        }
        proof {
            let e = *element;
            let class_part = match e.class {
                Some(c) => match spec_first_token(c@) {
                    Some(t) => "."@ + t,
                    None => Seq::empty(),
                },
                None => Seq::empty(),
            };
            let name_part = match e.name {
                Some(n) => "[name=\""@ + n@ + "\"]"@,
                None => Seq::empty(),
            };
            let type_part = if e.tag@ == "input"@ {
                match e.value {
                    Some(v) => "[type=\""@ + v@ + "\"]"@,
                    None => Seq::empty(),
                }
            } else {
                Seq::empty()
            };
            assert(sel@ =~= e.tag@ + class_part + name_part + type_part);
        }
        sel
    }

    /// Hand out the next interaction id.
    fn next_id(&mut self) -> (r: u32)
        requires
            old(self).next_id < u32::MAX,
        ensures
            r == old(self).next_id,
            final(self).next_id == old(self).next_id + 1,
            final(self).config == old(self).config,
    {
        let id = self.next_id;
        self.next_id = self.next_id + 1;
        id
    }

    /// Parse raw HTML content into a semantic tree: every `button`, then
    /// every `input`, `a`, `select`, `textarea` and `label` element becomes a
    /// node with its tag, its trimmed text and a fresh id, in that order.
    pub fn parse_html(&mut self, html: &str) -> (r: Vec<SemanticNode>)
        requires
            old(self).next_id + html_count(html@) <= u32::MAX,
        ensures
            nodes_view(r@) == html_nodes(old(self).config, html@, old(self).next_id as int),
            final(self).next_id == old(self).next_id + html_count(html@),
            final(self).config == old(self).config,
    {
        let mut nodes: Vec<SemanticNode> = Vec::new();
        self.extract_elements(html, "button", &mut nodes);
        self.extract_elements(html, "input", &mut nodes);
        self.extract_elements(html, "a", &mut nodes);
        self.extract_elements(html, "select", &mut nodes);
        self.extract_elements(html, "textarea", &mut nodes);
        self.extract_elements(html, "label", &mut nodes);
        proof {
            assert(nodes_view(Seq::<SemanticNode>::empty()) =~= Seq::<NodeView>::empty());
            let cfg = old(self).config;
            let n = old(self).next_id as int;
            assert(nodes_view(nodes@) =~= html_nodes(cfg, html@, n));
        }
        nodes
    }

    /// Parse raw HTML as `parse_html` does when ids are left for every
    /// extracted element; otherwise `None`, and the parser is left
    /// unchanged.
    pub fn parse_html_checked(&mut self, html: &str) -> (r: Option<Vec<SemanticNode>>)
        ensures
            final(self).config == old(self).config,
            r is None <==> old(self).next_id + html_count(html@) > u32::MAX,
            r is None ==> final(self).next_id == old(self).next_id,
            r matches Some(nodes) ==> nodes_view(nodes@) == html_nodes(
                old(self).config,
                html@,
                old(self).next_id as int,
            ) && final(self).next_id == old(self).next_id + html_count(html@),
    {
        let s = chars_of(html);
        let mut left: u32 = u32::MAX - self.next_id;
        let c = count_tag(&s, "button");
        if c > left as usize {
            return None;
        }
        left = left - c as u32;
        let c = count_tag(&s, "input");
        if c > left as usize {
            return None;
        }
        left = left - c as u32;
        let c = count_tag(&s, "a");
        if c > left as usize {
            return None;
        }
        left = left - c as u32;
        let c = count_tag(&s, "select");
        if c > left as usize {
            return None;
        }
        left = left - c as u32;
        let c = count_tag(&s, "textarea");
        if c > left as usize {
            return None;
        }
        left = left - c as u32;
        let c = count_tag(&s, "label");
        if c > left as usize {
            return None;
        }
        Some(self.parse_html(html))
    }

    /// Append to `nodes` a node for every element of tag `tag` in the HTML,
    /// in document order, with fresh ids.
    fn extract_elements(&mut self, html: &str, tag: &str, nodes: &mut Vec<SemanticNode>)
        requires
            old(self).next_id + tag_count(html@, tag@, 0) <= u32::MAX,
        ensures
            nodes_view(final(nodes)@) == nodes_view(old(nodes)@) + tag_nodes(
                old(self).config,
                html@,
                tag@,
                0,
                old(self).next_id as int,
            ),
            final(self).next_id == old(self).next_id + tag_count(html@, tag@, 0),
            final(self).config == old(self).config,
    {
        let ghost cfg = self.config;
        let ghost start = self.next_id as int;
        let ghost base = nodes_view(nodes@);
        proof {
            reveal_strlit("<");
        }
        let s = chars_of(html);
        let mut open_tag = String::from_str("<");
        open_tag.append(tag);
        let open = chars_of(open_tag.as_str());
        assert(open@ =~= seq!['<'] + tag@);
        let mut close_tag = String::from_str("</");
        close_tag.append(tag);
        let close = chars_of(close_tag.as_str());
        let is_input = str_eq(tag, "input");
        let n = s.len();
        let mut i: usize = 0;
        while i < n
            invariant
                n == s@.len(),
                s@ == html@,
                open@ == seq!['<'] + tag@,
                close@ == "</"@ + tag@,
                is_input == (tag@ == "input"@),
                self.config == cfg,
                i <= n,
                nodes_view(nodes@) + tag_nodes(cfg, html@, tag@, i as int, self.next_id as int)
                    == base + tag_nodes(cfg, html@, tag@, 0, start),
                self.next_id + tag_count(html@, tag@, i as int) == start + tag_count(html@, tag@, 0),
                start + tag_count(html@, tag@, 0) <= u32::MAX,
            decreases n - i,
        {
            if opens_here(&s, &open, Ghost(tag@), i) {
                let text = if is_input {
                    String::new()
                } else {
                    let g = find_char(&s, '>', i + open.len());
                    let a = if g < n {
                        g + 1
                    } else {
                        n
                    };
                    let e = find_seq(&s, &close, a);
                    let inner = strip_markup(html, &s, a, e);
                    trim(inner.as_str())
                };
                assert(tag_count(html@, tag@, i as int) == 1 + tag_count(html@, tag@, i + 1));
                let no_attrs: Vec<String> = Vec::new();
                let is_interactive = self.is_interactive(tag, None, &no_attrs);
                proof {
                    assert(no_attrs@ =~= Seq::<String>::empty());
                }
                let id = self.next_id();
                let node = SemanticNode {
                    id,
                    tag: tag.to_owned(),
                    role: None,
                    text,
                    is_interactive,
                    path: tag.to_owned(),
                    children: Vec::new(),
                    value: None,
                    placeholder: None,
                    href: None,
                };
                proof {
                    assert(nodes_view(Seq::<SemanticNode>::empty()) =~= Seq::<NodeView>::empty());
                    assert(node_view(node) == html_node(cfg, html@, tag@, i as int, id as int));
                }
                let ghost prev = nodes@;
                nodes.push(node);
                proof {
                    assert(nodes@.drop_last() =~= prev);
                    let rest = tag_nodes(cfg, html@, tag@, i + 1, id + 1);
                    assert(seq![node_view(node)] + rest == tag_nodes(cfg, html@, tag@, i as int, id as int));
                    assert(nodes_view(prev).push(node_view(node)) + rest =~= nodes_view(prev) + (
                    seq![node_view(node)] + rest));
                }
            }
            i = i + 1;
        }
        proof {
            assert(tag_nodes(cfg, html@, tag@, n as int, self.next_id as int) =~= Seq::<NodeView>::empty());
            assert(nodes_view(nodes@) + Seq::<NodeView>::empty() =~= nodes_view(nodes@));
        }
    }

    /// Whether one of the configured hidden-element selectors is `[a]` for
    /// an entry `a` of `attributes`.
    pub fn is_hidden_by_selector(&self, attributes: &Vec<String>) -> (r: bool)
        ensures
            r == hidden_by_selector(self.config, attributes@),
    {
        let sels = &self.config.hidden_selectors;
        let ns = sels.len();
        let na = attributes.len();
        let mut i: usize = 0;
        while i < ns
            invariant
                ns == sels@.len(),
                na == attributes@.len(),
                sels@ == self.config.hidden_selectors@,
                i <= ns,
                forall|x: int, y: int|
                    0 <= x < i && 0 <= y < na ==> !bracketed(
                        #[trigger] sels@[x]@,
                        #[trigger] attributes@[y]@,
                    ),
            decreases ns - i,
        {
            let mut j: usize = 0;
            while j < na
                invariant
                    ns == sels@.len(),
                    na == attributes@.len(),
                    sels@ == self.config.hidden_selectors@,
                    i < ns,
                    j <= na,
                    forall|x: int, y: int|
                        0 <= x < i && 0 <= y < na ==> !bracketed(
                            #[trigger] sels@[x]@,
                            #[trigger] attributes@[y]@,
                        ),
                    forall|y: int| 0 <= y < j ==> !bracketed(sels@[i as int]@, #[trigger] attributes@[y]@),
                decreases na - j,
            {
                if is_bracketed(sels[i].as_str(), attributes[j].as_str()) {
                    return true;
                }
                j = j + 1;
            }
            i = i + 1;
        }
        false
    }

    /// Parse raw elements as `parse_elements` does when ids are left for
    /// every node it yields; otherwise `None`, and the parser's next id is
    /// left unchanged.
    pub fn parse_elements_checked(&mut self, elements: Vec<RawElement>) -> (r: Option<
        Vec<SemanticNode>,
    >)
        ensures
            final(self).config == old(self).config,
            r is None <==> old(self).next_id + nodes_count(
                parse_list(old(self).config, elements@, 1),
            ) > u32::MAX,
            r is None ==> final(self).next_id == old(self).next_id,
            r matches Some(nodes) ==> nodes_view(nodes@) == numbered(
                parse_list(old(self).config, elements@, 1),
                old(self).next_id as int,
            ) && final(self).next_id == old(self).next_id + nodes_count(
                parse_list(old(self).config, elements@, 1),
            ),
    {
        let shape = self.parse_at(elements, 1);
        match count_nodes_within(&shape, u32::MAX - self.next_id) {
            Some(_) => Some(self.number_nodes(shape)),
            None => None,
        }
    }

    /// Parse raw elements into semantic nodes: skipped, hidden and empty
    /// non-interactive elements are dropped, the others become nodes with
    /// trimmed text and a generated selector, their children parsed the same
    /// way down to the maximum depth; a static text node that follows
    /// another is merged into it. The nodes then get fresh consecutive ids,
    /// depth first in document order.
    pub fn parse_elements(&mut self, elements: Vec<RawElement>) -> (r: Vec<SemanticNode>)
        requires
            old(self).next_id + nodes_count(parse_list(old(self).config, elements@, 1)) <= u32::MAX,
        ensures
            final(self).config == old(self).config,
            nodes_view(r@) == numbered(
                parse_list(old(self).config, elements@, 1),
                old(self).next_id as int,
            ),
            final(self).next_id == old(self).next_id + nodes_count(
                parse_list(old(self).config, elements@, 1),
            ),
    {
        let shape = self.parse_at(elements, 1);
        self.number_nodes(shape)
    }

    /// Give the nodes of a forest fresh ids, depth first in document order.
    fn number_nodes(&mut self, nodes: Vec<SemanticNode>) -> (r: Vec<SemanticNode>)
        requires
            old(self).next_id + nodes_count(nodes_view(nodes@)) <= u32::MAX,
        ensures
            final(self).config == old(self).config,
            nodes_view(r@) == numbered(nodes_view(nodes@), old(self).next_id as int),
            final(self).next_id == old(self).next_id + nodes_count(nodes_view(nodes@)),
        decreases nodes@,
    {
        let ghost cfg = self.config;
        let ghost start = self.next_id as int;
        let ghost all = nodes@;
        let mut out: Vec<SemanticNode> = Vec::new();
        proof {
            assert(all.take(0) =~= Seq::<SemanticNode>::empty());
        }
        for node in it: nodes
            invariant
                self.config == cfg,
                it.seq() == all,
                start + nodes_count(nodes_view(all)) <= u32::MAX,
                nodes_view(out@) == numbered(nodes_view(all.take(it.index() as int)), start),
                self.next_id == start + nodes_count(nodes_view(all.take(it.index() as int))),
        {
            let ghost i = it.index() as int;
            let ghost pre = nodes_view(all.take(i));
            proof {
                assert(all.take(i + 1).drop_last() =~= all.take(i));
                assert(all.take(i + 1).last() == node);
                lemma_count_prefix(all, i + 1);
                lemma_count_last(all.take(i + 1));
                assert(decreases_to!(all => all[i]));
            }
            let ghost v = node_view(node);
            let SemanticNode {
                id: _,
                tag,
                role,
                text,
                is_interactive,
                path,
                children,
                value,
                placeholder,
                href,
            } = node;
            let id = self.next_id();
            let children = self.number_nodes(children);
            let numbered_node_here = SemanticNode {
                id,
                tag,
                role,
                text,
                is_interactive,
                path,
                children,
                value,
                placeholder,
                href,
            };
            proof {
                assert(node_view(numbered_node_here) == numbered_node(v, start + nodes_count(pre)));
            }
            let ghost prev_out = out@;
            out.push(numbered_node_here);
            proof {
                assert(out@.drop_last() =~= prev_out);
                let big = nodes_view(all.take(i + 1));
                assert(big.drop_last() =~= pre);
                assert(big.last() == v);
                assert(nodes_view(out@) =~= numbered(big, start));
            }
        }
        proof {
            assert(all.take(all.len() as int) =~= all);
        }
        out
    }

    /// The nodes made of sibling elements at depth `depth`, before ids are
    /// given.
    fn parse_at(&self, elements: Vec<RawElement>, depth: usize) -> (r: Vec<SemanticNode>)
        ensures
            nodes_view(r@) == parse_list(self.config, elements@, depth as int),
        decreases elements@,
    {
        let ghost cfg = self.config;
        let ghost all = elements@;
        let ghost d = depth as int;
        let mut nodes: Vec<SemanticNode> = Vec::new();
        if depth > self.config.max_depth {
            return nodes;
        }
        proof {
            assert(all.take(0) =~= Seq::<RawElement>::empty());
        }
        for element in it: elements
            invariant
                self.config == cfg,
                it.seq() == all,
                d == depth,
                depth <= cfg.max_depth,
                nodes_view(nodes@) == parse_list(cfg, all.take(it.index() as int), d),
        {
            let ghost i = it.index() as int;
            proof {
                assert(all.take(i + 1).drop_last() =~= all.take(i));
                assert(all.take(i + 1).last() == element);
                lemma_nodes_view(nodes@);
            }
            if !self.should_skip_tag(element.tag.as_str()) && !self.is_hidden_element(
                &element.style,
            ) && !self.is_hidden_by_selector(&element.attributes) {
                // The `role` attribute is not one of the interactive attributes,
                // so an element's role is checked against the ARIA roles only.
                let role_ref: Option<&str> = match &element.role {
                    Some(r) => Some(r.as_str()),
                    None => None,
                };
                let is_interactive = self.is_interactive(
                    element.tag.as_str(),
                    role_ref,
                    &element.attributes,
                );
                let text = trim(element.text.as_str());
                let traverse = depth < self.config.max_depth && element.children.len() > 0;
                if is_interactive || text.unicode_len() >= self.config.min_text_length || traverse {
                    let path = self.generate_selector(&element, 0);
                    let ghost e = element;
                    let RawElement {
                        tag,
                        id: _,
                        class: _,
                        name: _,
                        role,
                        text: _,
                        value,
                        placeholder,
                        href,
                        style: _,
                        attributes: _,
                        children,
                    } = element;
                    let mut node = SemanticNode {
                        id: 0,
                        tag,
                        role,
                        text,
                        is_interactive,
                        path,
                        children: Vec::new(),
                        value,
                        placeholder,
                        href,
                    };
                    if traverse {
                        proof {
                            assert(decreases_to!(all => all[i]));
                        }
                        node.children = self.parse_at(children, depth + 1);
                    } else {
                        proof {
                            assert(nodes_view(Seq::<SemanticNode>::empty()) =~= Seq::<NodeView>::empty());
                        }
                    }
                    let ghost v = parse_one(cfg, e, d).unwrap();
                    proof {
                        assert(node_view(node) == v);
                        lemma_nodes_view(node.children@);
                    }
                    let ghost prev_nodes = nodes@;
                    let n = nodes.len();
                    if !node.is_interactive && node.children.len() == 0 && n > 0
                        && !nodes[n - 1].is_interactive && nodes[n - 1].children.len() == 0 {
                        proof {
                            lemma_nodes_view(nodes[n - 1].children@);
                        }
                        let mut last = nodes.pop().unwrap();
                        let text = join_text(last.text.as_str(), node.text.as_str());
                        last.text = text;
                        nodes.push(last);
                        proof {
                            let pv = nodes_view(prev_nodes);
                            assert(prev_nodes.drop_last() =~= nodes@.drop_last());
                            assert(pv.last() == node_view(prev_nodes.last()));
                            assert(node_view(last) == merged(pv.last(), v));
                            assert(nodes_view(nodes@) =~= pv.update(pv.len() - 1, merged(pv.last(), v)));
                        }
                    } else {
                        nodes.push(node);
                        proof {
                            assert(nodes@.drop_last() =~= prev_nodes);
                        }
                    }
                }
            }
        }
        proof {
            assert(all.take(all.len() as int) =~= all);
        }
        nodes
    }
}

/// A list of nodes and its content agree position by position.
pub proof fn lemma_nodes_view(s: Seq<SemanticNode>)
    ensures
        nodes_view(s).len() == s.len(),
        forall|i: int| 0 <= i < s.len() ==> nodes_view(s)[i] == node_view(#[trigger] s[i]),
    decreases s,
{
    if s.len() > 0 {
        lemma_nodes_view(s.drop_last());
        assert forall|i: int| 0 <= i < s.len() implies nodes_view(s)[i] == node_view(
            #[trigger] s[i],
        ) by {
            if i < s.len() - 1 {
                assert(s.drop_last()[i] == s[i]);
            }
        }
    }
}

} // verus!
