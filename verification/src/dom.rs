//! Parsed HTML pages and CSS selection, by way of the `scraper` crate.
//!
//! A page is known by its source text. Its nodes are known by their position
//! in the tree that `scraper` builds (position 0 is the document itself), and
//! what a selection, a text or an attribute gives back is named as a function
//! of the page's source and of such positions.
use std::collections::HashMap;
use vstd::prelude::*;

verus! {

#[verifier::external_type_specification]
#[verifier::external_body]
pub struct ExHtml(scraper::Html);

#[verifier::external_type_specification]
#[verifier::external_body]
pub struct ExSelector(scraper::Selector);

#[verifier::external_type_specification]
#[verifier::external_body]
pub struct ExNodeId(ego_tree::NodeId);

/// The number of nodes in the tree that `scraper::Html::parse_document` builds
/// from a source text.
pub uninterp spec fn spec_node_count(src: Seq<char>) -> nat;

/// Whether `scraper::Selector::parse` accepts a selector text.
pub uninterp spec fn spec_css_ok(css: Seq<char>) -> bool;

/// The positions of the elements that `scraper::Html::select` yields, in order.
pub uninterp spec fn spec_select_doc(src: Seq<char>, css: Seq<char>) -> Seq<usize>;

/// The positions of the elements that `scraper::ElementRef::select` yields for
/// the element at `scope`, in order.
pub uninterp spec fn spec_select_in(src: Seq<char>, scope: usize, css: Seq<char>) -> Seq<usize>;

/// The text nodes that `scraper::ElementRef::text` yields for the element at `node`.
pub uninterp spec fn spec_text_nodes(src: Seq<char>, node: usize) -> Seq<Seq<char>>;

/// What `scraper::node::Element::attr` gives for the element at `node`.
pub uninterp spec fn spec_attr(src: Seq<char>, node: usize, name: Seq<char>) -> Option<
    Seq<char>,
>;

/// The children of the parent of `node` (`ego_tree::NodeRef::parent`, then
/// `children`), in order, each by its text where it is a text node
/// (`scraper::Node::as_text`) and `None` where it is not; empty for a node
/// without a parent.
pub uninterp spec fn spec_siblings(src: Seq<char>, node: usize) -> Seq<Option<Seq<char>>>;

/// The texts among `pieces`, joined.
pub open spec fn texts_among(pieces: Seq<Option<Seq<char>>>) -> Seq<char>
    decreases pieces.len(),
{
    if pieces.len() == 0 {
        Seq::empty()
    } else {
        texts_among(pieces.drop_last()) + match pieces.last() {
            Some(t) => t,
            None => Seq::empty(),
        }
    }
}

/// A parsed HTML document together with its source text.
pub struct Page {
    source: String,
    html: scraper::Html,
    ids: Vec<ego_tree::NodeId>,
    index_of: HashMap<ego_tree::NodeId, usize>,
}

impl View for Page {
    type V = Seq<char>;

    closed spec fn view(&self) -> Seq<char> {
        self.source@
    }
}

/// A CSS selector that `scraper` accepted, with its text.
pub struct Css {
    text: String,
    selector: scraper::Selector,
}

impl View for Css {
    type V = Seq<char>;

    closed spec fn view(&self) -> Seq<char> {
        self.text@
    }
}

impl Page {
    /// Parses a document with `scraper::Html::parse_document`, and numbers its
    /// nodes in the order of `ego_tree::Tree::nodes`. Parsing never fails.
    #[verifier::external_body]
    pub fn parse(source: &str) -> (page: Page)
        ensures
            page@ == source@,
    {
        let html = scraper::Html::parse_document(source);
        let ids: Vec<ego_tree::NodeId> = html.tree.nodes().map(|n| n.id()).collect();
        let index_of = ids.iter().enumerate().map(|(i, id)| (*id, i)).collect();
        Page { source: source.to_string(), html, ids, index_of }
    }

    /// `scraper::Html::select`: the elements of the whole document that match.
    #[verifier::external_body]
    pub fn select(&self, css: &Css) -> (r: Vec<usize>)
        ensures
            r@ == spec_select_doc(self@, css@),
            forall|k: int| 0 <= k < r@.len() ==> #[trigger] r@[k] < spec_node_count(self@),
    {
        self.html.select(&css.selector).map(|e| self.index_of[&e.id()]).collect()
    }

    /// `scraper::ElementRef::select`: the descendants of the element at `scope`
    /// that match.
    #[verifier::external_body]
    pub fn select_in(&self, scope: usize, css: &Css) -> (r: Vec<usize>)
        requires
            scope < spec_node_count(self@),
        ensures
            r@ == spec_select_in(self@, scope, css@),
            forall|k: int| 0 <= k < r@.len() ==> #[trigger] r@[k] < spec_node_count(self@),
    {
        match self.html.tree.get(self.ids[scope]).and_then(scraper::ElementRef::wrap) {
            Some(el) => el.select(&css.selector).map(|e| self.index_of[&e.id()]).collect(),
            None => Vec::new(),
        }
    }

    /// `scraper::ElementRef::text`: the text nodes below the element at `node`.
    #[verifier::external_body]
    pub fn text_nodes(&self, node: usize) -> (r: Vec<String>)
        requires
            node < spec_node_count(self@),
        ensures
            r@.map_values(|s: String| s@) == spec_text_nodes(self@, node),
    {
        match self.html.tree.get(self.ids[node]).and_then(scraper::ElementRef::wrap) {
            Some(el) => el.text().map(|t| t.to_string()).collect(),
            None => Vec::new(),
        }
    }

    /// `scraper::node::Element::attr` of the element at `node`.
    #[verifier::external_body]
    pub fn attr(&self, node: usize, name: &str) -> (r: Option<String>)
        requires
            node < spec_node_count(self@),
        ensures
            r matches Some(v) ==> spec_attr(self@, node, name@) == Some(v@),
            r is None ==> spec_attr(self@, node, name@) is None,
    {
        match self.html.tree.get(self.ids[node]).and_then(scraper::ElementRef::wrap) {
            Some(el) => el.value().attr(name).map(|v| v.to_string()),
            None => None,
        }
    }

    /// The children of the parent of `node`, each by its text where it is a
    /// text node.
    #[verifier::external_body]
    fn siblings(&self, node: usize) -> (r: Vec<Option<String>>)
        requires
            node < spec_node_count(self@),
        ensures
            r@.map_values(|o: Option<String>| match o {
                Some(t) => Some(t@),
                None => None,
            }) == spec_siblings(self@, node),
    {
        match self.html.tree.get(self.ids[node]).and_then(|n| n.parent()) {
            Some(p) => p.children().map(|c| c.value().as_text().map(|t| t.to_string())).collect(),
            None => Vec::new(),
        }
    }

    /// The text nodes among the children of the parent of `node`, joined.
    pub fn parent_text(&self, node: usize) -> (r: Vec<char>)
        requires
            node < spec_node_count(self@),
        ensures
            r@ == texts_among(spec_siblings(self@, node)),
    {
        let pieces = self.siblings(node);
        let ghost views = spec_siblings(self@, node);
        let mut out: Vec<char> = Vec::new();
        let mut i: usize = 0;
        while i < pieces.len()
            invariant
                i <= pieces@.len(),
                pieces@.len() == views.len(),
                forall|k: int|
                    0 <= k < pieces@.len() ==> #[trigger] views[k] == match pieces@[k] {
                        Some(t) => Some(t@),
                        None => None::<Seq<char>>,
                    },
                out@ == texts_among(views.take(i as int)),
            decreases pieces@.len() - i,
        {
            assert(views.take(i + 1).drop_last() =~= views.take(i as int));
            assert(views.take(i + 1).last() == views[i as int]);
            match &pieces[i] {
                Some(t) => {
                    out = crate::text::concat(&out, &crate::text::to_chars(t.as_str()));
                },
                None => {},
            }
            i = i + 1;
        }
        assert(views.take(pieces@.len() as int) =~= views);
        out
    }
}

impl Css {
    /// `scraper::Selector::parse`; `None` where it reports an error.
    #[verifier::external_body]
    pub fn parse(text: &str) -> (r: Option<Css>)
        ensures
            r is Some <==> spec_css_ok(text@),
            r matches Some(c) ==> c@ == text@,
    {
        scraper::Selector::parse(text).ok().map(|selector| Css { text: text.to_string(), selector })
    }
}

} // verus!
