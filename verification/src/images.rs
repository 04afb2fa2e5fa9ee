//! Images referenced by a comment's rendered HTML: which ones live on the Jira
//! server, where they are fetched from and where they are stored.

use vstd::prelude::*;
use vstd::string::*;
use vstd::utf8::{decode_utf8, encode_utf8, valid_utf8};
use crate::text::{push_char, push_str, str_eq};

verus! {

/// A node of a parsed HTML fragment, holding what the image scan reads: an
/// element's tag name, its `src` attribute (absent, present without a value,
/// or present with a value) and its children.
pub enum HtmlNode {
    Text(String),
    Element { name: String, src: Option<Option<String>>, children: Vec<HtmlNode> },
    Comment(String),
}

/// The mathematical model of an [`HtmlNode`].
pub enum HtmlTree {
    Text(Seq<char>),
    Element { name: Seq<char>, src: Option<Option<Seq<char>>>, children: Seq<HtmlTree> },
    Comment(Seq<char>),
}

pub open spec fn attribute_view(o: Option<Option<String>>) -> Option<Option<Seq<char>>> {
    match o {
        None => None,
        Some(None) => Some(None),
        Some(Some(s)) => Some(Some(s@)),
    }
}

pub open spec fn html_tree(n: HtmlNode) -> HtmlTree
    decreases n,
{
    match n {
        HtmlNode::Text(t) => HtmlTree::Text(t@),
        HtmlNode::Comment(t) => HtmlTree::Comment(t@),
        HtmlNode::Element { name, src, children } => HtmlTree::Element {
            name: name@,
            src: attribute_view(src),
            children: Seq::new(
                children@.len(),
                |i: int|
                    if 0 <= i < children@.len() {
                        html_tree(children@[i])
                    } else {
                        HtmlTree::Text(Seq::empty())
                    },
            ),
        },
    }
}

impl View for HtmlNode {
    type V = HtmlTree;

    open spec fn view(&self) -> HtmlTree {
        html_tree(*self)
    }
}

/// The models of a sequence of nodes.
pub open spec fn forest_view(nodes: Seq<HtmlNode>) -> Seq<HtmlTree> {
    Seq::new(nodes.len(), |i: int| nodes[i]@)
}

/// The models of a sequence of strings.
pub open spec fn strings_view(v: Seq<String>) -> Seq<Seq<char>> {
    v.map_values(|s: String| s@)
}

/// The image sources a node contributes by itself: the value of its `src`
/// attribute when it is an `img` element whose `src` has a value.
pub open spec fn own_image_source(t: HtmlTree) -> Seq<Seq<char>> {
    match t {
        HtmlTree::Element { name, src, children } => match src {
            Some(Some(s)) => if name == "img"@ {
                seq![s]
            } else {
                seq![]
            },
            _ => seq![],
        },
        _ => seq![],
    }
}

/// The image sources of a tree in document order: the node's own, then those
/// of its children, left to right (a pre-order walk).
pub open spec fn tree_image_sources(t: HtmlTree) -> Seq<Seq<char>>
    decreases t,
{
    match t {
        HtmlTree::Element { name, src, children } => own_image_source(t) + forest_image_sources(
            children,
        ),
        _ => seq![],
    }
}

/// The image sources of a sequence of trees, in order.
pub open spec fn forest_image_sources(ts: Seq<HtmlTree>) -> Seq<Seq<char>>
    decreases ts,
{
    if ts.len() == 0 {
        seq![]
    } else {
        forest_image_sources(ts.drop_last()) + tree_image_sources(ts.last())
    }
}

/// The image sources of a sequence of trees are those of each tree in turn:
/// a single tree gives its own, and joining two sequences joins their
/// sources.
pub proof fn sources_follow_document_order(ts1: Seq<HtmlTree>, ts2: Seq<HtmlTree>, t: HtmlTree)
    ensures
        forest_image_sources(seq![t]) == tree_image_sources(t),
        forest_image_sources(ts1 + ts2) == forest_image_sources(ts1) + forest_image_sources(ts2),
    decreases ts2.len(),
{
    assert(seq![t].drop_last() =~= Seq::<HtmlTree>::empty());
    assert(forest_image_sources(Seq::<HtmlTree>::empty()) =~= Seq::<Seq<char>>::empty());
    assert(forest_image_sources(seq![t]) =~= tree_image_sources(t));
    if ts2.len() == 0 {
        assert(ts1 + ts2 =~= ts1);
        assert(forest_image_sources(ts2) =~= Seq::<Seq<char>>::empty());
        assert(forest_image_sources(ts1) + forest_image_sources(ts2) =~= forest_image_sources(ts1));
    } else {
        sources_follow_document_order(ts1, ts2.drop_last(), t);
        assert((ts1 + ts2).drop_last() =~= ts1 + ts2.drop_last());
        assert((ts1 + ts2).last() == ts2.last());
        assert(forest_image_sources(ts1) + forest_image_sources(ts2) =~= forest_image_sources(ts1)
            + forest_image_sources(ts2.drop_last()) + tree_image_sources(ts2.last()));
    }
}

/// Every element passes on the image sources of all its children, whatever
/// its tag: an `img` with a `src` value puts that value first, and any other
/// element (or an `img` without a value) contributes exactly its children's
/// sources. Text and comments contribute nothing.
pub proof fn every_element_passes_on_its_children(
    name: Seq<char>,
    src: Option<Option<Seq<char>>>,
    children: Seq<HtmlTree>,
    text: Seq<char>,
)
    ensures
        tree_image_sources(HtmlTree::Text(text)).len() == 0,
        tree_image_sources(HtmlTree::Comment(text)).len() == 0,
        (name != "img"@ || !(src is Some && src->0 is Some)) ==> tree_image_sources(
            HtmlTree::Element { name, src, children },
        ) == forest_image_sources(children),
        (name == "img"@ && src is Some && src->0 is Some) ==> tree_image_sources(
            HtmlTree::Element { name, src, children },
        ) == seq![src->0->0] + forest_image_sources(children),
{
    let t = HtmlTree::Element { name, src, children };
    if name != "img"@ || !(src is Some && src->0 is Some) {
        assert(own_image_source(t) =~= Seq::<Seq<char>>::empty());
        assert(tree_image_sources(t) =~= forest_image_sources(children));
    }
}

fn collect_node_sources(node: &HtmlNode, out: &mut Vec<String>)
    ensures
        strings_view(final(out)@) == strings_view(old(out)@) + tree_image_sources(node@),
    decreases node,
{
    match node {
        HtmlNode::Element { name, src, children } => {
            if str_eq(name.as_str(), "img") {
                match src {
                    Some(Some(s)) => {
                        out.push(s.clone());
                    },
                    _ => {},
                }
            }
            let ghost before = strings_view(out@);
            let ghost kids = forest_view(children@);
            assert(kids == node@->children);
            let mut i: usize = 0;
            while i < children.len()
                invariant
                    0 <= i <= children.len(),
                    kids == forest_view(children@),
                    node is Element,
                    node->children == *children,
                    strings_view(out@) == before + forest_image_sources(kids.take(i as int)),
                decreases children.len() - i,
            {
                assert(decreases_to!(*node => node->children));
                collect_node_sources(&children[i], out);
                assert(kids.take(i + 1).drop_last() == kids.take(i as int));
                i = i + 1;
            }
            assert(kids.take(children.len() as int) == kids);
        },
        _ => {},
    }
}

/// The values of the `src` attributes of all `img` elements in `nodes`, in
/// document order; an `img` whose `src` has no value contributes nothing.
pub fn image_sources(nodes: &Vec<HtmlNode>) -> (r: Vec<String>)
    ensures
        strings_view(r@) == forest_image_sources(forest_view(nodes@)),
{
    let mut out: Vec<String> = Vec::new();
    let ghost ts = forest_view(nodes@);
    let mut i: usize = 0;
    while i < nodes.len()
        invariant
            0 <= i <= nodes.len(),
            ts == forest_view(nodes@),
            strings_view(out@) == forest_image_sources(ts.take(i as int)),
        decreases nodes.len() - i,
    {
        collect_node_sources(&nodes[i], &mut out);
        assert(ts.take(i + 1).drop_last() == ts.take(i as int));
        i = i + 1;
    }
    assert(ts.take(nodes.len() as int) == ts);
    out
}

/// Converts one node of `html_parser`'s tree into a library node, one for
/// one: text and comments keep their text, an element keeps its tag name, its
/// `src` attribute and (converted the same way) its children.
#[verifier::external_body]
fn node_from_parsed(node: &html_parser::Node) -> HtmlNode {
    match node {
        html_parser::Node::Text(t) => HtmlNode::Text(t.clone()),
        html_parser::Node::Comment(c) => HtmlNode::Comment(c.clone()),
        html_parser::Node::Element(e) => HtmlNode::Element {
            name: e.name.clone(),
            src: e.attributes.get("src").cloned(),
            children: e.children.iter().map(node_from_parsed).collect(),
        },
    }
}

/// The top-level nodes that `html_parser::Dom::parse` yields for a text, as
/// library trees, or `None` where it reports an error.
pub uninterp spec fn parsed_html(html: Seq<char>) -> Option<Seq<HtmlTree>>;

/// `html_parser::Dom::parse`, with the root nodes converted to library nodes.
/// The contract claims only that the outcome is a function of the text: it
/// succeeds exactly when `parsed_html` is `Some`, and then yields those nodes.
/// The parser's grammar is not stated.
#[verifier::external_body]
fn parse_html(html: &str) -> (r: Result<Vec<HtmlNode>, html_parser::Error>)
    ensures
        r is Ok <==> parsed_html(html@) is Some,
        r matches Ok(nodes) ==> parsed_html(html@) == Some(forest_view(nodes@)),
{
    html_parser::Dom::parse(html).map(|dom| dom.children.iter().map(node_from_parsed).collect())
}

/// Errors while fetching and storing the images of a comment.
#[derive(Debug)]
pub enum ImageDownloadError {
    HtmlParseFail(html_parser::Error),
    HttpRequest(isahc::http::Error),
    HttpSend(isahc::Error),
    CreateDir(std::io::Error),
    WriteFail(std::io::Error),
    ReadImg(std::io::Error),
    OpenOutput(std::io::Error),
    DecodePath(std::string::FromUtf8Error),
}

impl ImageDownloadError {
    /// The one-line description of the error.
    pub open spec fn description(&self) -> Seq<char> {
        match self {
            ImageDownloadError::HtmlParseFail(_) => "failed to parse html"@,
            ImageDownloadError::HttpRequest(_) => "failed to generate image download request"@,
            ImageDownloadError::HttpSend(_) => "failed to send image download request"@,
            ImageDownloadError::CreateDir(_) => "failed to create output directory"@,
            ImageDownloadError::WriteFail(_) => "failed to write output image"@,
            ImageDownloadError::ReadImg(_) => "failed to read image"@,
            ImageDownloadError::OpenOutput(_) => "failed to open output file"@,
            ImageDownloadError::DecodePath(_) => "failed to decode url"@,
        }
    }

    /// The one-line description of the error, as text.
    pub fn message(&self) -> (r: String)
        ensures
            r@ == self.description(),
    {
        match self {
            ImageDownloadError::HtmlParseFail(_) => String::from_str("failed to parse html"),
            ImageDownloadError::HttpRequest(_) => String::from_str(
                "failed to generate image download request",
            ),
            ImageDownloadError::HttpSend(_) => String::from_str(
                "failed to send image download request",
            ),
            ImageDownloadError::CreateDir(_) => String::from_str(
                "failed to create output directory",
            ),
            ImageDownloadError::WriteFail(_) => String::from_str("failed to write output image"),
            ImageDownloadError::ReadImg(_) => String::from_str("failed to read image"),
            ImageDownloadError::OpenOutput(_) => String::from_str("failed to open output file"),
            ImageDownloadError::DecodePath(_) => String::from_str("failed to decode url"),
        }
    }
}

/// The image sources in a comment's rendered HTML: `parse_html`, then
/// [`image_sources`] on the nodes it yields.
pub fn html_image_sources(html: &str) -> (r: Result<Vec<String>, ImageDownloadError>)
    ensures
        match r {
            Ok(v) => parsed_html(html@) matches Some(ts) && strings_view(v@)
                == forest_image_sources(ts),
            Err(e) => parsed_html(html@) is None && e is HtmlParseFail,
        },
{
    match parse_html(html) {
        Ok(nodes) => Ok(image_sources(&nodes)),
        Err(e) => Err(ImageDownloadError::HtmlParseFail(e)),
    }
}

/// Where an image on the Jira server is fetched from, and the relative path
/// (still percent-encoded) under which it is stored.
pub struct ImageRequest {
    pub url: String,
    pub path: String,
}

/// Whether a `src` value points at the Jira server itself (it starts with `/`).
pub open spec fn is_server_path(src: Seq<char>) -> bool {
    src.len() > 0 && src[0] == '/'
}

/// The download of an image source: only a source that starts with `/` is
/// fetched; its path is the source without that `/`, and it is fetched from
/// `uri`, a `/`, then that path.
pub fn image_request(uri: &str, src: &str) -> (r: Option<ImageRequest>)
    ensures
        r is Some <==> is_server_path(src@),
        r matches Some(q) ==> q.path@ == src@.drop_first() && q.url@ == uri@ + seq!['/']
            + src@.drop_first(),
{
    let n = src.unicode_len();
    if n == 0 {
        return None;
    }
    if src.get_char(0) != '/' {
        return None;
    }
    let rest = src.substring_char(1, n);
    let mut url = String::from_str(uri);
    push_char(&mut url, '/');
    push_str(&mut url, rest);
    Some(ImageRequest { url, path: String::from_str(rest) })
}

/// The value of a hexadecimal digit byte (`0`-`9`, `A`-`F`, `a`-`f`).
pub open spec fn hex_digit_value(b: u8) -> Option<int> {
    if 48 <= b <= 57 {
        Some(b - 48)
    } else if 65 <= b <= 70 {
        Some(b - 55)
    } else if 97 <= b <= 102 {
        Some(b - 87)
    } else {
        None
    }
}

/// Percent-decoding of bytes: a `%` followed by two hexadecimal digits stands
/// for the byte they spell; every other byte, a `%` without two digits after
/// it included, stands for itself. A `+` is kept.
pub open spec fn percent_decoded_bytes(data: Seq<u8>) -> Seq<u8>
    decreases data.len(),
{
    if data.len() == 0 {
        seq![]
    } else if data[0] == 37 && data.len() >= 3 && hex_digit_value(data[1]) is Some
        && hex_digit_value(data[2]) is Some {
        seq![
            (hex_digit_value(data[1]).unwrap() * 16 + hex_digit_value(data[2]).unwrap()) as u8,
        ] + percent_decoded_bytes(data.skip(3))
    } else {
        seq![data[0]] + percent_decoded_bytes(data.drop_first())
    }
}

/// The text that percent-decoding the UTF-8 bytes of `text` yields, or `None`
/// where the decoded bytes are not UTF-8.
pub open spec fn url_decoded(text: Seq<char>) -> Option<Seq<char>> {
    let bytes = percent_decoded_bytes(encode_utf8(text));
    if valid_utf8(bytes) {
        Some(decode_utf8(bytes))
    } else {
        None
    }
}

/// `urlencoding::decode`, its result taken as an owned `String`: the UTF-8
/// bytes of the text are percent-decoded, then read as UTF-8 again.
#[verifier::external_body]
fn percent_decode(text: &str) -> (r: Result<String, std::string::FromUtf8Error>)
    ensures
        r is Ok <==> url_decoded(text@) is Some,
        r matches Ok(s) ==> url_decoded(text@) == Some(s@),
{
    urlencoding::decode(text).map(|d| d.into_owned())
}

/// The file path an image is stored under: its percent-decoded path.
pub fn decode_image_path(path: &str) -> (r: Result<String, ImageDownloadError>)
    ensures
        match r {
            Ok(s) => url_decoded(path@) == Some(s@),
            Err(e) => url_decoded(path@) is None && e is DecodePath,
        },
{
    match percent_decode(path) {
        Ok(s) => Ok(s),
        Err(e) => Err(ImageDownloadError::DecodePath(e)),
    }
}

}
