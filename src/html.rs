use vstd::prelude::*;

use select::document::Document;
use select::predicate::{And, Class, Name};

use crate::text::strs;

verus! {

pub open spec fn strss(v: Seq<Vec<String>>) -> Seq<Seq<Seq<char>>> {
    v.map_values(|x: Vec<String>| strs(x@))
}

pub open spec fn opts(v: Seq<Option<String>>) -> Seq<Option<Seq<char>>> {
    v.map_values(|o: Option<String>| crate::web_url::opt_view(o))
}

pub open spec fn optss(v: Seq<Vec<Option<String>>>) -> Seq<Seq<Option<Seq<char>>>> {
    v.map_values(|x: Vec<Option<String>>| opts(x@))
}

/// For each `outer` element of the document `html`, the text of each
/// `inner` element within it, in document order.
pub uninterp spec fn html_nested_texts(html: Seq<char>, outer: Seq<char>, inner: Seq<char>) -> Seq<
    Seq<Seq<char>>,
>;

/// For each `outer` element of the document `html`, the value of attribute
/// `attr` of each `inner` element within it, in document order.
pub uninterp spec fn html_nested_attrs(
    html: Seq<char>,
    outer: Seq<char>,
    inner: Seq<char>,
    attr: Seq<char>,
) -> Seq<Seq<Option<Seq<char>>>>;

/// The text of each `tag` element of the document `html` that carries the
/// class `class`, in document order.
pub uninterp spec fn html_class_texts(html: Seq<char>, tag: Seq<char>, class: Seq<char>) -> Seq<
    Seq<char>,
>;

/// The text of each `inner` element within each `tag` element of class
/// `class` of the document `html`, in document order.
pub uninterp spec fn html_class_inner_texts(
    html: Seq<char>,
    tag: Seq<char>,
    class: Seq<char>,
    inner: Seq<char>,
) -> Seq<Seq<char>>;

/// The value of attribute `attr` of each `tag` element of the document
/// `html`, in document order.
pub uninterp spec fn html_tag_attrs(html: Seq<char>, tag: Seq<char>, attr: Seq<char>) -> Seq<
    Option<Seq<char>>,
>;

/// Relies on select's `Document::from`, `find` with `Name`, and
/// `Node::text`.
#[verifier::external_body]
pub(crate) fn nested_texts(html: &str, outer: &str, inner: &str) -> (r: Vec<Vec<String>>)
    ensures
        strss(r@) == html_nested_texts(html@, outer@, inner@),
{
    let document = Document::from(html);
    document.find(Name(outer)).map(|o| o.find(Name(inner)).map(|n| n.text()).collect()).collect()
}

/// Relies on select's `Document::from`, `find` with `Name`, and
/// `Node::attr`.
#[verifier::external_body]
pub(crate) fn nested_attrs(html: &str, outer: &str, inner: &str, attr: &str) -> (r: Vec<
    Vec<Option<String>>,
>)
    ensures
        optss(r@) == html_nested_attrs(html@, outer@, inner@, attr@),
{
    let document = Document::from(html);
    document.find(Name(outer)).map(
        |o| o.find(Name(inner)).map(|n| n.attr(attr).map(|a| a.to_string())).collect(),
    ).collect()
}

/// Relies on select's `Document::from`, `find` with `Name` and `Class`, and
/// `Node::text`.
#[verifier::external_body]
pub(crate) fn class_texts(html: &str, tag: &str, class: &str) -> (r: Vec<String>)
    ensures
        strs(r@) == html_class_texts(html@, tag@, class@),
{
    let document = Document::from(html);
    document.find(And(Name(tag), Class(class))).map(|n| n.text()).collect()
}

/// Relies on select's `Document::from`, `find` with `Name` and `Class`, and
/// `Node::text`.
#[verifier::external_body]
pub(crate) fn class_inner_texts(html: &str, tag: &str, class: &str, inner: &str) -> (r: Vec<
    String,
>)
    ensures
        strs(r@) == html_class_inner_texts(html@, tag@, class@, inner@),
{
    let document = Document::from(html);
    document.find(And(Name(tag), Class(class))).flat_map(
        |n| n.find(Name(inner)).map(|p| p.text()).collect::<Vec<_>>(),
    ).collect()
}

/// Relies on select's `Document::from`, `find` with `Name`, and
/// `Node::attr`.
#[verifier::external_body]
pub(crate) fn tag_attrs(html: &str, tag: &str, attr: &str) -> (r: Vec<Option<String>>)
    ensures
        opts(r@) == html_tag_attrs(html@, tag@, attr@),
{
    let document = Document::from(html);
    document.find(Name(tag)).map(|n| n.attr(attr).map(|a| a.to_string())).collect()
}

} // verus!
