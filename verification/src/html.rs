//! What the library reads from HTML pages, held as plain values, and the
//! calls into the HTML, entity and regular-expression crates that produce them.
use vstd::prelude::*;
use crate::text::{without_char, remove_all};
use scraper::{ElementRef, Html, Selector};

verus! {

/// What the library reads of one HTML element.
pub struct ElementData {
    /// The element's HTML, the element itself included.
    pub html: String,
    /// The HTML of the element's children.
    pub inner_html: String,
    /// The element's descendant text nodes, in tree order.
    pub texts: Vec<String>,
    /// The value of the attribute that the selection asked for, if the element has it.
    pub attr: Option<String>,
}

/// An element's data as plain values.
pub struct ElementView {
    pub html: Seq<char>,
    pub inner_html: Seq<char>,
    pub texts: Seq<Seq<char>>,
    pub attr: Option<Seq<char>>,
}

impl DeepView for ElementData {
    type V = ElementView;

    open spec fn deep_view(&self) -> ElementView {
        ElementView {
            html: self.html@,
            inner_html: self.inner_html@,
            texts: self.texts.deep_view(),
            attr: self.attr.deep_view(),
        }
    }
}

/// A result whose error is a message, as plain values.
pub open spec fn result_view<T: DeepView>(r: Result<T, String>) -> Result<T::V, Seq<char>> {
    match r {
        Ok(v) => Ok(v.deep_view()),
        Err(e) => Err(e@),
    }
}

/// What selecting in the document `html` gives: for each element matching the
/// CSS selector `outer`, in the order the parsed tree stores its nodes (document
/// order, except where the parser moved misplaced content), and for each selector of `inners`,
/// the descendants of that element that match it; or the message of the
/// error of a selector that does not parse.
pub uninterp spec fn document_groups(
    html: Seq<char>,
    outer: Seq<char>,
    inners: Seq<Seq<char>>,
    attr: Seq<char>,
) -> Result<Seq<Seq<Seq<ElementView>>>, Seq<char>>;

/// What selecting in the fragment `html` gives: the elements matching the CSS
/// selector, in the order the parsed tree stores its nodes; or the message of the
/// selector's parse error.
pub uninterp spec fn fragment_selection(html: Seq<char>, selector: Seq<char>, attr: Seq<char>) -> Result<
    Seq<ElementView>,
    Seq<char>,
>;

/// What the regular expression `pattern` captures in `haystack`: `None` when it
/// does not match, else every group in order (group 0 the whole match), `None`
/// for a group that took no part; or the message of the pattern's compile error.
pub uninterp spec fn regex_captures(pattern: Seq<char>, haystack: Seq<char>) -> Result<
    Option<Seq<Option<Seq<char>>>>,
    Seq<char>,
>;

/// `s` with its HTML character references decoded.
pub uninterp spec fn decoded_entities(s: Seq<char>) -> Seq<char>;

/// Parses `html` as a document with `Html::parse_document`, and for
/// each element matching `outer` (`Html::select`) gives, per selector of
/// `inners`, the descendants matching it (`ElementRef::select`), each read
/// with `html`, `inner_html`, `text` and `attr(attr)`. A selector that
/// `Selector::parse` refuses gives its error's message. Claimed: the result is
/// `document_groups` of the arguments, with one list per inner selector.
#[verifier::external_body]
pub(crate) fn select_groups(html: &str, outer: &str, inners: &Vec<&str>, attr: &str) -> (r: Result<
    Vec<Vec<Vec<ElementData>>>,
    String,
>)
    ensures
        result_view(r) == document_groups(html@, outer@, inners.deep_view(), attr@),
        r matches Ok(v) ==> forall|i: int| 0 <= i < v.len() ==> #[trigger] v[i].len() == inners.len(),
{
    let parse = |s: &str| Selector::parse(s).map_err(|e| e.to_string());
    let (outer_sel, sels) = (parse(outer)?, inners.iter().map(|s| parse(s)).collect::<Result<Vec<_>, _>>()?);
    let data = |e: ElementRef| ElementData { html: e.html(), inner_html: e.inner_html(), texts: e.text().map(String::from).collect(), attr: e.attr(attr).map(String::from) };
    Ok(Html::parse_document(html).select(&outer_sel).map(|o| sels.iter().map(|s| o.select(s).map(data).collect()).collect()).collect())
}

/// Parses `html` as a fragment with `Html::parse_fragment` and gives
/// the elements matching `selector` (`Html::select`), each read with `html`,
/// `inner_html`, `text` and `attr(attr)`; or the message of the error of
/// `Selector::parse`. Claimed: the result is `fragment_selection` of the arguments.
#[verifier::external_body]
pub(crate) fn select_fragment(html: &str, selector: &str, attr: &str) -> (r: Result<Vec<ElementData>, String>)
    ensures
        result_view(r) == fragment_selection(html@, selector@, attr@),
{
    let sel = Selector::parse(selector).map_err(|e| e.to_string())?;
    let doc = Html::parse_fragment(html);
    let data = |e: ElementRef| ElementData { html: e.html(), inner_html: e.inner_html(), texts: e.text().map(String::from).collect(), attr: e.attr(attr).map(String::from) };
    Ok(doc.select(&sel).map(data).collect())
}

/// Compiles `pattern` with `regex::Regex::new` and matches it on `haystack`
/// with `Regex::captures`, giving each group's text (`Captures::iter`), or the
/// compile error's message. Claimed: the result is `regex_captures` of the arguments.
#[verifier::external_body]
pub(crate) fn captures(pattern: &str, haystack: &str) -> (r: Result<Option<Vec<Option<String>>>, String>)
    ensures
        result_view(r) == regex_captures(pattern@, haystack@),
{
    let re = regex::Regex::new(pattern).map_err(|e| e.to_string())?;
    Ok(re.captures(haystack).map(|c| c.iter().map(|m| m.map(|m| m.as_str().to_string())).collect()))
}

/// `html_escape::decode_html_entities`. Claimed: the result is `decoded_entities(s)`.
#[verifier::external_body]
pub(crate) fn decode_entities(s: &str) -> (r: String)
    ensures
        r@ == decoded_entities(s@),
{
    html_escape::decode_html_entities(s).into_owned()
}

/// The text of an HTML fragment as the pages show it: entities decoded and
/// no-break spaces dropped.
pub open spec fn fixed_html(s: Seq<char>) -> Seq<char> {
    without_char(decoded_entities(s), '\u{A0}')
}

/// Decodes HTML entities in `s` and removes every no-break space.
pub fn fix_html(s: &str) -> (r: String)
    ensures
        r@ == fixed_html(s@),
{
    let d = decode_entities(s);
    remove_all(d.as_str(), '\u{A0}')
}

} // verus!
