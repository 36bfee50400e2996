//! Reading the content items of a course page.
use vstd::prelude::*;
use crate::html::{
    ElementData, ElementView, document_groups, fragment_selection, regex_captures, fixed_html,
    select_groups, select_fragment, captures, fix_html,
};
use crate::text::{trim, remove_first, trim_str, remove_first_char};
use super::error::{Error, ErrorView};
use super::models::content::{
    Content, ContentView, ContentBuilder, ContentType, content_type_from_label,
};
use super::models::course::Course;
use super::Parsable;

verus! {

broadcast use vstd::string::group_string_axioms;

/// The content cards of a course page.
pub const CONTENT_SELECTOR: &'static str = ".card.weeksdata .card.mb-4";

/// A card's heading: its title and, in its text, the item's type.
pub const FULL_TITLE_SELECTOR: &'static str = ".card-body > div[id^=\"content\"]";

/// A card's description, right after its heading.
pub const DESCRIPTION_SELECTOR: &'static str = ".card-body > div[id^=\"content\"] + div";

/// The title within a card's heading.
pub const TITLE_SELECTOR: &'static str = "strong";

/// A card's download button.
pub const LINK_SELECTOR: &'static str = ".card-body a.btn.btn-primary.contentbtn#download";

/// A numbered title, `<number> - <title>`; group 1 is the title.
pub const TITLE_PATTERN: &'static str = r"^\d+\s*-\s*(.+)$";

/// The attribute that holds a download link.
pub const LINK_ATTRIBUTE: &'static str = "href";

/// The type label within a heading's type text: `(Lecture Slides)` gives
/// `Lecture Slides`. The text is trimmed, its first `(` dropped, trimmed
/// again, its first `)` (wherever it stands) dropped, and trimmed once more.
pub open spec fn type_label(raw: Seq<char>) -> Seq<char> {
    trim(remove_first(trim(remove_first(trim(raw), '(')), ')'))
}

/// The content item that a card gives, from what was read of it: the captures
/// of the title pattern, the heading's type text, the description's first text
/// and the download button's link. There is an item exactly when the title
/// pattern matched with a title and the heading has a type text.
pub open spec fn content_spec(
    caps: Option<Seq<Option<Seq<char>>>>,
    raw_type: Option<Seq<char>>,
    description: Option<Seq<char>>,
    link: Option<Seq<char>>,
) -> Option<ContentView> {
    match caps {
        Some(groups) => if groups.len() > 1 && groups[1] is Some && raw_type is Some {
            Some(
                ContentView {
                    title: groups[1]->0,
                    content_type: content_type_from_label(type_label(raw_type->0)),
                    description: match description {
                        Some(d) => if d.len() > 0 {
                            Some(d)
                        } else {
                            None
                        },
                        None => None,
                    },
                    download_link: match link {
                        Some(l) => if l.len() > 0 {
                            Some(trim(l))
                        } else {
                            None
                        },
                        None => None,
                    },
                },
            )
        } else {
            None
        },
        None => None,
    }
}

/// Builds the content item of a card from what was read of it.
pub fn content_from_parts(
    caps: Option<Vec<Option<String>>>,
    raw_type: Option<String>,
    description: Option<String>,
    link: Option<String>,
) -> (r: Option<Content>)
    ensures
        match r {
            Some(c) => content_spec(caps.deep_view(), raw_type.deep_view(), description.deep_view(), link.deep_view()) == Some(c@),
            None => content_spec(caps.deep_view(), raw_type.deep_view(), description.deep_view(), link.deep_view()) is None,
        },
{
    let groups = match caps {
        Some(g) => g,
        None => return None,
    };
    if groups.len() <= 1 {
        return None;
    }
    let title = match &groups[1] {
        Some(t) => t.clone(),
        None => return None,
    };
    let raw = match raw_type {
        Some(r) => r,
        None => return None,
    };
    let t1 = trim_str(raw.as_str());
    let t2 = remove_first_char(t1.as_str(), '(');
    let t3 = trim_str(t2.as_str());
    let t4 = remove_first_char(t3.as_str(), ')');
    let t5 = trim_str(t4.as_str());
    let content_type = ContentType::from_label(t5.as_str());
    let mut builder = ContentBuilder::new(title, content_type);
    match description {
        Some(d) => {
            if !d.as_str().is_empty() {
                builder.description(d);
            }
        },
        None => {},
    }
    match link {
        Some(l) => {
            if !l.as_str().is_empty() {
                let trimmed = trim_str(l.as_str());
                builder.download_link(trimmed);
            }
        },
        None => {},
    }
    let c = builder.build();
    assert(content_spec(caps.deep_view(), raw_type.deep_view(), description.deep_view(), link.deep_view()) == Some(c@));
    Some(c)
}

/// The `i`th list of a group, empty when there is none.
pub open spec fn list_at(group: Seq<Seq<ElementView>>, i: int) -> Seq<ElementView> {
    if 0 <= i < group.len() {
        group[i]
    } else {
        Seq::empty()
    }
}

/// The first text of the first element of a list.
pub open spec fn first_text(list: Seq<ElementView>) -> Option<Seq<char>> {
    if list.len() > 0 && list[0].texts.len() > 0 {
        Some(list[0].texts[0])
    } else {
        None
    }
}

/// The attribute value of the first element of a list.
pub open spec fn first_attr(list: Seq<ElementView>) -> Option<Seq<char>> {
    if list.len() > 0 {
        list[0].attr
    } else {
        None
    }
}

/// The second text of an element.
pub open spec fn second_text(e: ElementView) -> Option<Seq<char>> {
    if e.texts.len() > 1 {
        Some(e.texts[1])
    } else {
        None
    }
}

/// What a card gives, from its headings, descriptions and download buttons:
/// nothing without a heading or without a title in the first heading, else
/// the item that `content_spec` gives from the title captures, the first
/// heading's second text, the first description's first text and the first
/// button's link.
pub open spec fn card_content(group: Seq<Seq<ElementView>>) -> Result<Option<ContentView>, ErrorView> {
    let headings = list_at(group, 0);
    if headings.len() == 0 {
        Ok(None)
    } else {
        match fragment_selection(headings[0].html, TITLE_SELECTOR@, LINK_ATTRIBUTE@) {
            Err(m) => Err(ErrorView::Selector(m)),
            Ok(titles) => if titles.len() == 0 {
                Ok(None)
            } else {
                match regex_captures(TITLE_PATTERN@, fixed_html(titles[0].inner_html)) {
                    Err(m) => Err(ErrorView::Regex(m)),
                    Ok(caps) => Ok(
                        content_spec(
                            caps,
                            second_text(headings[0]),
                            first_text(list_at(group, 1)),
                            first_attr(list_at(group, 2)),
                        ),
                    ),
                }
            },
        }
    }
}

/// The items of a sequence of cards, in order, or the first card's error.
pub open spec fn cards_contents(groups: Seq<Seq<Seq<ElementView>>>) -> Result<Seq<ContentView>, ErrorView>
    decreases groups.len(),
{
    if groups.len() == 0 {
        Ok(Seq::empty())
    } else {
        match cards_contents(groups.drop_last()) {
            Err(e) => Err(e),
            Ok(items) => match card_content(groups.last()) {
                Err(e) => Err(e),
                Ok(None) => Ok(items),
                Ok(Some(c)) => Ok(items.push(c)),
            },
        }
    }
}

/// The content items of the course page `html`.
pub open spec fn page_contents(html: Seq<char>) -> Result<Seq<ContentView>, ErrorView> {
    match document_groups(
        html,
        CONTENT_SELECTOR@,
        seq![FULL_TITLE_SELECTOR@, DESCRIPTION_SELECTOR@, LINK_SELECTOR@],
        LINK_ATTRIBUTE@,
    ) {
        Err(m) => Err(ErrorView::Selector(m)),
        Ok(groups) => cards_contents(groups),
    }
}

/// The contents as plain values.
pub open spec fn contents_view(v: Seq<Content>) -> Seq<ContentView> {
    v.map_values(|c: Content| c@)
}

fn first_text_of(list: &Vec<ElementData>) -> (r: Option<String>)
    ensures
        r.deep_view() == first_text(list.deep_view()),
{
    if list.len() > 0 && list[0].texts.len() > 0 {
        Some(list[0].texts[0].clone())
    } else {
        None
    }
}

fn first_attr_of(list: &Vec<ElementData>) -> (r: Option<String>)
    ensures
        r.deep_view() == first_attr(list.deep_view()),
{
    if list.len() > 0 {
        match &list[0].attr {
            Some(a) => Some(a.clone()),
            None => None,
        }
    } else {
        None
    }
}

/// The item of one card, from its lists of headings, descriptions and buttons.
fn card_item(group: &Vec<Vec<ElementData>>) -> (r: Result<Option<Content>, Error>)
    requires
        group.len() == 3,
    ensures
        match r {
            Ok(Some(c)) => card_content(group.deep_view()) == Ok::<Option<ContentView>, ErrorView>(Some(c@)),
            Ok(None) => card_content(group.deep_view()) == Ok::<Option<ContentView>, ErrorView>(None),
            Err(e) => card_content(group.deep_view()) == Err::<Option<ContentView>, ErrorView>(e@),
        },
{
    let ghost g = group.deep_view();
    assert(list_at(g, 0) == group[0].deep_view());
    assert(list_at(g, 1) == group[1].deep_view());
    assert(list_at(g, 2) == group[2].deep_view());
    let headings = &group[0];
    if headings.len() == 0 {
        return Ok(None);
    }
    let heading = &headings[0];
    let titles = match select_fragment(heading.html.as_str(), TITLE_SELECTOR, LINK_ATTRIBUTE) {
        Ok(t) => t,
        Err(m) => return Err(Error::Selector(m)),
    };
    if titles.len() == 0 {
        return Ok(None);
    }
    let title = fix_html(titles[0].inner_html.as_str());
    let caps = match captures(TITLE_PATTERN, title.as_str()) {
        Ok(c) => c,
        Err(m) => return Err(Error::Regex(m)),
    };
    let raw_type = if heading.texts.len() > 1 {
        Some(heading.texts[1].clone())
    } else {
        None
    };
    let description = first_text_of(&group[1]);
    let link = first_attr_of(&group[2]);
    Ok(content_from_parts(caps, raw_type, description, link))
}

impl Parsable<Vec<Content>> for Course {
    /// Reads the content items of this course's page `html`, in page order.
    fn parse(&self, html: &str) -> (r: Result<Vec<Content>, Error>)
        ensures
            match r {
                Ok(v) => page_contents(html@) == Ok::<Seq<ContentView>, ErrorView>(contents_view(v@)),
                Err(e) => page_contents(html@) == Err::<Seq<ContentView>, ErrorView>(e@),
            },
    {
        parse_contents(html)
    }
}

proof fn lemma_cards_error_stays(gs: Seq<Seq<Seq<ElementView>>>, n: int)
    requires
        0 <= n <= gs.len(),
        cards_contents(gs.take(n)) is Err,
    ensures
        cards_contents(gs) == cards_contents(gs.take(n)),
    decreases gs.len() - n,
{
    if n < gs.len() {
        assert(gs.take(n + 1).drop_last() == gs.take(n));
        lemma_cards_error_stays(gs, n + 1);
    } else {
        assert(gs.take(n) == gs);
    }
}

/// Reads the content items of the course page `html`, in page order.
pub fn parse_contents(html: &str) -> (r: Result<Vec<Content>, Error>)
    ensures
        match r {
            Ok(v) => page_contents(html@) == Ok::<Seq<ContentView>, ErrorView>(contents_view(v@)),
            Err(e) => page_contents(html@) == Err::<Seq<ContentView>, ErrorView>(e@),
        },
{
    let inners = vec![FULL_TITLE_SELECTOR, DESCRIPTION_SELECTOR, LINK_SELECTOR];
    assert(inners.deep_view() =~= seq![FULL_TITLE_SELECTOR@, DESCRIPTION_SELECTOR@, LINK_SELECTOR@]);
    let groups = match select_groups(html, CONTENT_SELECTOR, &inners, LINK_ATTRIBUTE) {
        Ok(g) => g,
        Err(m) => return Err(Error::Selector(m)),
    };
    let ghost gs = groups.deep_view();
    let mut out: Vec<Content> = Vec::new();
    let mut i: usize = 0;
    assert(gs.take(0) =~= Seq::<Seq<Seq<ElementView>>>::empty());
    assert(contents_view(out@) =~= Seq::<ContentView>::empty());
    while i < groups.len()
        invariant
            i <= groups.len(),
            gs == groups.deep_view(),
            forall|k: int| 0 <= k < groups.len() ==> #[trigger] groups[k].len() == 3,
            page_contents(html@) == cards_contents(gs),
            cards_contents(gs.take(i as int)) == Ok::<Seq<ContentView>, ErrorView>(contents_view(out@)),
        decreases groups.len() - i,
    {
        assert(gs.take(i + 1).drop_last() == gs.take(i as int));
        assert(gs.take(i + 1).last() == groups[i as int].deep_view());
        match card_item(&groups[i]) {
            Err(e) => {
                proof { lemma_cards_error_stays(gs, i as int + 1); }
                return Err(e);
            },
            Ok(None) => {},
            Ok(Some(c)) => {
                let ghost prev = out@;
                out.push(c);
                assert(contents_view(out@) =~= contents_view(prev).push(c@));
            },
        }
        i += 1;
    }
    assert(gs.take(groups.len() as int) == gs);
    Ok(out)
}

} // verus!
