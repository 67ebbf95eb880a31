//! Pages: the elements that a selector picks from a document, and the body of
//! a chapter made from them.

use crate::models::opt_view;
use crate::text::{all_whitespace, is_blank, same_text};
use vstd::prelude::*;
use vstd::string::*;

verus! {

/// What went wrong with a page.
#[derive(Debug)]
pub enum PageError {
    /// The page does not hold what was looked for; the text says what.
    WebParse(String),
}

/// What the providers read of an element: its `id`, one more attribute, its
/// text nodes, its markup, and the text nodes of the element that follows it
/// under the same parent.
#[derive(Debug)]
pub struct HtmlElement {
    pub id: Option<String>,
    pub attribute: Option<String>,
    pub texts: Vec<String>,
    pub html: String,
    pub next_texts: Option<Vec<String>>,
}

/// The characters of each string.
pub open spec fn texts_view(texts: Vec<String>) -> Seq<Seq<char>> {
    texts@.map_values(|text: String| text@)
}

/// The mathematical value of an `HtmlElement`.
pub struct HtmlElementView {
    pub id: Option<Seq<char>>,
    pub attribute: Option<Seq<char>>,
    pub texts: Seq<Seq<char>>,
    pub html: Seq<char>,
    pub next_texts: Option<Seq<Seq<char>>>,
}

impl View for HtmlElement {
    type V = HtmlElementView;

    open spec fn view(&self) -> HtmlElementView {
        HtmlElementView {
            id: opt_view(self.id),
            attribute: opt_view(self.attribute),
            texts: texts_view(self.texts),
            html: self.html@,
            next_texts: match self.next_texts {
                Some(texts) => Some(texts_view(texts)),
                None => None,
            },
        }
    }
}

/// The value of each element.
pub open spec fn elements_view(elements: Vec<HtmlElement>) -> Seq<HtmlElementView> {
    elements@.map_values(|element: HtmlElement| element@)
}

/// The elements of an HTML document that a CSS selector matches, in the
/// order in which the parser's `select` yields them, each with the value of
/// the attribute `attribute`; `None` where the selector is not well formed.
pub uninterp spec fn selected(
    document: Seq<char>,
    selector: Seq<char>,
    attribute: Seq<char>,
) -> Option<Seq<HtmlElementView>>;

/// Picks elements from a document. Trusted: `scraper::Selector::parse`,
/// `scraper::Html::parse_document` and `Html::select`, with `id`, `attr`,
/// `text`, `html` and `next_sibling_element` read off each element. The
/// outcome depends on the three texts alone.
#[verifier::external_body]
pub(crate) fn select(document: &str, selector: &str, attribute: &str) -> (found: Option<
    Vec<HtmlElement>,
>)
    ensures
        match found {
            Some(elements) => selected(document@, selector@, attribute@) == Some(
                elements_view(elements),
            ),
            None => selected(document@, selector@, attribute@) is None,
        },
{
    let selector = scraper::Selector::parse(selector).ok()?;
    let html = scraper::Html::parse_document(document);
    let texts_of = |e: scraper::ElementRef| e.text().map(String::from).collect::<Vec<String>>();
    let found = html.select(&selector).map(|e| HtmlElement {
        id: e.value().id().map(String::from),
        attribute: e.value().attr(attribute).map(String::from),
        texts: texts_of(e),
        html: e.html(),
        next_texts: scraper::Element::next_sibling_element(&e).map(texts_of),
    }).collect();
    Some(found)
}

/// One of `texts` is `wanted`.
pub open spec fn has_text(texts: Seq<Seq<char>>, wanted: Seq<char>) -> bool {
    exists|k: int| 0 <= k < texts.len() && #[trigger] texts[k] == wanted
}

/// A link to the next or the previous chapter.
pub open spec fn is_navigation(element: HtmlElementView) -> bool {
    has_text(element.texts, "Next Chapter"@) || has_text(element.texts, "Previous Chapter"@)
}

/// The container of the sharing buttons.
pub open spec fn is_flair(element: HtmlElementView) -> bool {
    element.id == Some("jp-post-flair"@)
}

/// The texts one after another.
pub open spec fn concatenated(texts: Seq<Seq<char>>) -> Seq<char>
    decreases texts.len(),
{
    if texts.len() == 0 {
        Seq::empty()
    } else {
        concatenated(texts.drop_last()) + texts.last()
    }
}

/// The markup of the elements that belong to a chapter's body, with a line
/// break between one and the next: all but navigation links and the sharing
/// buttons.
pub open spec fn body_markup(elements: Seq<HtmlElementView>) -> Seq<char>
    decreases elements.len(),
{
    if elements.len() == 0 {
        Seq::empty()
    } else {
        let last = elements.last();
        let before = body_markup(elements.drop_last());
        if is_flair(last) || is_navigation(last) {
            before
        } else if kept_count(elements.drop_last()) == 0 {
            last.html
        } else {
            before + "\n"@ + last.html
        }
    }
}

/// The number of elements that belong to a chapter's body.
pub open spec fn kept_count(elements: Seq<HtmlElementView>) -> nat
    decreases elements.len(),
{
    if elements.len() == 0 {
        0
    } else if is_flair(elements.last()) || is_navigation(elements.last()) {
        kept_count(elements.drop_last())
    } else {
        kept_count(elements.drop_last()) + 1
    }
}

/// Whether one of `texts` is `wanted`.
pub fn holds_text(texts: &Vec<String>, wanted: &str) -> (found: bool)
    ensures
        found == has_text(texts_view(*texts), wanted@),
{
    let mut i: usize = 0;
    while i < texts.len()
        invariant
            i <= texts.len(),
            forall|k: int| 0 <= k < i ==> (#[trigger] texts_view(*texts)[k]) != wanted@,
        decreases texts.len() - i,
    {
        assert(texts_view(*texts)[i as int] == texts@[i as int]@);
        if same_text(texts[i].as_str(), wanted) {
            return true;
        }
        i = i + 1;
    }
    false
}

/// The strings one after another.
pub fn concatenate_texts(texts: &Vec<String>) -> (whole: String)
    ensures
        whole@ == concatenated(texts_view(*texts)),
{
    let mut whole = String::new();
    let mut i: usize = 0;
    assert(texts_view(*texts).take(0) == Seq::<Seq<char>>::empty());
    while i < texts.len()
        invariant
            i <= texts.len(),
            whole@ == concatenated(texts_view(*texts).take(i as int)),
        decreases texts.len() - i,
    {
        assert(texts_view(*texts).take(i + 1).drop_last() == texts_view(*texts).take(i as int));
        assert(texts_view(*texts)[i as int] == texts@[i as int]@);
        whole.append(texts[i].as_str());
        i = i + 1;
    }
    assert(texts_view(*texts).take(texts.len() as int) == texts_view(*texts));
    whole
}

/// Whether an element belongs to a chapter's body.
pub fn belongs_to_body(element: &HtmlElement) -> (kept: bool)
    ensures
        kept == !(is_flair(element@) || is_navigation(element@)),
{
    let flair = match &element.id {
        Some(id) => same_text(id.as_str(), "jp-post-flair"),
        None => false,
    };
    !flair && !holds_text(&element.texts, "Next Chapter") && !holds_text(
        &element.texts,
        "Previous Chapter",
    )
}

/// The markup of the elements that belong to a chapter's body, a line break
/// between one and the next.
pub fn markup_of_body(elements: &Vec<HtmlElement>) -> (markup: String)
    ensures
        markup@ == body_markup(elements_view(*elements)),
{
    let mut markup = String::new();
    let mut kept: usize = 0;
    let mut i: usize = 0;
    let ghost views = elements_view(*elements);
    assert(views.take(0) == Seq::<HtmlElementView>::empty());
    while i < elements.len()
        invariant
            i <= elements.len(),
            views == elements_view(*elements),
            kept <= i,
            kept == kept_count(views.take(i as int)),
            markup@ == body_markup(views.take(i as int)),
        decreases elements.len() - i,
    {
        assert(views.take(i + 1).drop_last() == views.take(i as int));
        assert(views.take(i + 1).last() == views[i as int]);
        let element = &elements[i];
        assert(views[i as int] == element@);
        if belongs_to_body(element) {
            let ghost before = markup@;
            if kept > 0 {
                markup.append("\n");
                markup.append(element.html.as_str());
                assert(markup@ == before + "\n"@ + element.html@);
            } else {
                markup = element.html.clone();
            }
            kept = kept + 1;
        }
        i = i + 1;
    }
    assert(views.take(elements.len() as int) == views);
    markup
}

/// The body of a chapter, from the elements under the `entry-content`
/// container of its page: their markup, a line break between one and the
/// next, without the links to the next and previous chapter and without the
/// sharing buttons. A body that is empty or white space throughout is an
/// error.
pub fn chapter_body(elements: &Vec<HtmlElement>) -> (body: Result<String, PageError>)
    ensures
        match body {
            Ok(markup) => markup@ == body_markup(elements_view(*elements)) && !all_whitespace(
                markup@,
            ),
            Err(PageError::WebParse(text)) => all_whitespace(
                body_markup(elements_view(*elements)),
            ) && text@ == "Failed to find chapter body."@,
        },
{
    let markup = markup_of_body(elements);
    if is_blank(markup.as_str()) {
        Err(PageError::WebParse(String::from_str("Failed to find chapter body.")))
    } else {
        Ok(markup)
    }
}

/// The selector of the elements that make up a chapter's body on a page of
/// the WordPress family.
pub open spec fn entry_content() -> Seq<char> {
    "div.entry-content > *"@
}

/// `body` is the body made from `elements`, or the error that says there is
/// none.
pub open spec fn all_blank_or_body(
    body: Result<String, PageError>,
    elements: Option<Seq<HtmlElementView>>,
) -> bool {
    match elements {
        Some(elements) => match body {
            Ok(markup) => markup@ == body_markup(elements) && !all_whitespace(markup@),
            Err(PageError::WebParse(text)) => all_whitespace(body_markup(elements)) && text@
                == "Failed to find chapter body."@,
        },
        None => body is Err,
    }
}

/// The body of the chapter on a page of the WordPress family.
pub fn get_chapter_body(page: &str) -> (body: Result<String, PageError>)
    ensures
        all_blank_or_body(body, selected(page@, entry_content(), "id"@)),
{
    match select(page, "div.entry-content > *", "id") {
        Some(elements) => chapter_body(&elements),
        None => Err(PageError::WebParse(String::from_str("Failed to find chapter body."))),
    }
}

/// The text of the first element, its text nodes put together and trimmed;
/// `None` where there is no element.
pub open spec fn first_text(elements: Seq<HtmlElementView>) -> Option<Seq<char>> {
    if elements.len() == 0 {
        None
    } else {
        Some(crate::text::trimmed(concatenated(elements[0].texts)))
    }
}

/// The text of the first of `elements`, trimmed.
pub fn text_of_first(elements: &Vec<HtmlElement>) -> (text: Option<String>)
    ensures
        match text {
            Some(t) => first_text(elements_view(*elements)) == Some(t@),
            None => first_text(elements_view(*elements)) is None,
        },
{
    if elements.len() == 0 {
        return None;
    }
    assert(elements_view(*elements)[0] == elements@[0]@);
    let whole = concatenate_texts(&elements[0].texts);
    let chars = crate::text::chars_of(whole.as_str());
    let kept = crate::text::trim(&chars);
    Some(crate::text::string_of(&kept))
}

} // verus!
