//! The recipe source: where to search, and what a page of the site holds.
//!
//! Fetching a page is left to the caller. This module builds the address of
//! a search and reads the pages that come back.

use vstd::prelude::*;
use vstd::string::StringExecFns;
use vstd::utf8::encode_utf8;

verus! {

/// Why the recipe source gave no answer.
#[derive(Clone, Copy, Debug, PartialEq, Eq, Structural)]
pub enum FetchError {
    /// The page could not be requested or did not arrive.
    Request,
    /// The page could not be read.
    Page,
}

/// A recipe that a search found.
#[derive(Clone, Debug, PartialEq, Eq)]
pub struct SearchResult {
    pub title: String,
    pub link: String,
}

/// What a [`SearchResult`] holds, as mathematical values.
pub struct SearchResultData {
    pub title: Seq<char>,
    pub link: Seq<char>,
}

impl View for SearchResult {
    type V = SearchResultData;

    open spec fn view(&self) -> SearchResultData {
        SearchResultData { title: self.title@, link: self.link@ }
    }
}

impl DeepView for SearchResult {
    type V = SearchResultData;

    open spec fn deep_view(&self) -> SearchResultData {
        self@
    }
}

impl SearchResult {
    /// A copy of this result.
    pub fn duplicate(&self) -> (c: SearchResult)
        ensures
            c@ == self@,
    {
        SearchResult { title: self.title.clone(), link: self.link.clone() }
    }
}

/// What the page of a recipe lists.
#[derive(Clone, Debug, PartialEq, Eq)]
pub struct RecipeDetails {
    pub materials: Vec<String>,
    pub steps: Vec<String>,
}

/// What a [`RecipeDetails`] holds, as mathematical values.
pub struct RecipeDetailsData {
    pub materials: Seq<Seq<char>>,
    pub steps: Seq<Seq<char>>,
}

impl View for RecipeDetails {
    type V = RecipeDetailsData;

    open spec fn view(&self) -> RecipeDetailsData {
        RecipeDetailsData { materials: self.materials.deep_view(), steps: self.steps.deep_view() }
    }
}

/// An element of a page, as far as this module reads it: its text, and the
/// value of one attribute if the element has it.
pub type Element = (String, Option<String>);

/// An [`Element`] as mathematical values.
pub type ElementData = (Seq<char>, Option<Seq<char>>);

/// Whether a byte stands for itself in an address: a letter or digit of
/// ASCII, or one of `-`, `.`, `_` and `~`.
pub open spec fn is_unreserved(b: u8) -> bool {
    ||| 0x30 <= b <= 0x39
    ||| 0x41 <= b <= 0x5a
    ||| 0x61 <= b <= 0x7a
    ||| b == 0x2d
    ||| b == 0x2e
    ||| b == 0x5f
    ||| b == 0x7e
}

/// The digit of base 16 for a number below 16, with capital letters.
pub open spec fn hex_digit(d: u8) -> char {
    if d < 10 {
        (0x30 + d) as u8 as char
    } else {
        (0x41 + d - 10) as u8 as char
    }
}

/// A byte as it is written in an address: itself, or `%` and its two digits
/// of base 16.
pub open spec fn escaped(b: u8) -> Seq<char> {
    if is_unreserved(b) {
        seq![b as char]
    } else {
        seq!['%', hex_digit(b / 16), hex_digit(b % 16)]
    }
}

/// Text as it is written in an address: each byte of its UTF-8 form, escaped.
pub open spec fn percent_encoded(text: Seq<char>) -> Seq<char> {
    encode_utf8(text).map_values(|b: u8| escaped(b)).flatten()
}

/// The address of a search, up to the term.
pub open spec fn search_prefix() -> Seq<char> {
    "https://www.nefisyemektarifleri.com/ara/page/1/?s="@
}

/// What `scraper` finds in the page `html`: for each element that the CSS
/// selector `selector` matches, in the order of the page, its text and the
/// value of its attribute `attribute`; or `None` where `selector` is no
/// selector.
pub uninterp spec fn selected(html: Seq<char>, selector: Seq<char>, attribute: Seq<char>) -> Option<Seq<ElementData>>;

/// `urlencoding::encode`: every byte of the UTF-8 form of `text` that is
/// not a letter or digit of ASCII or one of `-`, `.`, `_`, `~` is replaced
/// by `%` and its two digits of base 16, in capitals.
#[verifier::external_body]
fn encode_component(text: &str) -> (encoded: String)
    ensures
        encoded@ == percent_encoded(text@),
{
    urlencoding::encode(text).into_owned()
}

/// `scraper::Selector::parse`, `scraper::Html::parse_document` and
/// `scraper::Html::select`: reads `html` as a page and gives, for each
/// element that `selector` matches, `scraper::ElementRef::text` joined and
/// `scraper::ElementRef::attr` of `attribute`. The answer depends on the
/// three texts alone.
#[verifier::external_body]
fn select(html: &str, selector: &str, attribute: &str) -> (found: Option<Vec<Element>>)
    ensures
        found.deep_view() == selected(html@, selector@, attribute@),
{
    let chosen = scraper::Selector::parse(selector).ok()?;
    let page = scraper::Html::parse_document(html);
    Some(
        page.select(&chosen).map(
            |e| (e.text().collect::<String>(), e.attr(attribute).map(str::to_owned)),
        ).collect(),
    )
}

/// The address at which the site answers a search for `search_term`.
pub fn search_url(search_term: &str) -> (url: String)
    ensures
        url@ == search_prefix() + percent_encoded(search_term@),
{
    let mut url = "https://www.nefisyemektarifleri.com/ara/page/1/?s=".to_owned();
    let term = encode_component(search_term);
    url.append(term.as_str());
    url
}

/// The search result that a link of the page stands for: its text is the
/// title, its target the link, which is empty where the element has none.
pub open spec fn result_of(e: ElementData) -> SearchResultData {
    SearchResultData {
        title: e.0,
        link: match e.1 {
            Some(target) => target,
            None => Seq::empty(),
        },
    }
}

/// The text of an element.
pub open spec fn text_of_element(e: ElementData) -> Seq<char> {
    e.0
}

/// The search results that the elements stand for, in their order.
pub fn results_from(found: Vec<Element>) -> (results: Vec<SearchResult>)
    ensures
        results.deep_view() == found.deep_view().map_values(|e: ElementData| result_of(e)),
{
    let ghost all = found.deep_view();
    let ghost raw = found@;
    let mut results: Vec<SearchResult> = Vec::new();
    for e in it: found.into_iter()
        invariant
            it.seq() == raw,
            all.len() == raw.len(),
            forall|k: int| 0 <= k < raw.len() ==> all[k] == (#[trigger] raw[k]).deep_view(),
            results.len() == it.index(),
            forall|k: int| 0 <= k < results.len() ==> (#[trigger] results[k])@ == result_of(all[k]),
    {
        let link = match e.1 {
            Some(target) => target,
            None => String::new(),
        };
        results.push(SearchResult { title: e.0, link });
    }
    assert(results.deep_view() =~= all.map_values(|e: ElementData| result_of(e)));
    results
}

/// The texts of the elements, in their order.
pub fn texts_from(found: Vec<Element>) -> (texts: Vec<String>)
    ensures
        texts.deep_view() == found.deep_view().map_values(|e: ElementData| text_of_element(e)),
{
    let ghost all = found.deep_view();
    let ghost raw = found@;
    let mut texts: Vec<String> = Vec::new();
    for e in it: found.into_iter()
        invariant
            it.seq() == raw,
            all.len() == raw.len(),
            forall|k: int| 0 <= k < raw.len() ==> all[k] == (#[trigger] raw[k]).deep_view(),
            texts.len() == it.index(),
            forall|k: int| 0 <= k < texts.len() ==> (#[trigger] texts[k])@ == all[k].0,
    {
        texts.push(e.0);
    }
    assert(texts.deep_view() =~= all.map_values(|e: ElementData| text_of_element(e)));
    texts
}

/// The results that the page of a search lists, if the page can be read.
pub open spec fn listed_results(body: Seq<char>) -> Option<Seq<SearchResultData>> {
    match selected(body, "a.title"@, "href"@) {
        Some(found) => Some(found.map_values(|e: ElementData| result_of(e))),
        None => None,
    }
}

/// The texts of the elements of `body` that `selector` matches, if the
/// page can be read.
pub open spec fn listed_texts(body: Seq<char>, selector: Seq<char>) -> Option<Seq<Seq<char>>> {
    match selected(body, selector, "href"@) {
        Some(found) => Some(found.map_values(|e: ElementData| text_of_element(e))),
        None => None,
    }
}

/// The details that the page of a recipe lists, if the page can be read.
pub open spec fn listed_details(body: Seq<char>) -> Option<RecipeDetailsData> {
    match (
        listed_texts(body, "ul.recipe-materials li"@),
        listed_texts(body, "ol.recipe-instructions > li"@),
    ) {
        (Some(materials), Some(steps)) => Some(RecipeDetailsData { materials, steps }),
        _ => None,
    }
}

/// The recipes that the page `body` of a search lists: one for each link of
/// the class `title`, in the order of the page. A page that lists none
/// gives an empty list, which is no error.
pub fn search_results(body: &str) -> (r: Result<Vec<SearchResult>, FetchError>)
    ensures
        match listed_results(body@) {
            Some(results) => r is Ok && r.unwrap().deep_view() == results,
            None => r == Err::<Vec<SearchResult>, FetchError>(FetchError::Page),
        },
{
    match select(body, "a.title", "href") {
        Some(found) => Ok(results_from(found)),
        None => Err(FetchError::Page),
    }
}

/// The texts of the elements of the page `body` that `selector` matches.
fn texts_in(body: &str, selector: &str) -> (r: Option<Vec<String>>)
    ensures
        r.deep_view() == listed_texts(body@, selector@),
{
    match select(body, selector, "href") {
        Some(found) => Some(texts_from(found)),
        None => None,
    }
}

/// The ingredients and the steps that the page `body` of a recipe lists,
/// each in the order of the page.
pub fn recipe_details(body: &str) -> (r: Result<RecipeDetails, FetchError>)
    ensures
        match listed_details(body@) {
            Some(details) => r is Ok && r.unwrap()@ == details,
            None => r == Err::<RecipeDetails, FetchError>(FetchError::Page),
        },
{
    let materials = match texts_in(body, "ul.recipe-materials li") {
        Some(texts) => texts,
        None => {
            return Err(FetchError::Page);
        },
    };
    let steps = match texts_in(body, "ol.recipe-instructions > li") {
        Some(texts) => texts,
        None => {
            return Err(FetchError::Page);
        },
    };
    Ok(RecipeDetails { materials, steps })
}

} // verus!
