//! Web search results: how they are read from a results page, and how they are
//! shown to the language model.
use crate::error::{AppError, AppErrorView};
use crate::handlers::boards::refused;
use crate::text::{
    chars_of, find_from, first_occurrence, numeral, numeral_of, text_of, trim_of, trimmed,
};
use scraper::{Html, Selector};
use vstd::prelude::*;
use vstd::string::*;

verus! {

/// What `urlencoding` makes of a percent-encoded text: the text with every `%` and
/// the two hexadecimal digits behind it replaced by the byte that they name, read
/// as UTF-8. `None` where the bytes are not UTF-8.
pub uninterp spec fn url_decoded(text: Seq<char>) -> Option<Seq<char>>;

/// Calls `urlencoding::decode`. The answer depends on the text alone and is named
/// `url_decoded`; its error is answered with `None`.
#[verifier::external_body]
pub(crate) fn percent_decoded(text: &str) -> (decoded: Option<String>)
    ensures
        match decoded {
            Some(d) => url_decoded(text@) == Some(d@),
            None => url_decoded(text@) is None,
        },
{
    urlencoding::decode(text).ok().map(|d| d.into_owned())
}

/// What `scraper` finds in a page: for each element of the page that matches the
/// selector `outer`, in the order of the document, the text of the first element
/// within it that matches the selector `inner`, or `None` where there is none.
/// Empty where `outer` or `inner` is no selector.
pub uninterp spec fn selected_texts(
    html: Seq<char>,
    outer: Seq<char>,
    inner: Seq<char>,
) -> Seq<Option<Seq<char>>>;

/// What `scraper` finds in a page: for each element of the page that matches the
/// selector `outer`, in the order of the document, the value of the attribute
/// `attr` of the first element within it that matches the selector `inner`, or
/// `None` where there is no such element or it has no such attribute. Empty where
/// `outer` or `inner` is no selector.
pub uninterp spec fn selected_attrs(
    html: Seq<char>,
    outer: Seq<char>,
    inner: Seq<char>,
    attr: Seq<char>,
) -> Seq<Option<Seq<char>>>;

/// The texts of a list of optional texts.
pub open spec fn option_texts(list: Seq<Option<String>>) -> Seq<Option<Seq<char>>> {
    list.map_values(
        |o: Option<String>|
            match o {
                Some(s) => Some(s@),
                None => None,
            },
    )
}

/// Parses the page with `scraper::Html::parse_document` and the selectors with
/// `scraper::Selector::parse`, and collects with `select` and `text` what is named
/// `selected_texts`. The answer depends on the three texts alone.
#[verifier::external_body]
pub(crate) fn texts_in(html: &str, outer: &str, inner: &str) -> (found: Vec<Option<String>>)
    ensures
        option_texts(found@) == selected_texts(html@, outer@, inner@),
{
    let (outer, inner) = match (Selector::parse(outer), Selector::parse(inner)) {
        (Ok(outer), Ok(inner)) => (outer, inner),
        _ => return Vec::new(),
    };
    let page = Html::parse_document(html);
    page.select(&outer).map(|e| e.select(&inner).next().map(|t| t.text().collect())).collect()
}

/// Parses the page with `scraper::Html::parse_document` and the selectors with
/// `scraper::Selector::parse`, and collects with `select` and `attr` what is named
/// `selected_attrs`. The answer depends on the four texts alone.
#[verifier::external_body]
pub(crate) fn attrs_in(html: &str, outer: &str, inner: &str, attr: &str) -> (found: Vec<
    Option<String>,
>)
    ensures
        option_texts(found@) == selected_attrs(html@, outer@, inner@, attr@),
{
    let (outer, inner) = match (Selector::parse(outer), Selector::parse(inner)) {
        (Ok(outer), Ok(inner)) => (outer, inner),
        _ => return Vec::new(),
    };
    let page = Html::parse_document(html);
    page.select(&outer).map(
        |e| e.select(&inner).next().and_then(|t| t.attr(attr)).map(|v| v.to_owned()),
    ).collect()
}

/// A single search result.
#[derive(Clone, Debug, PartialEq, Eq)]
pub struct SearchResult {
    pub title: String,
    pub url: String,
    pub snippet: String,
}

/// What a results page says of one result, as it was found there: the text of its
/// title, the address that the title links to, the text that shows an address,
/// and the text of its snippet.
#[derive(Clone, Debug, PartialEq, Eq)]
pub struct RawResult {
    pub title: String,
    pub href: Option<String>,
    pub url_text: Option<String>,
    pub snippet: String,
}

/// A raw result, its texts taken as sequences of characters.
pub struct Found {
    pub title: Seq<char>,
    pub href: Option<Seq<char>>,
    pub url_text: Option<Seq<char>>,
    pub snippet: Seq<char>,
}

impl View for RawResult {
    type V = Found;

    open spec fn view(&self) -> Found {
        Found {
            title: self.title@,
            href: match self.href {
                Some(h) => Some(h@),
                None => None,
            },
            url_text: match self.url_text {
                Some(t) => Some(t@),
                None => None,
            },
            snippet: self.snippet@,
        }
    }
}

/// What is found of a list of raw results.
pub open spec fn founds(raws: Seq<RawResult>) -> Seq<Found> {
    raws.map_values(|r: RawResult| r@)
}

/// The part of `s` before the first `stop`, or all of it where there is none.
pub open spec fn before_first(s: Seq<char>, stop: Seq<char>) -> Seq<char> {
    match first_occurrence(s, stop, 0) {
        Some(k) => s.subrange(0, k),
        None => s,
    }
}

/// The address that a link of a results page leads to. A link that goes through a
/// redirect carries the address, percent-encoded, in its parameter `uddg`: what
/// stands behind the first `uddg=`, up to the next `uddg=` and up to the next
/// `&`, decoded, or nothing where it cannot be decoded. Any other link is the
/// address.
pub open spec fn target_of(href: Seq<char>) -> Seq<char> {
    match first_occurrence(href, "uddg="@, 0) {
        None => href,
        Some(k) => {
            let rest = href.subrange(k + "uddg="@.len(), href.len() as int);
            match url_decoded(before_first(before_first(rest, "uddg="@), "&"@)) {
                Some(d) => d,
                None => Seq::<char>::empty(),
            }
        },
    }
}

/// The address of a result: that of its link, or else the address that is shown,
/// trimmed, or else nothing.
pub open spec fn address_of(raw: Found) -> Seq<char> {
    match raw.href {
        Some(h) => target_of(h),
        None => match raw.url_text {
            Some(t) => trim_of(t),
            None => Seq::<char>::empty(),
        },
    }
}

/// Whether a result is kept: it needs a title and an address.
pub open spec fn is_kept(raw: Found) -> bool {
    trim_of(raw.title).len() > 0 && address_of(raw).len() > 0
}

/// The result `r` is the result `raw`, cleaned.
pub open spec fn is_cleaned(r: SearchResult, raw: Found) -> bool {
    r.title@ == trim_of(raw.title) && r.url@ == address_of(raw) && r.snippet@ == trim_of(
        raw.snippet,
    )
}

/// Which of the first `n` raw results give a result, where no more than `max`
/// are taken: their indices, in their order.
pub open spec fn kept_indices(raws: Seq<Found>, n: int, max: nat) -> Seq<int>
    decreases n,
{
    if n <= 0 {
        Seq::<int>::empty()
    } else {
        let so_far = kept_indices(raws, n - 1, max);
        if so_far.len() < max && is_kept(raws[n - 1]) {
            so_far.push(n - 1)
        } else {
            so_far
        }
    }
}

/// The result `r` is the result number `i` that the first `n` raw results give.
pub open spec fn is_result(raws: Seq<Found>, n: int, max: nat, i: int, r: SearchResult) -> bool {
    let k = kept_indices(raws, n, max)[i];
    0 <= k < n && is_cleaned(r, raws[k])
}

/// The results `results` are what the raw results `raws` give, where no more than
/// `max` are taken: each raw result that is kept, cleaned, in their order.
pub open spec fn are_results(results: Seq<SearchResult>, raws: Seq<Found>, max: nat) -> bool {
    &&& results.len() == kept_indices(raws, raws.len() as int, max).len()
    &&& results.len() <= max
    &&& forall|i: int|
        0 <= i < results.len() ==> #[trigger] is_result(raws, raws.len() as int, max, i, results[i])
}

/// The longest list that `a`, `b`, `c` and `d` all cover.
pub open spec fn shortest(a: int, b: int, c: int, d: int) -> int {
    let ab = if a < b { a } else { b };
    let cd = if c < d { c } else { d };
    if ab < cd { ab } else { cd }
}

/// What a results page of the search engine says of its results: one raw result
/// for each element of the class `result`, with the text of its link of the class
/// `result__a` as title, the `href` of that link, the text of the element of the
/// class `result__url`, and the text of the element of the class
/// `result__snippet`. A missing title or snippet is empty.
pub open spec fn page_results(html: Seq<char>) -> Seq<Found> {
    let titles = selected_texts(html, ".result"@, ".result__a"@);
    let hrefs = selected_attrs(html, ".result"@, ".result__a"@, "href"@);
    let urls = selected_texts(html, ".result"@, ".result__url"@);
    let snippets = selected_texts(html, ".result"@, ".result__snippet"@);
    Seq::new(
        shortest(
            titles.len() as int,
            hrefs.len() as int,
            urls.len() as int,
            snippets.len() as int,
        ) as nat,
        |k: int|
            Found {
                title: match titles[k] {
                    Some(t) => t,
                    None => Seq::<char>::empty(),
                },
                href: hrefs[k],
                url_text: urls[k],
                snippet: match snippets[k] {
                    Some(t) => t,
                    None => Seq::<char>::empty(),
                },
            },
    )
}

/// Checks a search query: it must say something besides white space.
pub fn validate_query(query: &str) -> (result: Result<(), AppError>)
    ensures
        if trim_of(query@).len() == 0 {
            refused(result, AppErrorView::BadRequest("Search query cannot be empty"@))
        } else {
            result is Ok
        },
{
    if trimmed(query).as_str().unicode_len() == 0 {
        return Err(AppError::BadRequest("Search query cannot be empty".to_owned()));
    }
    Ok(())
}

fn cut_before(s: &Vec<char>, stop: &str) -> (part: Vec<char>)
    ensures
        part@ == before_first(s@, stop@),
{
    let needle = chars_of(stop);
    let end: usize = match find_from(s, &needle, 0) {
        Some(k) => k,
        None => s.len(),
    };
    let mut part: Vec<char> = Vec::new();
    let mut i: usize = 0;
    while i < end
        invariant
            i <= end <= s.len(),
            part@ == s@.subrange(0, i as int),
        decreases end - i,
    {
        part.push(s[i]);
        proof {
            assert(s@.subrange(0, i + 1) =~= s@.subrange(0, i as int).push(s@[i as int]));
        }
        i += 1;
    }
    proof {
        assert(s@.subrange(0, s.len() as int) =~= s@);
    }
    part
}

/// The address that a link of a results page leads to.
pub fn link_target(href: &str) -> (target: String)
    ensures
        target@ == target_of(href@),
{
    let whole = chars_of(href);
    let mark = chars_of("uddg=");
    match find_from(&whole, &mark, 0) {
        None => href.to_owned(),
        Some(k) => {
            let mut rest: Vec<char> = Vec::new();
            let start: usize = k + mark.len();
            let mut i: usize = start;
            while i < whole.len()
                invariant
                    start <= i <= whole.len(),
                    rest@ == whole@.subrange(start as int, i as int),
                decreases whole.len() - i,
            {
                rest.push(whole[i]);
                proof {
                    assert(whole@.subrange(start as int, i + 1) =~= whole@.subrange(
                        start as int,
                        i as int,
                    ).push(whole@[i as int]));
                }
                i += 1;
            }
            let segment = cut_before(&rest, "uddg=");
            let encoded = cut_before(&segment, "&");
            let text = text_of(&encoded);
            match percent_decoded(text.as_str()) {
                Some(d) => d,
                None => String::new(),
            }
        },
    }
}

/// One result of a results page, cleaned: texts are trimmed and the address is the
/// one that the link leads to. A result without a title or without an address is
/// dropped.
pub fn clean_result(raw: &RawResult) -> (cleaned: Option<SearchResult>)
    ensures
        cleaned is Some <==> is_kept(raw@),
        cleaned matches Some(r) ==> is_cleaned(r, raw@),
{
    let title = trimmed(raw.title.as_str());
    let url = match &raw.href {
        Some(h) => link_target(h.as_str()),
        None => match &raw.url_text {
            Some(t) => trimmed(t.as_str()),
            None => String::new(),
        },
    };
    let snippet = trimmed(raw.snippet.as_str());
    if title.as_str().unicode_len() == 0 || url.as_str().unicode_len() == 0 {
        return None;
    }
    Some(SearchResult { title, url, snippet })
}

/// The results of a results page, in their order: each raw result that is kept,
/// cleaned, until `max_results` are there.
pub fn collect_results(raws: &Vec<RawResult>, max_results: usize) -> (results: Vec<SearchResult>)
    ensures
        are_results(results@, founds(raws@), max_results as nat),
{
    let ghost all = founds(raws@);
    let mut results: Vec<SearchResult> = Vec::new();
    let mut n: usize = 0;
    while n < raws.len()
        invariant
            n <= raws.len(),
            all == founds(raws@),
            results.len() == kept_indices(all, n as int, max_results as nat).len(),
            results.len() <= max_results,
            forall|i: int|
                0 <= i < results.len() ==> #[trigger] is_result(
                    all,
                    n as int,
                    max_results as nat,
                    i,
                    results@[i],
                ),
        decreases raws.len() - n,
    {
        let ghost before = results@;
        let ghost picked = kept_indices(all, n as int, max_results as nat);
        proof {
            assert(all[n as int] == raws@[n as int]@);
        }
        if results.len() < max_results {
            match clean_result(&raws[n]) {
                Some(r) => {
                    results.push(r);
                },
                None => {},
            }
        }
        proof {
            let now = kept_indices(all, n + 1, max_results as nat);
            assert forall|i: int| 0 <= i < results.len() implies #[trigger] is_result(
                all,
                n + 1,
                max_results as nat,
                i,
                results@[i],
            ) by {
                if i < before.len() {
                    assert(is_result(all, n as int, max_results as nat, i, before[i]));
                    assert(results@[i] == before[i]);
                    assert(now[i] == picked[i]);
                }
            }
        }
        n += 1;
    }
    results
}

fn or_empty(text: &Option<String>) -> (s: String)
    ensures
        s@ == match text {
            Some(t) => t@,
            None => Seq::<char>::empty(),
        },
{
    match text {
        Some(t) => t.clone(),
        None => String::new(),
    }
}

fn copy_of(text: &Option<String>) -> (o: Option<String>)
    ensures
        o == *text,
{
    match text {
        Some(t) => Some(t.clone()),
        None => None,
    }
}

/// What a results page says of its results, as it stands there.
pub fn raw_results(html: &str) -> (raws: Vec<RawResult>)
    ensures
        founds(raws@) == page_results(html@),
{
    let titles = texts_in(html, ".result", ".result__a");
    let hrefs = attrs_in(html, ".result", ".result__a", "href");
    let urls = texts_in(html, ".result", ".result__url");
    let snippets = texts_in(html, ".result", ".result__snippet");
    let mut n: usize = titles.len();
    if hrefs.len() < n {
        n = hrefs.len();
    }
    if urls.len() < n {
        n = urls.len();
    }
    if snippets.len() < n {
        n = snippets.len();
    }
    let mut raws: Vec<RawResult> = Vec::new();
    let mut k: usize = 0;
    while k < n
        invariant
            k <= n,
            n <= titles.len(),
            n <= hrefs.len(),
            n <= urls.len(),
            n <= snippets.len(),
            raws.len() == k,
            forall|j: int|
                0 <= j < k ==> (#[trigger] raws@[j])@ == (Found {
                    title: match option_texts(titles@)[j] {
                        Some(t) => t,
                        None => Seq::<char>::empty(),
                    },
                    href: option_texts(hrefs@)[j],
                    url_text: option_texts(urls@)[j],
                    snippet: match option_texts(snippets@)[j] {
                        Some(t) => t,
                        None => Seq::<char>::empty(),
                    },
                }),
        decreases n - k,
    {
        raws.push(
            RawResult {
                title: or_empty(&titles[k]),
                href: copy_of(&hrefs[k]),
                url_text: copy_of(&urls[k]),
                snippet: or_empty(&snippets[k]),
            },
        );
        k += 1;
    }
    assert(founds(raws@) =~= page_results(html@));
    raws
}

/// Parse DuckDuckGo HTML search results: the results that the page shows, cleaned,
/// in their order, and no more than `max_results` of them.
pub fn parse_duckduckgo_results(html: &str, max_results: usize) -> (results: Vec<SearchResult>)
    ensures
        are_results(results@, page_results(html@), max_results as nat),
{
    collect_results(&raw_results(html), max_results)
}

/// The lines for the result with the index `i`: its number, which counts from one,
/// with its title, then its address, then its snippet, and an empty line.
pub open spec fn entry_text(i: nat, r: SearchResult) -> Seq<char> {
    numeral_of(i + 1) + ". "@ + r.title@ + "\n   URL: "@ + r.url@ + "\n   "@ + r.snippet@
        + "\n\n"@
}

/// The lines for all results, in their order.
pub open spec fn listing(results: Seq<SearchResult>) -> Seq<char>
    decreases results.len(),
{
    if results.len() == 0 {
        Seq::<char>::empty()
    } else {
        listing(results.drop_last()) + entry_text((results.len() - 1) as nat, results.last())
    }
}

/// Format search results as text for LLM consumption.
pub fn format_search_results(results: &[SearchResult]) -> (output: String)
    ensures
        output@ == if results@.len() == 0 {
            "No search results found."@
        } else {
            listing(results@)
        },
{
    if results.len() == 0 {
        return "No search results found.".to_owned();
    }
    let mut output = String::new();
    let mut i: usize = 0;
    proof {
        assert(results@.take(0) =~= Seq::<SearchResult>::empty());
    }
    while i < results.len()
        invariant
            i <= results.len(),
            output@ == listing(results@.take(i as int)),
        decreases results.len() - i,
    {
        let ghost before = output@;
        let number = numeral(i + 1);
        output.append(number.as_str());
        output.append(". ");
        output.append(results[i].title.as_str());
        output.append("\n   URL: ");
        output.append(results[i].url.as_str());
        output.append("\n   ");
        output.append(results[i].snippet.as_str());
        output.append("\n\n");
        proof {
            assert(results@.take(i + 1).drop_last() =~= results@.take(i as int));
            assert(results@.take(i + 1).last() == results@[i as int]);
            assert(output@ =~= before + entry_text(i as nat, results@[i as int]));
        }
        i += 1;
    }
    proof {
        assert(results@.take(i as int) =~= results@);
    }
    output
}

} // verus!
