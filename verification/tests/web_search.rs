use personal_os::services::web_search::{format_search_results, SearchResult};

#[test]
fn test_format_search_results_empty() {
    let results: Vec<SearchResult> = vec![];
    assert_eq!(format_search_results(&results), "No search results found.");
}

#[test]
fn test_format_search_results() {
    let results = vec![SearchResult {
        title: "Test Title".to_string(),
        url: "https://example.com".to_string(),
        snippet: "This is a test snippet.".to_string(),
    }];

    let formatted = format_search_results(&results);
    assert!(formatted.contains("Test Title"));
    assert!(formatted.contains("https://example.com"));
    assert!(formatted.contains("This is a test snippet"));
}

#[test]
fn results_are_numbered_from_one() {
    let results = vec![
        SearchResult {
            title: "First".to_string(),
            url: "https://a.example".to_string(),
            snippet: "one".to_string(),
        },
        SearchResult {
            title: "Second".to_string(),
            url: "https://b.example".to_string(),
            snippet: "two".to_string(),
        },
    ];
    assert_eq!(
        format_search_results(&results),
        "1. First\n   URL: https://a.example\n   one\n\n2. Second\n   URL: https://b.example\n   two\n\n"
    );
}

use personal_os::error::AppError;
use personal_os::services::web_search::{
    clean_result, collect_results, link_target, validate_query, RawResult,
};

fn raw(title: &str, href: Option<&str>, url_text: Option<&str>, snippet: &str) -> RawResult {
    RawResult {
        title: title.to_string(),
        href: href.map(|h| h.to_string()),
        url_text: url_text.map(|t| t.to_string()),
        snippet: snippet.to_string(),
    }
}

#[test]
fn a_redirect_link_gives_the_address_it_carries() {
    assert_eq!(
        link_target("//duckduckgo.com/l/?uddg=https%3A%2F%2Fexample.com%2Fa%3Fb%3D1&rut=abc"),
        "https://example.com/a?b=1"
    );
    assert_eq!(link_target("https://example.com/plain"), "https://example.com/plain");
    assert_eq!(link_target("/l/?uddg=one%20two"), "one two");
    assert_eq!(link_target("/l/?uddg=first&x=1&uddg=second"), "first");
    assert_eq!(link_target("/l/?uddg=%FF"), "");
}

#[test]
fn results_are_trimmed_and_need_a_title_and_an_address() {
    let kept = clean_result(&raw("  Title \n", None, Some(" example.com "), "\tsnip ")).unwrap();
    assert_eq!(kept.title, "Title");
    assert_eq!(kept.url, "example.com");
    assert_eq!(kept.snippet, "snip");
    assert_eq!(clean_result(&raw("   ", Some("https://a.example"), None, "s")), None);
    assert_eq!(clean_result(&raw("Title", None, None, "s")), None);
    assert_eq!(clean_result(&raw("Title", Some(""), Some("shown.example"), "s")), None);
}

#[test]
fn no_more_results_than_asked_for_are_collected() {
    let raws = vec![
        raw("One", Some("https://one.example"), None, ""),
        raw("", Some("https://none.example"), None, ""),
        raw("Two", Some("https://two.example"), None, ""),
        raw("Three", Some("https://three.example"), None, ""),
    ];
    let two = collect_results(&raws, 2);
    assert_eq!(two.len(), 2);
    assert_eq!(two[0].title, "One");
    assert_eq!(two[1].title, "Two");
    assert_eq!(collect_results(&raws, 10).len(), 3);
    assert_eq!(collect_results(&raws, 0).len(), 0);
}

#[test]
fn a_search_needs_a_query() {
    assert_eq!(
        validate_query("  \n "),
        Err(AppError::BadRequest("Search query cannot be empty".to_string()))
    );
    assert_eq!(validate_query(" rust "), Ok(()));
}

use personal_os::services::web_search::{parse_duckduckgo_results, raw_results};

const PAGE: &str = r#"<html><body>
<div class="result">
  <h2><a class="result__a" href="//duckduckgo.com/l/?uddg=https%3A%2F%2Fwww.rust%2Dlang.org%2F&amp;rut=1"> Rust <b>Language</b> </a></h2>
  <a class="result__url" href="x"> www.rust-lang.org </a>
  <a class="result__snippet"> A language empowering everyone. </a>
</div>
<div class="result">
  <span class="result__url"> shown.example/only </span>
  <span class="result__snippet">no title here</span>
</div>
<div class="result">
  <a class="result__a" href="https://plain.example/page">Plain</a>
</div>
<div class="other"><a class="result__a" href="https://ignored.example">Ignored</a></div>
<div class="result"><a class="result__a">No link</a><span class="result__url">fallback.example</span></div>
</body></html>"#;

#[test]
fn a_results_page_is_read_result_by_result() {
    let raws = raw_results(PAGE);
    assert_eq!(raws.len(), 4);
    assert_eq!(raws[0].title, " Rust Language ");
    assert_eq!(
        raws[0].href,
        Some("//duckduckgo.com/l/?uddg=https%3A%2F%2Fwww.rust%2Dlang.org%2F&rut=1".to_string())
    );
    assert_eq!(raws[0].url_text, Some(" www.rust-lang.org ".to_string()));
    assert_eq!(raws[1].title, "");
    assert_eq!(raws[1].href, None);
    assert_eq!(raws[2].url_text, None);
    assert_eq!(raws[2].snippet, "");
    assert_eq!(raws[3].href, None);
}

#[test]
fn a_results_page_gives_clean_results() {
    let results = parse_duckduckgo_results(PAGE, 10);
    assert_eq!(results.len(), 3);
    assert_eq!(results[0].title, "Rust Language");
    assert_eq!(results[0].url, "https://www.rust-lang.org/");
    assert_eq!(results[0].snippet, "A language empowering everyone.");
    assert_eq!(results[1].title, "Plain");
    assert_eq!(results[1].url, "https://plain.example/page");
    assert_eq!(results[2].title, "No link");
    assert_eq!(results[2].url, "fallback.example");
    assert_eq!(parse_duckduckgo_results(PAGE, 1).len(), 1);
    assert_eq!(parse_duckduckgo_results("plain text", 5).len(), 0);
}
