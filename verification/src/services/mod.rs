//! What the task board asks of services outside it.
pub mod ollama;
pub mod web_search;

pub use ollama::OllamaMessage;
pub use web_search::{
    collect_results, format_search_results, parse_duckduckgo_results, RawResult, SearchResult,
};
