//! Web search support: the normalized search result, and the choice of the
//! provider (`tavily` or `brave`) that `web_search.use` in the configuration
//! names.
use vstd::prelude::*;

verus! {

/// A single normalized search result.
#[derive(Debug)]
pub struct SearchResult {
    pub title: String,
    pub url: String,
    pub snippet: String,
}

impl View for SearchResult {
    type V = (Seq<char>, Seq<char>, Seq<char>);

    open spec fn view(&self) -> (Seq<char>, Seq<char>, Seq<char>) {
        (self.title@, self.url@, self.snippet@)
    }
}

impl Clone for SearchResult {
    fn clone(&self) -> (r: Self)
        ensures
            r@ == self@,
    {
        SearchResult { title: self.title.clone(), url: self.url.clone(), snippet: self.snippet.clone() }
    }
}

/// The search providers the server can query.
#[derive(Debug, Clone, Copy, PartialEq, Eq, Structural)]
pub enum SearchProvider {
    Tavily,
    Brave,
}

/// Why a search cannot be sent.
#[derive(Debug)]
pub enum SearchSetupError {
    /// The configured provider is neither "tavily" nor "brave".
    UnknownProvider(String),
    /// The provider is selected but its API key is empty (the provider's
    /// name).
    MissingApiKey(String),
}

/// The provider a search goes to, or why it cannot be sent: the provider
/// must be `tavily` or `brave`, and its API key must not be empty.
pub open spec fn provider_choice(provider: Seq<char>, tavily_key: Seq<char>, brave_key: Seq<char>) -> Result<
    SearchProvider,
    (bool, Seq<char>),
> {
    if provider == "tavily"@ {
        if tavily_key.len() == 0 {
            Err((true, "tavily"@))
        } else {
            Ok(SearchProvider::Tavily)
        }
    } else if provider == "brave"@ {
        if brave_key.len() == 0 {
            Err((true, "brave"@))
        } else {
            Ok(SearchProvider::Brave)
        }
    } else {
        Err((false, provider))
    }
}

/// The view of a setup error: whether the key is missing (rather than the
/// provider unknown), and the provider's name.
pub open spec fn setup_error_view(e: SearchSetupError) -> (bool, Seq<char>) {
    match e {
        SearchSetupError::UnknownProvider(p) => (false, p@),
        SearchSetupError::MissingApiKey(p) => (true, p@),
    }
}

/// Choose the provider for a search (see [`provider_choice`]).
pub fn select_provider(provider: &String, tavily_api_key: &String, brave_api_key: &String) -> (r:
    Result<SearchProvider, SearchSetupError>)
    ensures
        match provider_choice(provider@, tavily_api_key@, brave_api_key@) {
            Ok(p) => r == Ok::<SearchProvider, SearchSetupError>(p),
            Err(e) => r matches Err(err) && setup_error_view(err) == e,
        },
{
    let tavily = "tavily".to_owned();
    let brave = "brave".to_owned();
    if *provider == tavily {
        if tavily_api_key.as_str().is_empty() {
            Err(SearchSetupError::MissingApiKey(tavily))
        } else {
            Ok(SearchProvider::Tavily)
        }
    } else if *provider == brave {
        if brave_api_key.as_str().is_empty() {
            Err(SearchSetupError::MissingApiKey(brave))
        } else {
            Ok(SearchProvider::Brave)
        }
    } else {
        Err(SearchSetupError::UnknownProvider(provider.clone()))
    }
}

} // verus!
