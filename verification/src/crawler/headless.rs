//! The headless-browser front: in this build JavaScript rendering is not
//! compiled in, and every render request is refused with a configuration error.
use vstd::prelude::*;
use crate::config::HeadlessConfig;
use crate::error::{ErrorView, SearchXyzError};
use crate::text::{push_str, string_from_chars};

verus! {

/// Headless browser driver.
pub struct HeadlessBrowser {
    pub config: HeadlessConfig,
}

impl HeadlessBrowser {
    /// A driver with the given settings.
    pub fn new(config: HeadlessConfig) -> (b: Self)
        ensures
            b.config == config,
    {
        HeadlessBrowser { config }
    }

    /// Renders `url`; without a rendering engine this always fails, naming the URL.
    pub fn fetch_html(&self, url: &str) -> (r: Result<String, SearchXyzError>)
        ensures
            r matches Err(e) && e@ == ErrorView::ConfigError(
                "JavaScript rendering is disabled or not compiled for URL: "@ + url@,
            ),
    {
        let mut o: Vec<char> = Vec::new();
        push_str(&mut o, "JavaScript rendering is disabled or not compiled for URL: ");
        push_str(&mut o, url);
        Err(SearchXyzError::ConfigError(string_from_chars(o.as_slice())))
    }
}

} // verus!
