//! The configuration of a source, and how a source is built from it.

use crate::source::{apache_metrics, texts, ApacheMetrics, State};
use http::uri::InvalidUri;
use vstd::prelude::*;

verus! {

/// The error with which `http::Uri` refuses a text.
#[verifier::external_type_specification]
#[verifier::external_body]
pub struct ExInvalidUri(InvalidUri);

/// Whether `http::Uri` reads the text as a URI.
pub uninterp spec fn uri_accepts(text: Seq<char>) -> bool;

/// Reads `text` with `http::Uri`'s `from_str` and hands back the error, if
/// there is one. Whether there is one depends on the text alone, and the
/// empty text is always refused.
#[verifier::external_body]
fn uri_error(text: &str) -> (e: Option<InvalidUri>)
    ensures
        e is None <==> uri_accepts(text@),
        text@.len() == 0 ==> e is Some,
{
    text.parse::<http::Uri>().err()
}

/// What a source is made from.
#[derive(Clone, Debug, PartialEq, Eq)]
pub struct ApacheMetricsConfig {
    /// The status pages to scrape, as URIs.
    pub endpoints: Vec<String>,
    /// The seconds from one scrape to the next.
    pub scrape_interval_secs: u64,
    /// What to put in front of every metric's name; nothing if empty.
    pub namespace: String,
}

/// The interval of a configuration that names none: 15 seconds.
pub fn default_scrape_interval_secs() -> (r: u64)
    ensures
        r == 15,
{
    15
}

/// The namespace of a configuration that names none: `apache`.
pub fn default_namespace() -> (r: String)
    ensures
        r@ == "apache"@,
{
    "apache".to_owned()
}

/// Why no source could be built.
#[derive(Debug)]
pub enum BuildError {
    /// The endpoint at `index` is no URI.
    UriParseError { index: usize, source: InvalidUri },
}

impl ApacheMetricsConfig {
    /// The configuration of `endpoints` with the default interval and
    /// namespace.
    pub fn new(endpoints: Vec<String>) -> (r: ApacheMetricsConfig)
        ensures
            r.endpoints == endpoints,
            r.scrape_interval_secs == 15,
            r.namespace@ == "apache"@,
    {
        ApacheMetricsConfig {
            endpoints,
            scrape_interval_secs: default_scrape_interval_secs(),
            namespace: default_namespace(),
        }
    }

    /// Builds the source that the configuration describes. It fails if and
    /// only if an endpoint is no URI, and then names the first such endpoint.
    pub fn build(&self) -> (r: Result<ApacheMetrics, BuildError>)
        ensures
            match r {
                Ok(source) => {
                    &&& forall|i: int|
                        0 <= i < self.endpoints@.len() ==> uri_accepts(
                            #[trigger] self.endpoints@[i]@,
                        ) && self.endpoints@[i]@.len() > 0
                    &&& source.endpoints() == texts(self.endpoints@)
                    &&& source.interval_secs() == self.scrape_interval_secs
                    &&& source.namespace_text() == self.namespace@
                    &&& source.current() == State::Running
                },
                Err(BuildError::UriParseError { index, .. }) => {
                    &&& index < self.endpoints@.len()
                    &&& !uri_accepts(self.endpoints@[index as int]@)
                    &&& forall|j: int| 0 <= j < index ==> uri_accepts(#[trigger] self.endpoints@[j]@)
                },
            },
    {
        let mut urls: Vec<String> = Vec::new();
        let mut i: usize = 0;
        while i < self.endpoints.len()
            invariant
                i <= self.endpoints@.len(),
                texts(urls@) == texts(self.endpoints@.take(i as int)),
                forall|j: int|
                    0 <= j < i ==> uri_accepts(#[trigger] self.endpoints@[j]@)
                        && self.endpoints@[j]@.len() > 0,
            decreases self.endpoints@.len() - i,
        {
            match uri_error(self.endpoints[i].as_str()) {
                Some(source) => {
                    return Err(BuildError::UriParseError { index: i, source });
                },
                None => {},
            }
            proof {
                let next = self.endpoints@[i as int];
                assert(texts(urls@.push(next)) =~= texts(urls@).push(next@));
            }
            urls.push(self.endpoints[i].clone());
            i += 1;
        }
        proof {
            assert forall|j: int| 0 <= j < urls@.len() implies uri_accepts(#[trigger] urls@[j]@) by {
                assert(texts(urls@)[j] == urls@[j]@);
            }
        }
        Ok(apache_metrics(urls, self.scrape_interval_secs, self.namespace.clone()))
    }
}

} // verus!
