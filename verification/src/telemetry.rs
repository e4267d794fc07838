//! Where telemetry is sent to.

use vstd::prelude::*;

verus! {

/// A URL without the slashes at its end.
pub open spec fn trimmed(url: Seq<char>) -> Seq<char>
    decreases url.len(),
{
    if url.len() > 0 && url.last() == '/' {
        trimmed(url.drop_last())
    } else {
        url
    }
}

/// Chooses the URL that telemetry is sent to: the configured one, or else one on this machine.
pub fn otlp_url(configured: Option<String>) -> (url: String)
    ensures
        url@ == match configured {
            Some(configured_url) => configured_url@,
            None => "http://localhost:4318"@,
        },
{
    match configured {
        Some(configured_url) => configured_url,
        None => "http://localhost:4318".to_string(),
    }
}

/// Appends a path to a URL, whether or not the URL ends in slashes.
fn endpoint(url: &str, path: &str) -> (endpoint: String)
    ensures
        endpoint@ == trimmed(url@) + path@,
{
    let mut len: usize = url.unicode_len();
    assert(url@.take(len as int) =~= url@);
    while len > 0 && url.get_char(len - 1) == '/'
        invariant
            len <= url@.len(),
            trimmed(url@.take(len as int)) == trimmed(url@),
        decreases len,
    {
        assert(url@.take(len as int).drop_last() =~= url@.take(len - 1));
        len -= 1;
    }
    assert(url@.subrange(0, len as int) =~= url@.take(len as int));
    url.substring_char(0, len).to_string().concat(path)
}

/// Determines the endpoint that metrics are sent to.
pub fn metrics_endpoint(otlp_url: &str) -> (endpoint: String)
    ensures
        endpoint@ == trimmed(otlp_url@) + "/v1/metrics"@,
{
    endpoint(otlp_url, "/v1/metrics")
}

/// Determines the endpoint that traces are sent to.
pub fn traces_endpoint(otlp_url: &str) -> (endpoint: String)
    ensures
        endpoint@ == trimmed(otlp_url@) + "/v1/traces"@,
{
    endpoint(otlp_url, "/v1/traces")
}

/// Slashes at the end of a URL make no difference: none of them is left, and nothing but them is taken
/// away.
pub proof fn trailing_slashes_do_not_matter(url: Seq<char>)
    ensures
        trimmed(url.push('/')) == trimmed(url),
        trimmed(trimmed(url)) == trimmed(url),
        trimmed(url).len() > 0 ==> trimmed(url).last() != '/',
        trimmed(url).is_prefix_of(url),
        forall|i: int| trimmed(url).len() <= i < url.len() ==> #[trigger] url[i] == '/',
    decreases url.len(),
{
    assert(url.push('/').drop_last() =~= url);
    if url.len() > 0 && url.last() == '/' {
        let shorter = url.drop_last();
        trailing_slashes_do_not_matter(shorter);
        assert forall|i: int| trimmed(url).len() <= i < url.len() implies #[trigger] url[i] == '/' by {
            if i < shorter.len() {
                assert(shorter[i] == url[i]);
            }
        }
    }
}

} // verus!
