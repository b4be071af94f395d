//! Where trace reports go: the agent endpoint's address, and the batching
//! options of the span processor that sends them.
//!
//! Endpoint text is parsed by the url crate; the retry logic around it —
//! prefixing a scheme when the text was a bare host or a host:port pair —
//! is the library's own and is verified over the parser's observable
//! outcomes.

use vstd::prelude::*;

use crate::text::{spec_dec, str_eq, u64_to_dec};

verus! {

/// The url crate's parsed URL, carried opaquely.
#[verifier::external_type_specification]
#[verifier::external_body]
pub struct ExUrl(url::Url);

/// Why endpoint text was rejected.
pub enum EndpointError {
    /// The text was a relative URL with no base to resolve it against.
    RelativeUrlWithoutBase,
    /// Any other parse failure.
    Invalid,
}

/// Relies on `url::Url::parse`: the error variant that matters to the
/// retry logic is told apart, every other failure maps to `Invalid`.
#[verifier::external_body]
fn url_parse(s: &str) -> (r: Result<url::Url, EndpointError>)
{
    match url::Url::parse(s) {
        Ok(u) => Ok(u),
        Err(url::ParseError::RelativeUrlWithoutBase) => Err(
            EndpointError::RelativeUrlWithoutBase,
        ),
        Err(_) => Err(EndpointError::Invalid),
    }
}

/// Relies on `url::Url::host`: whether the parsed URL carries a host.
#[verifier::external_body]
fn url_has_host(u: &url::Url) -> bool {
    u.host().is_some()
}

/// Relies on `url::Url::scheme`: the parsed URL's scheme, as text.
#[verifier::external_body]
fn url_scheme(u: &url::Url) -> String {
    u.scheme().to_string()
}

/// Whether a first parse's outcome sends the endpoint text around again
/// with a scheme prefixed: a parse that mistook the host for a scheme
/// (no host, and a scheme outside the two the endpoint speaks — the
/// disjunction holds of every scheme, so any host-less parse retries), or
/// a relative URL that only lacked its base.
pub open spec fn spec_endpoint_retries(
    parsed: bool,
    has_host: bool,
    scheme: Seq<char>,
    relative_error: bool,
) -> bool {
    if parsed {
        !has_host && (scheme != "http"@ || scheme != "https"@)
    } else {
        relative_error
    }
}

/// Decides the retry, exactly `spec_endpoint_retries`.
pub fn endpoint_retry_decision(
    parsed: bool,
    has_host: bool,
    scheme: &str,
    relative_error: bool,
) -> (r: bool)
    ensures
        r == spec_endpoint_retries(parsed, has_host, scheme@, relative_error),
{
    if parsed {
        !has_host && (!str_eq(scheme, "http") || !str_eq(scheme, "https"))
    } else {
        relative_error
    }
}

/// Parses endpoint text into a URL, retrying once with a scheme prefixed
/// when the first attempt shows the text was a bare host or host:port. The
/// url crate decides what parses; the retry decision is
/// `spec_endpoint_retries`, verified above, and an error of the second
/// attempt is the caller's answer.
pub fn parse_url_for_endpoint(s: String) -> (r: Result<url::Url, EndpointError>) {
    let retried: bool;
    match url_parse(s.as_str()) {
        Ok(url) => {
            let has_host = url_has_host(&url);
            let scheme = url_scheme(&url);
            if endpoint_retry_decision(true, has_host, scheme.as_str(), false) {
                retried = true;
            } else {
                return Ok(url);
            }
        },
        Err(EndpointError::RelativeUrlWithoutBase) => {
            retried = true;
        },
        Err(e) => {
            return Err(e);
        },
    }
    if retried {
        let prefixed = String::from_str("http://").concat(s.as_str());
        return url_parse(prefixed.as_str());
    }
    Err(EndpointError::Invalid)
}

/// The agent endpoint to send reports to: the stock agent address, or a
/// custom URL.
pub enum AgentEndpoint {
    /// The default agent endpoint.
    DefaultAgent,
    /// A custom URL endpoint.
    Url(url::Url),
}

/// Reads endpoint text: the word `default` names the stock agent, and
/// exactly that word does; anything else must parse as a URL.
pub fn endpoint_from_string(s: String) -> (r: Result<AgentEndpoint, EndpointError>)
    ensures
        (r matches Ok(e) && e is DefaultAgent) <==> s@ == "default"@,
{
    if str_eq(s.as_str(), "default") {
        return Ok(AgentEndpoint::DefaultAgent);
    }
    match parse_url_for_endpoint(s) {
        Ok(url) => Ok(AgentEndpoint::Url(url)),
        Err(e) => Err(e),
    }
}

// ---------------------------------------------------------------------------
// Batch processor configuration.
// ---------------------------------------------------------------------------

/// How the batch span processor paces itself. Durations are milliseconds.
pub struct BatchProcessorConfig {
    /// The delay between two consecutive processings of batches.
    pub scheduled_delay: u64,
    /// How many spans may wait for processing; beyond it spans are dropped.
    pub max_queue_size: usize,
    /// How many spans one batch exports at most.
    pub max_export_batch_size: usize,
    /// How long one batch export may take.
    pub max_export_timeout: u64,
    /// How many exports may run at once.
    pub max_concurrent_exports: usize,
}

/// The stock delay between batch processings: five seconds.
pub fn scheduled_delay_default() -> (r: u64)
    ensures
        r == 5000,
{
    5000
}

/// The stock queue bound.
pub fn max_queue_size_default() -> (r: usize)
    ensures
        r == 2048,
{
    2048
}

/// The stock batch size.
pub fn max_export_batch_size_default() -> (r: usize)
    ensures
        r == 512,
{
    512
}

/// The stock export deadline: thirty seconds.
pub fn max_export_timeout_default() -> (r: u64)
    ensures
        r == 30000,
{
    30000
}

/// The stock export concurrency: one at a time.
pub fn max_concurrent_exports_default() -> (r: usize)
    ensures
        r == 1,
{
    1
}

impl Default for BatchProcessorConfig {
    /// The stock pacing.
    fn default() -> (r: BatchProcessorConfig)
        ensures
            r.scheduled_delay == 5000,
            r.max_queue_size == 2048,
            r.max_export_batch_size == 512,
            r.max_export_timeout == 30000,
            r.max_concurrent_exports == 1,
    {
        BatchProcessorConfig {
            scheduled_delay: scheduled_delay_default(),
            max_queue_size: max_queue_size_default(),
            max_export_batch_size: max_export_batch_size_default(),
            max_export_timeout: max_export_timeout_default(),
            max_concurrent_exports: max_concurrent_exports_default(),
        }
    }
}

/// The human-readable text of a duration given in milliseconds; a function
/// of the duration alone.
pub uninterp spec fn humantime_text(ms: u64) -> Seq<char>;

/// Relies on humantime's `format_duration`: the rendering is a
/// deterministic function of the duration.
#[verifier::external_body]
fn format_duration_ms(ms: u64) -> (r: String)
    ensures
        r@ == humantime_text(ms),
{
    humantime::format_duration(std::time::Duration::from_millis(ms)).to_string()
}

impl BatchProcessorConfig {
    /// The configuration's display line, field by field.
    pub fn display_string(&self) -> (r: String)
        ensures
            r@ == "BatchConfig { scheduled_delay="@ + humantime_text(self.scheduled_delay)
                + ", max_queue_size="@ + spec_dec(self.max_queue_size as nat)
                + ", max_export_batch_size="@ + spec_dec(self.max_export_batch_size as nat)
                + ", max_export_timeout="@ + humantime_text(self.max_export_timeout)
                + ", max_concurrent_exports="@ + spec_dec(self.max_concurrent_exports as nat)
                + " }"@,
    {
        let mut out = String::from_str("BatchConfig { scheduled_delay=");
        out.append(format_duration_ms(self.scheduled_delay).as_str());
        out.append(", max_queue_size=");
        out.append(u64_to_dec(self.max_queue_size as u64).as_str());
        out.append(", max_export_batch_size=");
        out.append(u64_to_dec(self.max_export_batch_size as u64).as_str());
        out.append(", max_export_timeout=");
        out.append(format_duration_ms(self.max_export_timeout).as_str());
        out.append(", max_concurrent_exports=");
        out.append(u64_to_dec(self.max_concurrent_exports as u64).as_str());
        out.append(" }");
        proof {
            assert(out@ =~= "BatchConfig { scheduled_delay="@ + humantime_text(
                self.scheduled_delay,
            ) + ", max_queue_size="@ + spec_dec(self.max_queue_size as nat)
                + ", max_export_batch_size="@ + spec_dec(self.max_export_batch_size as nat)
                + ", max_export_timeout="@ + humantime_text(self.max_export_timeout)
                + ", max_concurrent_exports="@ + spec_dec(self.max_concurrent_exports as nat)
                + " }"@);
        }
        out
    }
}

} // verus!
