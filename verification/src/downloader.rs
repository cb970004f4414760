//! Settings of the downloader and its retry decisions.

use vstd::prelude::*;

verus! {

/// A span of time as `std::time::Duration` holds it: whole seconds and the
/// nanoseconds beyond them (fewer than a second).
#[derive(Debug, Clone, Copy, PartialEq, Eq)]
pub struct Span {
    secs: u64,
    nanos: u32,
}

impl View for Span {
    type V = (u64, u32);

    /// Whole seconds and the nanoseconds beyond them.
    closed spec fn view(&self) -> (u64, u32) {
        (self.secs, self.nanos)
    }
}

impl Span {
    /// The nanoseconds beyond the whole seconds are fewer than a second.
    #[verifier::type_invariant]
    spec fn nanos_below_a_second(&self) -> bool {
        self.nanos < 1_000_000_000
    }

    /// A span of whole seconds.
    pub fn from_secs(secs: u64) -> (r: Span)
        ensures
            r@ == (secs, 0u32),
    {
        Span { secs, nanos: 0 }
    }

    /// The span of `secs` seconds and `subsec_nanos` nanoseconds; `None`
    /// unless `subsec_nanos` is less than a second.
    pub fn from_parts(secs: u64, subsec_nanos: u32) -> (r: Option<Span>)
        ensures
            r is Some <==> subsec_nanos < 1_000_000_000,
            r matches Some(s) ==> s@ == (secs, subsec_nanos),
    {
        if subsec_nanos < 1_000_000_000 {
            Some(Span { secs, nanos: subsec_nanos })
        } else {
            None
        }
    }

    /// The whole seconds.
    pub fn as_secs(&self) -> (r: u64)
        ensures
            r == self@.0,
    {
        self.secs
    }

    /// The nanoseconds beyond the whole seconds, fewer than a second.
    pub fn subsec_nanos(&self) -> (r: u32)
        ensures
            r == self@.1,
            r < 1_000_000_000,
    {
        proof {
            use_type_invariant(self);
        }
        self.nanos
    }
}

/// Settings of the downloader.
#[derive(Debug, Clone)]
pub struct DownloaderConfig {
    pub max_concurrent_downloads: usize,
    pub timeout: Span,
    pub user_agent: Option<String>,
    pub retry_attempts: u32,
    pub retry_delay: Span,
}

/// The user agent the downloader sends unless told otherwise.
pub open spec fn default_user_agent() -> Seq<char> {
    "Mozilla/5.0 (compatible; Downloader/1.0)"@
}

/// The browser user agent sent when fetching crates.
pub open spec fn browser_user_agent() -> Seq<char> {
    "Mozilla/5.0 (Windows NT 10.0; Win64; x64) AppleWebKit/537.36 (KHTML, like Gecko) Chrome/140.0.0.0 Safari/537.36 Edg/140.0.0.0"@
}

impl Default for DownloaderConfig {
    /// Eight downloads at a time, a 30 s timeout, five attempts one second
    /// apart.
    fn default() -> (r: Self)
        ensures
            r.max_concurrent_downloads == 8,
            r.timeout@ == (30u64, 0u32),
            r.user_agent matches Some(ua) && ua@ == default_user_agent(),
            r.retry_attempts == 5,
            r.retry_delay@ == (1u64, 0u32),
    {
        DownloaderConfig {
            max_concurrent_downloads: 8,
            timeout: Span::from_secs(30),
            user_agent: Some("Mozilla/5.0 (compatible; Downloader/1.0)".to_owned()),
            retry_attempts: 5,
            retry_delay: Span::from_secs(1),
        }
    }
}

/// The settings used to fetch crates: the defaults, with twelve downloads
/// at a time and a browser user agent.
pub fn crate_downloader_config() -> (r: DownloaderConfig)
    ensures
        r.max_concurrent_downloads == 12,
        r.timeout@ == (30u64, 0u32),
        r.user_agent matches Some(ua) && ua@ == browser_user_agent(),
        r.retry_attempts == 5,
        r.retry_delay@ == (1u64, 0u32),
{
    let defaults = DownloaderConfig::default();
    DownloaderConfig {
        max_concurrent_downloads: 12,
        user_agent: Some(
            "Mozilla/5.0 (Windows NT 10.0; Win64; x64) AppleWebKit/537.36 (KHTML, like Gecko) Chrome/140.0.0.0 Safari/537.36 Edg/140.0.0.0".to_owned(),
        ),
        timeout: defaults.timeout,
        retry_attempts: defaults.retry_attempts,
        retry_delay: defaults.retry_delay,
    }
}

/// After attempt number `attempt` (counting from 1) failed: the number of
/// the next attempt, or `None` when the download gives up.
pub open spec fn spec_retry_after_failure(retry_attempts: u32, attempt: u32) -> Option<u32> {
    if attempt < retry_attempts {
        Some((attempt + 1) as u32)
    } else {
        None
    }
}

/// How many times a download that always fails is attempted.
pub open spec fn attempts_of_failing_download(retry_attempts: u32) -> u32 {
    if retry_attempts == 0 {
        1
    } else {
        retry_attempts
    }
}

impl DownloaderConfig {
    /// After attempt number `attempt` (counting from 1) failed: the number
    /// of the next attempt, or `None` when the download gives up.
    pub fn retry_after_failure(&self, attempt: u32) -> (r: Option<u32>)
        ensures
            r == spec_retry_after_failure(self.retry_attempts, attempt),
    {
        if attempt >= self.retry_attempts {
            None
        } else {
            Some(attempt + 1)
        }
    }
}

/// A download that keeps failing is attempted exactly
/// `max(1, retry_attempts)` times: every attempt before that one is followed
/// by the next, and that one gives up.
pub proof fn lemma_failing_download_attempts(retry_attempts: u32, attempt: u32)
    requires
        1 <= attempt,
    ensures
        attempt < attempts_of_failing_download(retry_attempts) ==> spec_retry_after_failure(
            retry_attempts,
            attempt,
        ) == Some((attempt + 1) as u32),
        attempt >= attempts_of_failing_download(retry_attempts) ==> spec_retry_after_failure(
            retry_attempts,
            attempt,
        ) is None,
{
}

} // verus!
