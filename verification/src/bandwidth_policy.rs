//! A fixed 10 Mbps cap for video and music streaming, offered as a checkbox
//! for steadier audio quality; every other kind of traffic (web sites, SFTP,
//! AI and chat tools) always runs at full speed. This module computes the
//! policy only; the caller applies the limit in its own send loop.

use vstd::prelude::*;

use crate::text::{chars_of, contains_chars, contains_sub, lowercase, to_lowercase};

verus! {

/// 10 Mbps (decimal megabits, as ISPs count them) in bytes per second.
pub const STREAMING_CAP_BYTES_PER_SEC: u64 = 10_000_000 / 8;

/// The host-name fragments of the streaming services the cap applies to
/// (YouTube, U-NEXT, Qobuz); matching is by substring of the lowercased host.
pub open spec fn streaming_host_fragments() -> Seq<Seq<char>> {
    seq!["youtube.com"@, "youtu.be"@, "unext.jp"@, "qobuz.com"@]
}

#[derive(Debug, Clone, Copy, PartialEq, Eq, Structural)]
pub enum TrafficPurpose {
    /// Video or music streaming (YouTube, U-NEXT, Qobuz).
    Streaming,
    /// Everything else; the default, always uncapped.
    Other,
}

/// The purpose of traffic to a host whose name is already lowercased:
/// streaming exactly when one of the streaming fragments occurs in it.
pub open spec fn purpose_of_lowercased_host(lower: Seq<char>) -> TrafficPurpose {
    if exists|k: int|
        0 <= k < streaming_host_fragments().len() && contains_sub(
            lower,
            #[trigger] streaming_host_fragments()[k],
        ) {
        TrafficPurpose::Streaming
    } else {
        TrafficPurpose::Other
    }
}

/// The purpose of traffic to `host` (matched case-insensitively).
pub open spec fn purpose_of_host(host: Seq<char>) -> TrafficPurpose {
    purpose_of_lowercased_host(lowercase(host))
}

/// Classifies a host name that is already lowercased.
pub fn classify_lowercased_host(lower: &str) -> (p: TrafficPurpose)
    ensures
        p == purpose_of_lowercased_host(lower@),
{
    let lv = chars_of(lower);
    let frags = vec!["youtube.com", "youtu.be", "unext.jp", "qobuz.com"];
    assert(frags@.map_values(|s: &str| s@) =~= streaming_host_fragments());
    let n = frags.len();
    let mut i: usize = 0;
    while i < n
        invariant
            n == frags@.len(),
            i <= n,
            lv@ == lower@,
            frags@.map_values(|s: &str| s@) == streaming_host_fragments(),
            forall|k: int| 0 <= k < i ==> !contains_sub(lower@, #[trigger] streaming_host_fragments()[k]),
        decreases n - i,
    {
        assert(streaming_host_fragments()[i as int] == frags@[i as int]@);
        if contains_chars(&lv, &chars_of(frags[i])) {
            return TrafficPurpose::Streaming;
        }
        i = i + 1;
    }
    TrafficPurpose::Other
}

/// Classifies traffic by the host it goes to: streaming exactly when the
/// lowercased host name contains one of the streaming fragments, otherwise
/// (the safe default) other traffic.
pub fn classify_host(host: &str) -> (p: TrafficPurpose)
    ensures
        p == purpose_of_host(host@),
{
    let lower = to_lowercase(host);
    classify_lowercased_host(lower.as_str())
}

/// The state of the "fix streaming at 10 Mbps" checkbox (off by default).
pub struct BandwidthPolicy {
    streaming_cap_enabled: bool,
}

impl View for BandwidthPolicy {
    type V = bool;

    closed spec fn view(&self) -> bool {
        self.streaming_cap_enabled
    }
}

/// The byte-rate limit for traffic of the given purpose: the cap only when
/// the checkbox is on and the traffic is streaming, otherwise none.
pub open spec fn limit_for_purpose(cap_enabled: bool, purpose: TrafficPurpose) -> Option<u64> {
    if cap_enabled && purpose == TrafficPurpose::Streaming {
        Some(STREAMING_CAP_BYTES_PER_SEC)
    } else {
        None
    }
}

/// Traffic to a host whose lowercased name contains `youtube.com`,
/// `youtu.be`, `unext.jp` or `qobuz.com` is streaming, and with the cap on
/// it is limited to 10 Mbps; a host containing none of them is other
/// traffic and never limited.
pub proof fn law_streaming_hosts_are_capped(host: Seq<char>, cap_enabled: bool)
    ensures
        ({
            let lower = lowercase(host);
            let streaming = contains_sub(lower, "youtube.com"@) || contains_sub(lower, "youtu.be"@)
                || contains_sub(lower, "unext.jp"@) || contains_sub(lower, "qobuz.com"@);
            &&& streaming ==> purpose_of_host(host) == TrafficPurpose::Streaming
            &&& streaming && cap_enabled ==> limit_for_purpose(cap_enabled, purpose_of_host(host))
                == Some(1_250_000u64)
            &&& !streaming ==> purpose_of_host(host) == TrafficPurpose::Other
            &&& !streaming ==> limit_for_purpose(cap_enabled, purpose_of_host(host)) is None
        }),
{
    let lower = lowercase(host);
    let frags = streaming_host_fragments();
    assert(frags[0] == "youtube.com"@);
    assert(frags[1] == "youtu.be"@);
    assert(frags[2] == "unext.jp"@);
    assert(frags[3] == "qobuz.com"@);
    assert(contains_sub(lower, frags[0]) == contains_sub(lower, "youtube.com"@));
    assert(contains_sub(lower, frags[1]) == contains_sub(lower, "youtu.be"@));
    assert(contains_sub(lower, frags[2]) == contains_sub(lower, "unext.jp"@));
    assert(contains_sub(lower, frags[3]) == contains_sub(lower, "qobuz.com"@));
}

impl BandwidthPolicy {
    pub fn new() -> (p: Self)
        ensures
            !p@,
    {
        BandwidthPolicy { streaming_cap_enabled: false }
    }

    pub fn set_streaming_cap_enabled(&mut self, enabled: bool)
        ensures
            final(self)@ == enabled,
    {
        self.streaming_cap_enabled = enabled;
    }

    pub fn is_streaming_cap_enabled(&self) -> (r: bool)
        ensures
            r == self@,
    {
        self.streaming_cap_enabled
    }

    /// The byte-rate limit for traffic to `host`; `None` is unlimited.
    pub fn bytes_per_second_limit_for_host(&self, host: &str) -> (r: Option<u64>)
        ensures
            r == limit_for_purpose(self@, purpose_of_host(host@)),
    {
        if self.is_streaming_cap_enabled() && classify_host(host) == TrafficPurpose::Streaming {
            Some(STREAMING_CAP_BYTES_PER_SEC)
        } else {
            None
        }
    }
}

impl Default for BandwidthPolicy {
    fn default() -> (p: Self)
        ensures
            !p@,
    {
        BandwidthPolicy::new()
    }
}

/// Only streaming traffic is ever capped, only while the checkbox is on, and
/// the cap is exactly 10 Mbps; everything else runs uncapped.
pub proof fn lemma_cap_only_for_streaming(cap_enabled: bool, purpose: TrafficPurpose)
    ensures
        limit_for_purpose(cap_enabled, purpose) is Some <==> (cap_enabled && purpose
            == TrafficPurpose::Streaming),
        limit_for_purpose(cap_enabled, purpose) is Some ==> limit_for_purpose(
            cap_enabled,
            purpose,
        )->0 * 8 == 10_000_000,
{
}

} // verus!
