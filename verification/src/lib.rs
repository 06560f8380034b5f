//! Adaptive network control, multi-path and multi-WAN bookkeeping, router
//! feature toggles and download-protection decisions, with their contracts
//! proved by Verus.

use vstd::prelude::*;

pub mod bandwidth_policy;
pub mod download_protection;
pub mod issued_cert;
pub mod link_diagnostics;
pub mod maintenance;
pub mod multi_path;
pub mod multi_wan;
pub mod name_table;
pub mod network_interfaces;
pub mod path_optimizer;
pub mod raid_bridge;
pub mod redundant_transmission;
pub mod router_features;
pub mod secure_channel;
pub mod text;
pub mod tls_inspection;
pub mod transaction_log;
pub mod usb_protection;
pub mod wan_config;
pub mod wifi_roadmap;

verus! {

/// Two-level adaptive policy: `Fast` for photonic-class links (low SRTT and
/// low RTTVAR), `Slow` (the safe default) for everything else.
#[derive(Debug, Clone, Copy, PartialEq, Eq, Structural)]
pub enum AdaptiveMode {
    Fast,
    Slow,
}

/// The mode for a link classification: `Fast` exactly when the link was
/// classified photonic-class.
pub fn mode_for(photonic_class: bool) -> (mode: AdaptiveMode)
    ensures
        mode == mode_for_spec(photonic_class),
{
    if photonic_class {
        AdaptiveMode::Fast
    } else {
        AdaptiveMode::Slow
    }
}

/// The retry back-off for a mode, in milliseconds: 5 ms on photonic-class
/// links, 200 ms (the conservative default) otherwise.
pub fn retry_backoff_ms(mode: AdaptiveMode) -> (ms: u64)
    ensures
        ms == (if mode == AdaptiveMode::Fast { 5u64 } else { 200u64 }),
{
    match mode {
        AdaptiveMode::Fast => 5,
        AdaptiveMode::Slow => 200,
    }
}

/// A photonic-class link always gets the shorter back-off, and a link with
/// no classification yet (treated as not photonic-class) the conservative
/// one.
pub proof fn lemma_fast_mode_backs_off_less()
    ensures
        (if mode_for_spec(true) == AdaptiveMode::Fast { 5u64 } else { 200u64 }) < (if mode_for_spec(
            false,
        ) == AdaptiveMode::Fast {
            5u64
        } else {
            200u64
        }),
{
}

/// The mode for a link classification (see [`mode_for`]).
pub open spec fn mode_for_spec(photonic_class: bool) -> AdaptiveMode {
    if photonic_class {
        AdaptiveMode::Fast
    } else {
        AdaptiveMode::Slow
    }
}

} // verus!
