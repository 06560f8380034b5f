//! Link health for display: disconnected, unstable (high jitter: a failing
//! cable or connector), degraded (high but steady RTT), pending measurement,
//! or healthy; and the choice of the healthiest link, which never picks a
//! disconnected or unstable one. The RTT figures are floating point and are
//! compared against the thresholds by the caller; this module takes the
//! results of those comparisons.

use vstd::prelude::*;

use crate::network_interfaces::{NetworkInterface, NetworkInterfaceReport};
use crate::usb_protection::{contains_name, views_of};

verus! {

#[derive(Debug, Clone, Copy, PartialEq, Eq, Structural)]
pub enum LinkHealth {
    /// Not connected at the OS level (cable or adapter possibly down).
    Disconnected,
    /// Connected, but RTTVAR (jitter) is high.
    Unstable,
    /// Connected and steady, but the RTT itself is high.
    Degraded,
    /// No RTT samples yet.
    Unknown,
    Healthy,
}

pub open spec fn health_label_ja(h: LinkHealth) -> Seq<char> {
    match h {
        LinkHealth::Disconnected => "🔴 未接続(断線の可能性)"@,
        LinkHealth::Unstable => "🟠 不安定(断線しかかっている可能性)"@,
        LinkHealth::Degraded => "🟡 低速(RTTが高い)"@,
        LinkHealth::Unknown => "⚪ 測定待ち"@,
        LinkHealth::Healthy => "🟢 正常"@,
    }
}

pub open spec fn health_label_en(h: LinkHealth) -> Seq<char> {
    match h {
        LinkHealth::Disconnected => "Disconnected (possible cable fault)"@,
        LinkHealth::Unstable => "Unstable (possible failing connection)"@,
        LinkHealth::Degraded => "Degraded (high RTT)"@,
        LinkHealth::Unknown => "Pending measurement"@,
        LinkHealth::Healthy => "Healthy"@,
    }
}

impl LinkHealth {
    pub fn label_ja(&self) -> (s: &'static str)
        ensures
            s@ == health_label_ja(*self),
    {
        match self {
            LinkHealth::Disconnected => "🔴 未接続(断線の可能性)",
            LinkHealth::Unstable => "🟠 不安定(断線しかかっている可能性)",
            LinkHealth::Degraded => "🟡 低速(RTTが高い)",
            LinkHealth::Unknown => "⚪ 測定待ち",
            LinkHealth::Healthy => "🟢 正常",
        }
    }

    pub fn label_en(&self) -> (s: &'static str)
        ensures
            s@ == health_label_en(*self),
    {
        match self {
            LinkHealth::Disconnected => "Disconnected (possible cable fault)",
            LinkHealth::Unstable => "Unstable (possible failing connection)",
            LinkHealth::Degraded => "Degraded (high RTT)",
            LinkHealth::Unknown => "Pending measurement",
            LinkHealth::Healthy => "Healthy",
        }
    }
}

/// The health of a link. `srtt_high` is `None` without an SRTT sample,
/// otherwise whether SRTT is above the degraded threshold;
/// `rttvar_high` likewise for RTTVAR and the unstable threshold.
pub open spec fn spec_link_health(
    connected: bool,
    srtt_high: Option<bool>,
    rttvar_high: Option<bool>,
) -> LinkHealth {
    if !connected {
        LinkHealth::Disconnected
    } else if srtt_high is Some && rttvar_high == Some(true) {
        LinkHealth::Unstable
    } else if srtt_high == Some(true) {
        LinkHealth::Degraded
    } else if srtt_high is Some && rttvar_high is Some {
        LinkHealth::Healthy
    } else {
        LinkHealth::Unknown
    }
}

/// The health of a link from its connection state and the threshold
/// comparisons of its SRTT and RTTVAR (see [`spec_link_health`]): not
/// connected comes first, then high jitter, then high RTT.
pub fn classify_link_health(connected: bool, srtt_high: Option<bool>, rttvar_high: Option<bool>) -> (h:
    LinkHealth)
    ensures
        h == spec_link_health(connected, srtt_high, rttvar_high),
{
    if !connected {
        return LinkHealth::Disconnected;
    }
    match (srtt_high, rttvar_high) {
        (Some(_), Some(true)) => LinkHealth::Unstable,
        (Some(true), _) => LinkHealth::Degraded,
        (Some(_), Some(_)) => LinkHealth::Healthy,
        _ => LinkHealth::Unknown,
    }
}

/// Among the first `n` links, the first one of health `target` whose key is
/// smallest (the first of equals), if any.
pub open spec fn first_min_with_health(
    health: Seq<LinkHealth>,
    keys: Seq<u64>,
    target: LinkHealth,
    n: int,
) -> Option<int>
    decreases n,
{
    if n <= 0 {
        None
    } else {
        let prev = first_min_with_health(health, keys, target, n - 1);
        if health[n - 1] != target {
            prev
        } else {
            match prev {
                None => Some(n - 1),
                Some(i) => if keys[n - 1] < keys[i] {
                    Some(n - 1)
                } else {
                    Some(i)
                },
            }
        }
    }
}

/// The link to prefer: the healthy link with the smallest key (SRTT, in
/// the caller's order), else the degraded one with the smallest key, else
/// none. Disconnected, unstable and unmeasured links are never chosen.
pub open spec fn spec_recommend(health: Seq<LinkHealth>, keys: Seq<u64>) -> Option<int> {
    match first_min_with_health(health, keys, LinkHealth::Healthy, health.len() as int) {
        Some(i) => Some(i),
        None => first_min_with_health(health, keys, LinkHealth::Degraded, health.len() as int),
    }
}

proof fn lemma_first_min_props(health: Seq<LinkHealth>, keys: Seq<u64>, target: LinkHealth, n: int)
    requires
        0 <= n <= health.len(),
        health.len() == keys.len(),
    ensures
        first_min_with_health(health, keys, target, n) matches Some(i) ==> 0 <= i < n && health[i]
            == target && (forall|j: int|
            0 <= j < n && health[j] == target ==> keys[i] <= #[trigger] keys[j]),
        first_min_with_health(health, keys, target, n) is None ==> forall|j: int|
            0 <= j < n ==> #[trigger] health[j] != target,
    decreases n,
{
    if n > 0 {
        lemma_first_min_props(health, keys, target, n - 1);
    }
}

fn first_min_index(health: &[LinkHealth], keys: &[u64], target: LinkHealth) -> (r: Option<usize>)
    requires
        health@.len() == keys@.len(),
    ensures
        r matches Some(i) ==> first_min_with_health(health@, keys@, target, health@.len() as int)
            == Some(i as int),
        r is None ==> first_min_with_health(health@, keys@, target, health@.len() as int) is None,
{
    let n = health.len();
    let mut best: Option<usize> = None;
    let mut k: usize = 0;
    while k < n
        invariant
            n == health@.len(),
            n == keys@.len(),
            k <= n,
            best matches Some(i) ==> i < k && first_min_with_health(health@, keys@, target, k as int)
                == Some(i as int),
            best is None ==> first_min_with_health(health@, keys@, target, k as int) is None,
        decreases n - k,
    {
        if health[k] == target {
            match best {
                None => {
                    best = Some(k);
                },
                Some(i) => {
                    if keys[k] < keys[i] {
                        best = Some(k);
                    }
                },
            }
        }
        k = k + 1;
    }
    best
}

/// The index of the link to prefer (see [`spec_recommend`]); `rtt_keys`
/// orders the links by SRTT (an unmeasured link last).
pub fn recommend_healthiest_index(health: &[LinkHealth], rtt_keys: &[u64]) -> (r: Option<usize>)
    requires
        health@.len() == rtt_keys@.len(),
    ensures
        r matches Some(i) ==> spec_recommend(health@, rtt_keys@) == Some(i as int),
        r is None ==> spec_recommend(health@, rtt_keys@) is None,
{
    match first_min_index(health, rtt_keys, LinkHealth::Healthy) {
        Some(i) => Some(i),
        None => first_min_index(health, rtt_keys, LinkHealth::Degraded),
    }
}

/// The recommended link is healthy if any link is healthy, otherwise
/// degraded, and has the smallest key among the links of its health; a
/// disconnected, unstable or unmeasured link is never recommended.
pub proof fn lemma_recommendation_prefers_healthy(health: Seq<LinkHealth>, keys: Seq<u64>)
    requires
        health.len() == keys.len(),
    ensures
        spec_recommend(health, keys) matches Some(i) ==> 0 <= i < health.len() && (health[i]
            == LinkHealth::Healthy || health[i] == LinkHealth::Degraded) && (forall|j: int|
            0 <= j < health.len() && health[j] == health[i] ==> keys[i] <= #[trigger] keys[j]),
        spec_recommend(health, keys) matches Some(i) && health[i] == LinkHealth::Degraded
            ==> forall|j: int| 0 <= j < health.len() ==> #[trigger] health[j]
            != LinkHealth::Healthy,
        spec_recommend(health, keys) is None ==> forall|j: int|
            0 <= j < health.len() ==> #[trigger] health[j] != LinkHealth::Healthy && health[j]
                != LinkHealth::Degraded,
{
    lemma_first_min_props(health, keys, LinkHealth::Healthy, health.len() as int);
    lemma_first_min_props(health, keys, LinkHealth::Degraded, health.len() as int);
}

/// The names of the adapters that are not connected and have no entry among
/// the measured paths, in the order of the report.
pub open spec fn unlisted_disconnected(ifaces: Seq<NetworkInterface>, listed: Seq<Seq<char>>) -> Seq<
    Seq<char>,
>
    decreases ifaces.len(),
{
    if ifaces.len() == 0 {
        Seq::empty()
    } else {
        let before = unlisted_disconnected(ifaces.drop_last(), listed);
        let i = ifaces.last();
        if !i.connected && !listed.contains(i.name@) {
            before.push(i.name@)
        } else {
            before
        }
    }
}

/// The adapters added for diagnosis are exactly the disconnected adapters of
/// the report that are not measured paths: every name returned is that of an
/// adapter of the report that is not connected and is not among `listed`,
/// and every such adapter's name is returned.
pub proof fn law_unlisted_are_exactly_the_disconnected_unlisted_adapters(
    ifaces: Seq<NetworkInterface>,
    listed: Seq<Seq<char>>,
)
    ensures
        forall|j: int|
            #![trigger unlisted_disconnected(ifaces, listed)[j]]
            0 <= j < unlisted_disconnected(ifaces, listed).len() ==> {
                &&& !listed.contains(unlisted_disconnected(ifaces, listed)[j])
                &&& exists|i: int|
                    0 <= i < ifaces.len() && !(#[trigger] ifaces[i]).connected && ifaces[i].name@
                        == unlisted_disconnected(ifaces, listed)[j]
            },
        forall|i: int|
            0 <= i < ifaces.len() && !(#[trigger] ifaces[i]).connected && !listed.contains(
                ifaces[i].name@,
            ) ==> unlisted_disconnected(ifaces, listed).contains(ifaces[i].name@),
    decreases ifaces.len(),
{
    if ifaces.len() > 0 {
        let init = ifaces.drop_last();
        law_unlisted_are_exactly_the_disconnected_unlisted_adapters(init, listed);
        let before = unlisted_disconnected(init, listed);
        let all = unlisted_disconnected(ifaces, listed);
        assert forall|j: int| #![trigger all[j]] 0 <= j < all.len() implies {
            &&& !listed.contains(all[j])
            &&& exists|i: int|
                0 <= i < ifaces.len() && !(#[trigger] ifaces[i]).connected && ifaces[i].name@ == all[j]
        } by {
            if j < before.len() {
                assert(all[j] == before[j]);
                let i = choose|i: int|
                    0 <= i < init.len() && !(#[trigger] init[i]).connected && init[i].name@ == before[j];
                assert(ifaces[i] == init[i]);
            } else {
                assert(ifaces[ifaces.len() - 1] == ifaces.last());
            }
        }
        assert forall|i: int|
            0 <= i < ifaces.len() && !(#[trigger] ifaces[i]).connected && !listed.contains(
                ifaces[i].name@,
            ) implies all.contains(ifaces[i].name@) by {
            if i < init.len() {
                assert(ifaces[i] == init[i]);
                assert(before.contains(init[i].name@));
                let j = choose|j: int| 0 <= j < before.len() && before[j] == init[i].name@;
                assert(all[j] == before[j]);
            } else {
                assert(all[all.len() - 1] == ifaces[i].name@);
            }
        }
    }
}

/// The adapters to diagnose besides the measured paths: each adapter that
/// is not connected and is not among `path_names`, in the order of the
/// report, so that a broken link is reported even when it was never
/// registered as a path.
pub fn disconnected_without_path(report: &NetworkInterfaceReport, path_names: &Vec<String>) -> (names:
    Vec<String>)
    ensures
        views_of(names@) == unlisted_disconnected(report.interfaces@, views_of(path_names@)),
{
    let ifaces = &report.interfaces;
    let n = ifaces.len();
    let mut names: Vec<String> = Vec::new();
    let mut k: usize = 0;
    while k < n
        invariant
            n == ifaces@.len(),
            k <= n,
            views_of(names@) == unlisted_disconnected(
                ifaces@.subrange(0, k as int),
                views_of(path_names@),
            ),
        decreases n - k,
    {
        proof {
            assert(ifaces@.subrange(0, k + 1).drop_last() =~= ifaces@.subrange(0, k as int));
            assert(ifaces@.subrange(0, k + 1).last() == ifaces@[k as int]);
        }
        let iface = &ifaces[k];
        if !iface.connected && !contains_name(path_names, iface.name.as_str()) {
            let ghost before = views_of(names@);
            names.push(iface.name.clone());
            assert(views_of(names@) =~= before.push(iface.name@));
        }
        k = k + 1;
    }
    assert(ifaces@.subrange(0, n as int) =~= ifaces@);
    names
}

} // verus!
