//! Which detected adapters become paths of the multi-path manager (the
//! connected wired adapters, at most four, and every connected WiFi and
//! Bluetooth adapter), the kinds of device a path can lead to, and which
//! measured path is best (the lowest smoothed RTT). The RTT measurements
//! themselves are floating point and kept by the caller, which hands over a
//! key that orders them.

use vstd::prelude::*;

use crate::name_table::NameTable;
use crate::network_interfaces::{InterfaceKind, NetworkInterface, NetworkInterfaceReport};
use crate::text::{char_seq_lt, lemma_char_seq_lt_asymmetric, lemma_char_seq_lt_irreflexive, strictly_sorted};

verus! {

/// The most wired paths registered from detected adapters.
pub const MAX_WIRED_PATHS: usize = 4;

/// What a path leads to; a label only, path selection ignores it.
#[derive(Debug, Clone, Copy, PartialEq, Eq, Structural)]
pub enum DeviceKind {
    Router,
    Nas,
    ExternalStorage,
    Pc,
    Tablet,
    Phone,
    Tv,
    GameConsole,
    Wifi,
    Bluetooth,
    Other,
}

/// The registrations that detected adapters give, in order, and how many
/// wired ones were taken.
pub open spec fn detected_registrations(ifaces: Seq<NetworkInterface>) -> (Seq<(Seq<char>, DeviceKind)>, nat)
    decreases ifaces.len(),
{
    if ifaces.len() == 0 {
        (Seq::empty(), 0)
    } else {
        let (regs, wired) = detected_registrations(ifaces.drop_last());
        let i = ifaces.last();
        if !i.connected {
            (regs, wired)
        } else if i.kind == InterfaceKind::Ethernet {
            if wired < MAX_WIRED_PATHS {
                (regs.push((i.name@, DeviceKind::Other)), wired + 1)
            } else {
                (regs, wired)
            }
        } else if i.kind == InterfaceKind::Wifi {
            (regs.push((i.name@, DeviceKind::Wifi)), wired)
        } else if i.kind == InterfaceKind::Bluetooth {
            (regs.push((i.name@, DeviceKind::Bluetooth)), wired)
        } else {
            (regs, wired)
        }
    }
}

pub open spec fn registration_views(v: Seq<(String, DeviceKind)>) -> Seq<(Seq<char>, DeviceKind)> {
    v.map_values(|r: (String, DeviceKind)| (r.0@, r.1))
}

/// The paths to register for the detected adapters, in order: each
/// connected wired adapter as `Other` (the device behind it is unknown)
/// while fewer than four were taken, each connected WiFi adapter as `Wifi`
/// and each connected Bluetooth adapter as `Bluetooth`, with no cap on
/// those; disconnected and other adapters are skipped.
pub fn paths_to_register(report: &NetworkInterfaceReport) -> (regs: Vec<(String, DeviceKind)>)
    ensures
        registration_views(regs@) == detected_registrations(report.interfaces@).0,
{
    let ifaces = &report.interfaces;
    let n = ifaces.len();
    let mut regs: Vec<(String, DeviceKind)> = Vec::new();
    let mut wired: usize = 0;
    let mut k: usize = 0;
    while k < n
        invariant
            n == ifaces@.len(),
            k <= n,
            wired <= MAX_WIRED_PATHS,
            (registration_views(regs@), wired as nat) == detected_registrations(
                ifaces@.subrange(0, k as int),
            ),
        decreases n - k,
    {
        let ghost before = regs@;
        proof {
            assert(ifaces@.subrange(0, k + 1).drop_last() =~= ifaces@.subrange(0, k as int));
            assert(ifaces@.subrange(0, k + 1).last() == ifaces@[k as int]);
        }
        let iface = &ifaces[k];
        if iface.connected {
            match iface.kind {
                InterfaceKind::Ethernet => {
                    if wired < MAX_WIRED_PATHS {
                        regs.push((iface.name.clone(), DeviceKind::Other));
                        wired = wired + 1;
                        assert(registration_views(regs@) =~= registration_views(before).push(
                            (iface.name@, DeviceKind::Other),
                        ));
                    }
                },
                InterfaceKind::Wifi => {
                    regs.push((iface.name.clone(), DeviceKind::Wifi));
                    assert(registration_views(regs@) =~= registration_views(before).push(
                        (iface.name@, DeviceKind::Wifi),
                    ));
                },
                InterfaceKind::Bluetooth => {
                    regs.push((iface.name.clone(), DeviceKind::Bluetooth));
                    assert(registration_views(regs@) =~= registration_views(before).push(
                        (iface.name@, DeviceKind::Bluetooth),
                    ));
                },
                InterfaceKind::Other => {},
            }
        }
        k = k + 1;
    }
    assert(ifaces@.subrange(0, n as int) =~= ifaces@);
    regs
}

/// Every registration taken from detected adapters names a connected
/// adapter of the report, with the kind that adapter's medium gives: a
/// wired adapter as `Other`, a WiFi one as `Wifi`, a Bluetooth one as
/// `Bluetooth`. A disconnected adapter never becomes a path.
pub proof fn law_registered_paths_are_connected_adapters(ifaces: Seq<NetworkInterface>)
    ensures
        forall|j: int|
            #![trigger detected_registrations(ifaces).0[j]]
            0 <= j < detected_registrations(ifaces).0.len() ==> exists|i: int|
                0 <= i < ifaces.len() && {
                    let r = detected_registrations(ifaces).0[j];
                    &&& (#[trigger] ifaces[i]).connected
                    &&& ifaces[i].name@ == r.0
                    &&& ifaces[i].kind == InterfaceKind::Ethernet ==> r.1 == DeviceKind::Other
                    &&& ifaces[i].kind == InterfaceKind::Wifi ==> r.1 == DeviceKind::Wifi
                    &&& ifaces[i].kind == InterfaceKind::Bluetooth ==> r.1 == DeviceKind::Bluetooth
                    &&& ifaces[i].kind != InterfaceKind::Other
                },
    decreases ifaces.len(),
{
    if ifaces.len() > 0 {
        let init = ifaces.drop_last();
        law_registered_paths_are_connected_adapters(init);
        let before = detected_registrations(init).0;
        let all = detected_registrations(ifaces).0;
        assert forall|j: int| #![trigger all[j]] 0 <= j < all.len() implies exists|i: int|
            0 <= i < ifaces.len() && {
                let r = all[j];
                &&& (#[trigger] ifaces[i]).connected
                &&& ifaces[i].name@ == r.0
                &&& ifaces[i].kind == InterfaceKind::Ethernet ==> r.1 == DeviceKind::Other
                &&& ifaces[i].kind == InterfaceKind::Wifi ==> r.1 == DeviceKind::Wifi
                &&& ifaces[i].kind == InterfaceKind::Bluetooth ==> r.1 == DeviceKind::Bluetooth
                &&& ifaces[i].kind != InterfaceKind::Other
            } by {
            if j < before.len() {
                assert(all[j] == before[j]);
                let i = choose|i: int|
                    0 <= i < init.len() && {
                        let r = before[j];
                        &&& (#[trigger] init[i]).connected
                        &&& init[i].name@ == r.0
                        &&& init[i].kind == InterfaceKind::Ethernet ==> r.1 == DeviceKind::Other
                        &&& init[i].kind == InterfaceKind::Wifi ==> r.1 == DeviceKind::Wifi
                        &&& init[i].kind == InterfaceKind::Bluetooth ==> r.1 == DeviceKind::Bluetooth
                        &&& init[i].kind != InterfaceKind::Other
                    };
                assert(ifaces[i] == init[i]);
            } else {
                assert(ifaces[ifaces.len() - 1] == ifaces.last());
            }
        }
    }
}

proof fn lemma_registered_names(m: Map<Seq<char>, PathInfo>, regs: Seq<(Seq<char>, DeviceKind)>)
    ensures
        forall|p: Seq<char>|
            #[trigger] after_registrations(m, regs).dom().contains(p) ==> m.dom().contains(p)
                || exists|j: int| 0 <= j < regs.len() && (#[trigger] regs[j]).0 == p,
    decreases regs.len(),
{
    if regs.len() > 0 {
        let init = regs.drop_last();
        lemma_registered_names(m, init);
        assert forall|p: Seq<char>|
            #[trigger] after_registrations(m, regs).dom().contains(p) implies m.dom().contains(p)
                || exists|j: int| 0 <= j < regs.len() && (#[trigger] regs[j]).0 == p by {
            if p != regs.last().0 {
                assert(after_registrations(m, init).dom().contains(p));
                if !m.dom().contains(p) {
                    let j = choose|j: int| 0 <= j < init.len() && (#[trigger] init[j]).0 == p;
                    assert(regs[j] == init[j]);
                }
            } else {
                assert(regs[regs.len() - 1] == regs.last());
            }
        }
    }
}

/// Every path of the registry built from detected adapters is the name of a
/// connected adapter of the report.
pub proof fn law_detected_registry_holds_only_connected_adapters(ifaces: Seq<NetworkInterface>)
    ensures
        forall|p: Seq<char>|
            #[trigger] after_registrations(
                Map::<Seq<char>, PathInfo>::empty(),
                detected_registrations(ifaces).0,
            ).dom().contains(p) ==> exists|i: int|
                0 <= i < ifaces.len() && (#[trigger] ifaces[i]).connected && ifaces[i].name@ == p,
{
    let regs = detected_registrations(ifaces).0;
    lemma_registered_names(Map::<Seq<char>, PathInfo>::empty(), regs);
    law_registered_paths_are_connected_adapters(ifaces);
    assert forall|p: Seq<char>|
        #[trigger] after_registrations(Map::<Seq<char>, PathInfo>::empty(), regs).dom().contains(
            p,
        ) implies exists|i: int|
        0 <= i < ifaces.len() && (#[trigger] ifaces[i]).connected && ifaces[i].name@ == p by {
        let j = choose|j: int| 0 <= j < regs.len() && (#[trigger] regs[j]).0 == p;
        assert(regs[j] == detected_registrations(ifaces).0[j]);
    }
}

/// At most four wired paths are taken from detected adapters, and the count
/// of registrations never exceeds the number of adapters.
pub proof fn lemma_wired_paths_capped(ifaces: Seq<NetworkInterface>)
    ensures
        detected_registrations(ifaces).1 <= MAX_WIRED_PATHS,
        detected_registrations(ifaces).0.len() <= ifaces.len(),
    decreases ifaces.len(),
{
    if ifaces.len() > 0 {
        lemma_wired_paths_capped(ifaces.drop_last());
    }
}

/// Among the first `n` keys, the index of the first smallest one that is
/// present, if any.
pub open spec fn first_min_present(keys: Seq<Option<u64>>, n: int) -> Option<int>
    decreases n,
{
    if n <= 0 {
        None
    } else {
        let prev = first_min_present(keys, n - 1);
        match keys[n - 1] {
            None => prev,
            Some(k) => match prev {
                None => Some(n - 1),
                Some(i) => if k < keys[i]->0 {
                    Some(n - 1)
                } else {
                    Some(i)
                },
            },
        }
    }
}

proof fn lemma_first_min_present_props(keys: Seq<Option<u64>>, n: int)
    requires
        0 <= n <= keys.len(),
    ensures
        first_min_present(keys, n) matches Some(i) ==> 0 <= i < n && keys[i] is Some && (forall|
            j: int,
        | 0 <= j < n && keys[j] is Some ==> keys[i]->0 <= (#[trigger] keys[j])->0),
        first_min_present(keys, n) is None ==> forall|j: int| 0 <= j < n ==> (#[trigger] keys[j]) is None,
    decreases n,
{
    if n > 0 {
        lemma_first_min_present_props(keys, n - 1);
    }
}

/// The best path: the first of the measured paths (key present) with the
/// smallest key; `None` when no path is measured.
pub fn best_path_index(keys: &[Option<u64>]) -> (r: Option<usize>)
    ensures
        r matches Some(i) ==> first_min_present(keys@, keys@.len() as int) == Some(i as int),
        r is None ==> first_min_present(keys@, keys@.len() as int) is None,
{
    let n = keys.len();
    let mut best: Option<usize> = None;
    let mut k: usize = 0;
    while k < n
        invariant
            n == keys@.len(),
            k <= n,
            best matches Some(i) ==> i < k && first_min_present(keys@, k as int) == Some(i as int)
                && keys@[i as int] is Some,
            best is None ==> first_min_present(keys@, k as int) is None,
        decreases n - k,
    {
        match keys[k] {
            None => {},
            Some(x) => {
                match best {
                    None => {
                        best = Some(k);
                    },
                    Some(i) => {
                        let y = keys[i].unwrap();
                        if x < y {
                            best = Some(k);
                        }
                    },
                }
            },
        }
        k = k + 1;
    }
    best
}

/// The best path is measured and has the smallest key of all measured
/// paths; there is none exactly when no path is measured.
pub proof fn lemma_best_path_is_lowest(keys: Seq<Option<u64>>)
    ensures
        first_min_present(keys, keys.len() as int) matches Some(i) ==> 0 <= i < keys.len()
            && keys[i] is Some && forall|j: int|
            0 <= j < keys.len() && keys[j] is Some ==> keys[i]->0 <= (#[trigger] keys[j])->0,
        first_min_present(keys, keys.len() as int) is None <==> forall|j: int|
            0 <= j < keys.len() ==> (#[trigger] keys[j]) is None,
{
    lemma_first_min_present_props(keys, keys.len() as int);
    if first_min_present(keys, keys.len() as int) is Some {
        let i = first_min_present(keys, keys.len() as int)->0;
        assert(keys[i] is Some);
    }
}

/// What the registry holds of a path: the kind of device it leads to, and
/// the key of its smoothed RTT (ordered as the RTTs are; `None` before the
/// first sample).
#[derive(Debug, Clone, Copy, PartialEq, Eq, Structural)]
pub struct PathInfo {
    pub kind: DeviceKind,
    pub rtt_key: Option<u64>,
}

/// The registry after registering `name` as leading to `kind`: a new path
/// starts unmeasured; a known path keeps its RTT key and takes the new kind.
pub open spec fn after_registration(
    m: Map<Seq<char>, PathInfo>,
    name: Seq<char>,
    kind: DeviceKind,
) -> Map<Seq<char>, PathInfo> {
    if m.dom().contains(name) {
        m.insert(name, PathInfo { kind, rtt_key: m[name].rtt_key })
    } else {
        m.insert(name, PathInfo { kind, rtt_key: None })
    }
}

/// The registry after registering each of `regs` in turn.
pub open spec fn after_registrations(
    m: Map<Seq<char>, PathInfo>,
    regs: Seq<(Seq<char>, DeviceKind)>,
) -> Map<Seq<char>, PathInfo>
    decreases regs.len(),
{
    if regs.len() == 0 {
        m
    } else {
        after_registration(after_registrations(m, regs.drop_last()), regs.last().0, regs.last().1)
    }
}

/// The registry after a new RTT key for `name`; an unknown path is
/// registered on the way, as leading to an unknown device.
pub open spec fn after_rtt_key(m: Map<Seq<char>, PathInfo>, name: Seq<char>, key: u64) -> Map<
    Seq<char>,
    PathInfo,
> {
    let kind = if m.dom().contains(name) {
        m[name].kind
    } else {
        DeviceKind::Other
    };
    m.insert(name, PathInfo { kind, rtt_key: Some(key) })
}

/// Whether `best` is a measured path with the smallest RTT key, and of the
/// paths with that key the first by name.
pub open spec fn is_best_path(m: Map<Seq<char>, PathInfo>, best: Seq<char>) -> bool {
    &&& m.dom().contains(best)
    &&& m[best].rtt_key is Some
    &&& forall|p: Seq<char>|
        #![trigger m.dom().contains(p)]
        m.dom().contains(p) && m[p].rtt_key is Some ==> m[best].rtt_key->0 <= m[p].rtt_key->0
    &&& forall|p: Seq<char>|
        #![trigger m.dom().contains(p)]
        m.dom().contains(p) && m[p].rtt_key == m[best].rtt_key ==> !char_seq_lt(p, best)
}

/// The registered paths: for each name, the kind of device it leads to and
/// the key of its smoothed RTT. The RTT measurements themselves stay with
/// the caller, which reports each new smoothed RTT as a key.
pub struct PathRegistry {
    paths: NameTable<PathInfo>,
}

impl View for PathRegistry {
    type V = Map<Seq<char>, PathInfo>;

    closed spec fn view(&self) -> Map<Seq<char>, PathInfo> {
        self.paths.view()
    }
}

impl PathRegistry {
    pub closed spec fn wf(&self) -> bool {
        self.paths.wf()
    }

    pub fn new() -> (r: Self)
        ensures
            r.wf(),
            r@ == Map::<Seq<char>, PathInfo>::empty(),
    {
        PathRegistry { paths: NameTable::new() }
    }

    /// Registers `name` as leading to `kind`. Registering a known path
    /// again only changes its kind; its RTT key stays.
    pub fn register_device_path(&mut self, name: &str, kind: DeviceKind)
        requires
            old(self).wf(),
        ensures
            final(self).wf(),
            final(self)@ == after_registration(old(self)@, name@, kind),
    {
        let rtt_key = match self.paths.get(name) {
            Some(info) => info.rtt_key,
            None => None,
        };
        self.paths.insert(name, PathInfo { kind, rtt_key });
    }

    /// Registers `name` as leading to an unknown device; a path that is
    /// already registered is left as it is.
    pub fn register_path(&mut self, name: &str)
        requires
            old(self).wf(),
        ensures
            final(self).wf(),
            old(self)@.dom().contains(name@) ==> final(self)@ == old(self)@,
            !old(self)@.dom().contains(name@) ==> final(self)@ == old(self)@.insert(
                name@,
                PathInfo { kind: DeviceKind::Other, rtt_key: None },
            ),
    {
        if !self.paths.contains(name) {
            self.paths.insert(name, PathInfo { kind: DeviceKind::Other, rtt_key: None });
        }
    }

    /// The registry for detected adapters: the paths of
    /// [`paths_to_register`], registered in order.
    pub fn from_detected_interfaces(report: &NetworkInterfaceReport) -> (r: Self)
        ensures
            r.wf(),
            r@ == after_registrations(
                Map::<Seq<char>, PathInfo>::empty(),
                detected_registrations(report.interfaces@).0,
            ),
    {
        let regs = paths_to_register(report);
        let mut reg = PathRegistry::new();
        let n = regs.len();
        let mut k: usize = 0;
        while k < n
            invariant
                n == regs@.len(),
                k <= n,
                reg.wf(),
                registration_views(regs@) == detected_registrations(report.interfaces@).0,
                reg@ == after_registrations(
                    Map::<Seq<char>, PathInfo>::empty(),
                    registration_views(regs@).subrange(0, k as int),
                ),
            decreases n - k,
        {
            proof {
                let rv = registration_views(regs@);
                assert(rv.subrange(0, k + 1).drop_last() =~= rv.subrange(0, k as int));
                assert(rv.subrange(0, k + 1).last() == (regs@[k as int].0@, regs@[k as int].1));
            }
            reg.register_device_path(regs[k].0.as_str(), regs[k].1);
            k = k + 1;
        }
        proof {
            assert(registration_views(regs@).subrange(0, n as int) =~= registration_views(regs@));
        }
        reg
    }

    /// Records the key of the latest smoothed RTT of `name`, registering
    /// an unknown path on the way.
    pub fn set_rtt_key(&mut self, name: &str, key: u64)
        requires
            old(self).wf(),
        ensures
            final(self).wf(),
            final(self)@ == after_rtt_key(old(self)@, name@, key),
    {
        let kind = match self.paths.get(name) {
            Some(info) => info.kind,
            None => DeviceKind::Other,
        };
        self.paths.insert(name, PathInfo { kind, rtt_key: Some(key) });
    }

    /// The number of registered paths.
    pub fn path_count(&self) -> (n: usize)
        requires
            self.wf(),
        ensures
            n == self@.dom().len(),
            self@.dom().finite(),
    {
        self.paths.len()
    }

    /// The path with the lowest RTT key (see [`is_best_path`]); `None` when
    /// no registered path has been measured.
    pub fn best_path(&self) -> (r: Option<String>)
        requires
            self.wf(),
        ensures
            r matches Some(n) ==> is_best_path(self@, n@),
            r is None <==> forall|p: Seq<char>|
                #![trigger self@.dom().contains(p)]
                self@.dom().contains(p) ==> self@[p].rtt_key is None,
    {
        let names = self.paths.names();
        let ghost nv = names@.map_values(|s: String| s@);
        let n = names.len();
        let mut best: Option<(usize, u64)> = None;
        let mut k: usize = 0;
        while k < n
            invariant
                n == names@.len(),
                nv == names@.map_values(|s: String| s@),
                strictly_sorted(nv),
                forall|p: Seq<char>| nv.contains(p) <==> self@.dom().contains(p),
                self.wf(),
                k <= n,
                best matches Some((b, bk)) ==> b < k && self@[nv[b as int]].rtt_key == Some(bk),
                best matches Some((b, bk)) ==> forall|j: int|
                    0 <= j < k && (#[trigger] self@[nv[j]]).rtt_key is Some ==> bk
                        <= self@[nv[j]].rtt_key->0,
                best matches Some((b, bk)) ==> forall|j: int|
                    0 <= j < b ==> (#[trigger] self@[nv[j]]).rtt_key != Some(bk),
                best is None ==> forall|j: int| 0 <= j < k ==> (#[trigger] self@[nv[j]]).rtt_key is None,
            decreases n - k,
        {
            assert(nv[k as int] == names@[k as int]@);
            assert(nv.contains(nv[k as int]));
            let info = self.paths.get(names[k].as_str());
            match info {
                Some(pi) => {
                    match pi.rtt_key {
                        Some(x) => {
                            match best {
                                None => {
                                    best = Some((k, x));
                                },
                                Some((b, bk)) => {
                                    if x < bk {
                                        best = Some((k, x));
                                    }
                                },
                            }
                        },
                        None => {},
                    }
                },
                None => {},
            }
            k = k + 1;
        }
        match best {
            None => {
                proof {
                    assert forall|p: Seq<char>| #![trigger self@.dom().contains(p)]
                        self@.dom().contains(p) implies self@[p].rtt_key is None by {
                        assert(nv.contains(p));
                        let j = choose|j: int| 0 <= j < nv.len() && nv[j] == p;
                        assert(self@[nv[j]].rtt_key is None);
                    }
                }
                None
            },
            Some((b, bk)) => {
                let r = names[b].clone();
                proof {
                    let best_name = nv[b as int];
                    assert(r@ == best_name);
                    assert(nv.contains(best_name));
                    assert forall|p: Seq<char>| #![trigger self@.dom().contains(p)]
                        self@.dom().contains(p) && self@[p].rtt_key is Some implies bk
                        <= self@[p].rtt_key->0 by {
                        assert(nv.contains(p));
                        let j = choose|j: int| 0 <= j < nv.len() && nv[j] == p;
                        assert(self@[nv[j]].rtt_key is Some);
                    }
                    assert forall|p: Seq<char>| #![trigger self@.dom().contains(p)]
                        self@.dom().contains(p) && self@[p].rtt_key == self@[best_name].rtt_key
                        implies !char_seq_lt(p, best_name) by {
                        assert(nv.contains(p));
                        let j = choose|j: int| 0 <= j < nv.len() && nv[j] == p;
                        assert(self@[nv[j]].rtt_key == Some(bk));
                        if j < b {
                        } else if j == b {
                            lemma_char_seq_lt_irreflexive(p);
                        } else {
                            assert(char_seq_lt(nv[b as int], nv[j]));
                            lemma_char_seq_lt_asymmetric(nv[b as int], nv[j]);
                        }
                    }
                    assert(exists|p: Seq<char>| self@.dom().contains(p) && self@[p].rtt_key is Some);
                }
                Some(r)
            },
        }
    }

    /// The registered paths as (name, kind, RTT key), ordered by name.
    pub fn registered_paths(&self) -> (v: Vec<(String, DeviceKind, Option<u64>)>)
        requires
            self.wf(),
        ensures
            forall|p: Seq<char>|
                #![trigger self@.dom().contains(p)]
                self@.dom().contains(p) <==> exists|j: int|
                    0 <= j < v@.len() && (#[trigger] v@[j]).0@ == p,
            forall|j: int|
                0 <= j < v@.len() ==> self@.dom().contains((#[trigger] v@[j]).0@) && self@[v@[j].0@]
                    == (PathInfo { kind: v@[j].1, rtt_key: v@[j].2 }),
            strictly_sorted(v@.map_values(|e: (String, DeviceKind, Option<u64>)| e.0@)),
    {
        let names = self.paths.names();
        let ghost nv = names@.map_values(|s: String| s@);
        let n = names.len();
        let mut v: Vec<(String, DeviceKind, Option<u64>)> = Vec::new();
        let mut k: usize = 0;
        while k < n
            invariant
                n == names@.len(),
                nv == names@.map_values(|s: String| s@),
                strictly_sorted(nv),
                forall|p: Seq<char>| nv.contains(p) <==> self@.dom().contains(p),
                self.wf(),
                k <= n,
                v@.len() == k,
                forall|j: int| 0 <= j < k ==> (#[trigger] v@[j]).0@ == nv[j],
                forall|j: int|
                    0 <= j < k ==> self@[nv[j]] == (PathInfo {
                        kind: (#[trigger] v@[j]).1,
                        rtt_key: v@[j].2,
                    }),
            decreases n - k,
        {
            assert(nv[k as int] == names@[k as int]@);
            assert(nv.contains(nv[k as int]));
            let info = self.paths.get(names[k].as_str());
            let pi = info.unwrap();
            v.push((names[k].clone(), pi.kind, pi.rtt_key));
            k = k + 1;
        }
        proof {
            assert(v@.map_values(|e: (String, DeviceKind, Option<u64>)| e.0@) =~= nv);
            assert forall|p: Seq<char>| #![trigger self@.dom().contains(p)]
                self@.dom().contains(p) implies exists|j: int|
                    0 <= j < v@.len() && (#[trigger] v@[j]).0@ == p by {
                assert(nv.contains(p));
                let j = choose|j: int| 0 <= j < nv.len() && nv[j] == p;
                assert(v@[j].0@ == p);
            }
            assert forall|j: int| 0 <= j < v@.len() implies self@.dom().contains(
                (#[trigger] v@[j]).0@,
            ) by {
                assert(nv.contains(nv[j]));
            }
        }
        v
    }
}

impl Default for PathRegistry {
    fn default() -> (r: Self)
        ensures
            r.wf(),
            r@ == Map::<Seq<char>, PathInfo>::empty(),
    {
        PathRegistry::new()
    }
}

} // verus!
