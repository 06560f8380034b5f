//! The network adapters of the machine, as the text that PowerShell's
//! `Get-NetAdapter` prints (one adapter per line, `Name||Status||
//! PhysicalMediaType[||Speed]`), parsed into wired, WiFi and Bluetooth
//! adapters with their link state. Running the command is left to the
//! caller; this module holds the parser and the counts over its result.

use vstd::prelude::*;
use vstd::string::StrSliceExecFns;

use crate::text::{
    chars_of, contains_chars, contains_sub, lines, lines_ranges, lowercase, parse_u64,
    parse_u64_range, range_is_up_ignoring_ascii_case, range_pieces, is_up_ignoring_ascii_case,
    split_pat, split_range, to_lowercase, trim, trim_range,
};

verus! {

#[derive(Debug, Clone, Copy, PartialEq, Eq, Structural)]
pub enum InterfaceKind {
    Ethernet,
    Wifi,
    Bluetooth,
    Other,
}

#[derive(Debug, Clone)]
pub struct NetworkInterface {
    pub name: String,
    pub kind: InterfaceKind,
    pub connected: bool,
    /// The link speed in bits per second, when the adapter is connected and
    /// the OS reports a positive one; `None` otherwise.
    pub link_speed_bps: Option<u64>,
}

#[derive(Debug, Clone, Default)]
pub struct NetworkInterfaceReport {
    pub interfaces: Vec<NetworkInterface>,
}

/// An adapter as plain values.
pub struct InterfaceRecord {
    pub name: Seq<char>,
    pub kind: InterfaceKind,
    pub connected: bool,
    pub link_speed_bps: Option<u64>,
}

pub open spec fn interface_record(i: NetworkInterface) -> InterfaceRecord {
    InterfaceRecord {
        name: i.name@,
        kind: i.kind,
        connected: i.connected,
        link_speed_bps: i.link_speed_bps,
    }
}

/// The adapter kind named by a lowercased `PhysicalMediaType`: `802.11` is
/// WiFi, `802.3` wired Ethernet, `bluetooth` Bluetooth.
pub open spec fn media_kind(lower: Seq<char>) -> InterfaceKind {
    if contains_sub(lower, "802.11"@) || contains_sub(lower, "native 802.11"@) {
        InterfaceKind::Wifi
    } else if contains_sub(lower, "802.3"@) {
        InterfaceKind::Ethernet
    } else if contains_sub(lower, "bluetooth"@) {
        InterfaceKind::Bluetooth
    } else {
        InterfaceKind::Other
    }
}

/// The optional fourth field: a positive decimal link speed, else `None`.
/// It counts only for a connected adapter; a disconnected one has no link
/// speed.
pub open spec fn link_speed_field(parts: Seq<Seq<char>>) -> Option<u64> {
    if parts.len() > 3 {
        match parse_u64(trim(parts[3])) {
            Some(v) => if v > 0 {
                Some(v)
            } else {
                None
            },
            None => None,
        }
    } else {
        None
    }
}

/// The adapter that one line describes, or `None` for a line that is blank
/// or has fewer than three `||`-separated fields.
pub open spec fn parse_adapter_line(line: Seq<char>) -> Option<InterfaceRecord> {
    let t = trim(line);
    let parts = split_pat(t, "||"@);
    if t.len() == 0 || parts.len() < 3 {
        None
    } else {
        Some(
            InterfaceRecord {
                name: trim(parts[0]),
                kind: media_kind(lowercase(trim(parts[2]))),
                connected: is_up_ignoring_ascii_case(trim(parts[1])),
                link_speed_bps: if is_up_ignoring_ascii_case(trim(parts[1])) {
                    link_speed_field(parts)
                } else {
                    None
                },
            },
        )
    }
}

/// The adapters that a sequence of lines describes, in order.
pub open spec fn parse_adapter_lines(ls: Seq<Seq<char>>) -> Seq<InterfaceRecord>
    decreases ls.len(),
{
    if ls.len() == 0 {
        Seq::empty()
    } else {
        let before = parse_adapter_lines(ls.drop_last());
        match parse_adapter_line(ls.last()) {
            Some(r) => before.push(r),
            None => before,
        }
    }
}

/// The adapters that `Get-NetAdapter` output describes.
pub open spec fn spec_parse_netadapter_output(output: Seq<char>) -> Seq<InterfaceRecord> {
    parse_adapter_lines(lines(output))
}

/// How many adapters of the given kind are connected.
pub open spec fn connected_count(ifaces: Seq<NetworkInterface>, kind: InterfaceKind) -> nat
    decreases ifaces.len(),
{
    if ifaces.len() == 0 {
        0
    } else {
        connected_count(ifaces.drop_last(), kind) + if ifaces.last().kind == kind
            && ifaces.last().connected {
            1nat
        } else {
            0nat
        }
    }
}

proof fn lemma_connected_count_bound(ifaces: Seq<NetworkInterface>, kind: InterfaceKind)
    ensures
        connected_count(ifaces, kind) <= ifaces.len(),
    decreases ifaces.len(),
{
    if ifaces.len() > 0 {
        lemma_connected_count_bound(ifaces.drop_last(), kind);
    }
}

proof fn lemma_connected_count_positive(ifaces: Seq<NetworkInterface>, kind: InterfaceKind)
    ensures
        connected_count(ifaces, kind) > 0 <==> exists|i: int|
            0 <= i < ifaces.len() && (#[trigger] ifaces[i]).kind == kind && ifaces[i].connected,
    decreases ifaces.len(),
{
    if ifaces.len() > 0 {
        let init = ifaces.drop_last();
        lemma_connected_count_positive(init, kind);
        if exists|i: int|
            0 <= i < ifaces.len() && (#[trigger] ifaces[i]).kind == kind && ifaces[i].connected {
            let i = choose|i: int|
                0 <= i < ifaces.len() && (#[trigger] ifaces[i]).kind == kind
                    && ifaces[i].connected;
            if i < ifaces.len() - 1 {
                assert(init[i] == ifaces[i]);
            }
        }
        if exists|i: int|
            0 <= i < init.len() && (#[trigger] init[i]).kind == kind && init[i].connected {
            let i = choose|i: int|
                0 <= i < init.len() && (#[trigger] init[i]).kind == kind && init[i].connected;
            assert(ifaces[i] == init[i]);
        }
    }
}

/// A line of `Get-NetAdapter` output with at least three `||`-separated
/// fields describes an adapter named by its trimmed first field, which is
/// connected exactly when its trimmed status field reads `Up` (any ASCII
/// case): `Disabled`, `Not Present` or `Disconnected` are not connected,
/// and an adapter that is not connected has no link speed. A blank line or
/// one with fewer fields describes no adapter.
pub proof fn law_adapter_connected_exactly_when_status_is_up(line: Seq<char>)
    ensures
        ({
            let t = trim(line);
            let parts = split_pat(t, "||"@);
            if t.len() > 0 && parts.len() >= 3 {
                &&& parse_adapter_line(line) is Some
                &&& parse_adapter_line(line)->0.name == trim(parts[0])
                &&& parse_adapter_line(line)->0.connected <==> {
                    let status = trim(parts[1]);
                    status.len() == 2 && (status[0] == 'u' || status[0] == 'U') && (status[1] == 'p'
                        || status[1] == 'P')
                }
                &&& !parse_adapter_line(line)->0.connected ==> parse_adapter_line(line)->0.link_speed_bps is None
            } else {
                parse_adapter_line(line) is None
            }
        }),
{
}

proof fn lemma_records_come_from_lines(ls: Seq<Seq<char>>)
    ensures
        forall|k: int|
            #![trigger parse_adapter_lines(ls)[k]]
            0 <= k < parse_adapter_lines(ls).len() ==> exists|j: int|
                0 <= j < ls.len() && #[trigger] parse_adapter_line(ls[j]) == Some(
                    parse_adapter_lines(ls)[k],
                ),
    decreases ls.len(),
{
    if ls.len() > 0 {
        let init = ls.drop_last();
        lemma_records_come_from_lines(init);
        let before = parse_adapter_lines(init);
        let all = parse_adapter_lines(ls);
        assert forall|k: int| #![trigger all[k]] 0 <= k < all.len() implies exists|j: int|
            0 <= j < ls.len() && #[trigger] parse_adapter_line(ls[j]) == Some(all[k]) by {
            if k < before.len() {
                assert(all[k] == before[k]);
                let j = choose|j: int|
                    0 <= j < init.len() && #[trigger] parse_adapter_line(init[j]) == Some(before[k]);
                assert(ls[j] == init[j]);
                assert(parse_adapter_line(ls[j]) == Some(all[k]));
            } else {
                assert(parse_adapter_line(ls[ls.len() - 1]) == Some(all[k]));
            }
        }
    }
}

/// Every adapter parsed from `Get-NetAdapter` output comes from one of its
/// lines with at least three fields: it is named by the trimmed first field
/// and is connected exactly when the trimmed status field reads `Up` (any
/// ASCII case).
pub proof fn law_parsed_adapters_connected_exactly_when_up(output: Seq<char>)
    ensures
        forall|k: int|
            #![trigger spec_parse_netadapter_output(output)[k]]
            0 <= k < spec_parse_netadapter_output(output).len() ==> exists|j: int|
                0 <= j < lines(output).len() && {
                    let parts = split_pat(trim(#[trigger] lines(output)[j]), "||"@);
                    &&& parts.len() >= 3
                    &&& spec_parse_netadapter_output(output)[k].name == trim(parts[0])
            &&& spec_parse_netadapter_output(output)[k].connected <==> {
                let status = trim(parts[1]);
                status.len() == 2 && (status[0] == 'u' || status[0] == 'U') && (status[1] == 'p'
                    || status[1] == 'P')
            }
                },
{
    let ls = lines(output);
    lemma_records_come_from_lines(ls);
    assert forall|k: int|
        #![trigger spec_parse_netadapter_output(output)[k]]
        0 <= k < spec_parse_netadapter_output(output).len() implies exists|j: int|
        0 <= j < lines(output).len() && {
            let parts = split_pat(trim(#[trigger] lines(output)[j]), "||"@);
            &&& parts.len() >= 3
            &&& spec_parse_netadapter_output(output)[k].name == trim(parts[0])
            &&& spec_parse_netadapter_output(output)[k].connected <==> {
                let status = trim(parts[1]);
                status.len() == 2 && (status[0] == 'u' || status[0] == 'U') && (status[1] == 'p'
                    || status[1] == 'P')
            }
        } by {
        let j = choose|j: int|
            0 <= j < ls.len() && #[trigger] parse_adapter_line(ls[j]) == Some(
                parse_adapter_lines(ls)[k],
            );
        law_adapter_connected_exactly_when_status_is_up(ls[j]);
    }
}

impl NetworkInterfaceReport {
    fn count_connected(&self, kind: InterfaceKind) -> (n: usize)
        ensures
            n == connected_count(self.interfaces@, kind),
    {
        let len = self.interfaces.len();
        let mut n: usize = 0;
        let mut i: usize = 0;
        while i < len
            invariant
                len == self.interfaces@.len(),
                i <= len,
                n == connected_count(self.interfaces@.subrange(0, i as int), kind),
            decreases len - i,
        {
            proof {
                lemma_connected_count_bound(self.interfaces@.subrange(0, i as int), kind);
                assert(self.interfaces@.subrange(0, i + 1).drop_last() =~= self.interfaces@.subrange(
                    0,
                    i as int,
                ));
            }
            if self.interfaces[i].kind == kind && self.interfaces[i].connected {
                n = n + 1;
            }
            i = i + 1;
        }
        assert(self.interfaces@.subrange(0, len as int) =~= self.interfaces@);
        n
    }

    /// How many wired Ethernet adapters are connected.
    pub fn wired_connected_count(&self) -> (n: usize)
        ensures
            n == connected_count(self.interfaces@, InterfaceKind::Ethernet),
    {
        self.count_connected(InterfaceKind::Ethernet)
    }

    /// Whether some WiFi adapter is connected.
    pub fn wifi_connected(&self) -> (r: bool)
        ensures
            r == exists|i: int|
                0 <= i < self.interfaces@.len() && (#[trigger] self.interfaces@[i]).kind
                    == InterfaceKind::Wifi && self.interfaces@[i].connected,
    {
        proof {
            lemma_connected_count_positive(self.interfaces@, InterfaceKind::Wifi);
        }
        self.count_connected(InterfaceKind::Wifi) > 0
    }

    /// How many WiFi adapters are connected.
    pub fn wifi_connected_count(&self) -> (n: usize)
        ensures
            n == connected_count(self.interfaces@, InterfaceKind::Wifi),
    {
        self.count_connected(InterfaceKind::Wifi)
    }

    /// How many Bluetooth network adapters are connected.
    pub fn bluetooth_connected_count(&self) -> (n: usize)
        ensures
            n == connected_count(self.interfaces@, InterfaceKind::Bluetooth),
    {
        self.count_connected(InterfaceKind::Bluetooth)
    }
}

/// The kind named by a `PhysicalMediaType` value.
fn classify_media(media: &str) -> (k: InterfaceKind)
    ensures
        k == media_kind(lowercase(media@)),
{
    let lower = to_lowercase(media);
    classify_lowercased_media(lower.as_str())
}

/// The kind named by an already lowercased `PhysicalMediaType` value (see
/// [`media_kind`]).
pub fn classify_lowercased_media(lower: &str) -> (k: InterfaceKind)
    ensures
        k == media_kind(lower@),
{
    let lv = chars_of(lower);
    if contains_chars(&lv, &chars_of("802.11")) || contains_chars(&lv, &chars_of("native 802.11")) {
        InterfaceKind::Wifi
    } else if contains_chars(&lv, &chars_of("802.3")) {
        InterfaceKind::Ethernet
    } else if contains_chars(&lv, &chars_of("bluetooth")) {
        InterfaceKind::Bluetooth
    } else {
        InterfaceKind::Other
    }
}

/// Parses one line, given as the range `a..b` of `v` (the characters of
/// `output`).
fn parse_line_range(output: &str, v: &Vec<char>, a: usize, b: usize) -> (r: Option<NetworkInterface>)
    requires
        v@ == output@,
        a <= b <= v@.len(),
    ensures
        match (r, parse_adapter_line(v@.subrange(a as int, b as int))) {
            (Some(i), Some(rec)) => interface_record(i) == rec,
            (None, None) => true,
            _ => false,
        },
{
    let (ta, tb) = trim_range(v, a, b);
    if ta == tb {
        return None;
    }
    let sep = chars_of("||");
    proof {
        reveal_strlit("||");
    }
    let parts = split_range(v, ta, tb, &sep);
    let ghost pieces = split_pat(v@.subrange(ta as int, tb as int), "||"@);
    assert(range_pieces(v@, parts@) == pieces);
    if parts.len() < 3 {
        return None;
    }
    assert(pieces[0] == v@.subrange(parts@[0].0 as int, parts@[0].1 as int));
    assert(pieces[1] == v@.subrange(parts@[1].0 as int, parts@[1].1 as int));
    assert(pieces[2] == v@.subrange(parts@[2].0 as int, parts@[2].1 as int));
    let (n0, n1) = trim_range(v, parts[0].0, parts[0].1);
    let name = output.substring_char(n0, n1).to_owned();
    let (s0, s1) = trim_range(v, parts[1].0, parts[1].1);
    let connected = range_is_up_ignoring_ascii_case(v, s0, s1);
    let (m0, m1) = trim_range(v, parts[2].0, parts[2].1);
    let kind = classify_media(output.substring_char(m0, m1));
    let mut link_speed_bps: Option<u64> = None;
    if connected && parts.len() > 3 {
        assert(pieces[3] == v@.subrange(parts@[3].0 as int, parts@[3].1 as int));
        let (p0, p1) = trim_range(v, parts[3].0, parts[3].1);
        match parse_u64_range(v, p0, p1) {
            Some(speed) => {
                if speed > 0 {
                    link_speed_bps = Some(speed);
                }
            },
            None => {},
        }
    }
    Some(NetworkInterface { name, kind, connected, link_speed_bps })
}

/// Parses `Get-NetAdapter` output (`Name||Status||PhysicalMediaType` and an
/// optional `||Speed`, one adapter per line). Blank lines and lines with
/// fewer than three fields are skipped; fields are trimmed; the kind comes
/// from the lowercased media type; `Up` (any ASCII case) means connected; a
/// positive decimal speed is kept.
pub fn parse_netadapter_output(output: &str) -> (report: NetworkInterfaceReport)
    ensures
        report.interfaces@.map_values(|i: NetworkInterface| interface_record(i))
            == spec_parse_netadapter_output(output@),
{
    let v = chars_of(output);
    let ls = lines_ranges(&v);
    let ghost all_lines = lines(v@);
    let mut interfaces: Vec<NetworkInterface> = Vec::new();
    let n = ls.len();
    let mut k: usize = 0;
    while k < n
        invariant
            n == ls@.len(),
            k <= n,
            v@ == output@,
            all_lines == lines(v@),
            range_pieces(v@, ls@) == all_lines,
            forall|j: int| #![trigger ls@[j]] 0 <= j < ls@.len() ==> ls@[j].0 <= ls@[j].1 <= v@.len(),
            interfaces@.map_values(|i: NetworkInterface| interface_record(i))
                == parse_adapter_lines(all_lines.subrange(0, k as int)),
        decreases n - k,
    {
        let (a, b) = ls[k];
        assert(range_pieces(v@, ls@)[k as int] == v@.subrange(a as int, b as int));
        let ghost before = interfaces@;
        let parsed = parse_line_range(output, &v, a, b);
        proof {
            assert(all_lines.subrange(0, k + 1).drop_last() =~= all_lines.subrange(0, k as int));
            assert(all_lines.subrange(0, k + 1).last() == v@.subrange(a as int, b as int));
        }
        match parsed {
            Some(iface) => {
                interfaces.push(iface);
                assert(interfaces@.map_values(|i: NetworkInterface| interface_record(i))
                    =~= before.map_values(|i: NetworkInterface| interface_record(i)).push(
                    interface_record(iface),
                ));
            },
            None => {},
        }
        k = k + 1;
    }
    assert(all_lines.subrange(0, n as int) =~= all_lines);
    NetworkInterfaceReport { interfaces }
}

} // verus!
