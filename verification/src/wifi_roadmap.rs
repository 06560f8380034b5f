//! WiFi generations (WiFi 4 to the draft WiFi 8) and the bands each one
//! supports per the IEEE specifications, and a registry that labels WiFi
//! channels with a generation and band, refusing combinations that the
//! specifications do not allow. Metadata only: nothing here negotiates or
//! detects the actual PHY.

use vstd::prelude::*;
use vstd::string::StringExecFns;

use crate::name_table::NameTable;

verus! {

/// WiFi generations. WiFi 8 (IEEE 802.11bn) is still a draft standard.
#[derive(Debug, Clone, Copy, PartialEq, Eq, Hash, Structural)]
pub enum WifiGeneration {
    /// IEEE 802.11n.
    Wifi4,
    /// IEEE 802.11ac.
    Wifi5,
    /// IEEE 802.11ax.
    Wifi6,
    /// IEEE 802.11ax with the 6 GHz extension.
    Wifi6E,
    /// IEEE 802.11be.
    Wifi7,
    /// IEEE 802.11bn, a draft standard.
    Wifi8,
}

#[derive(Debug, Clone, Copy, PartialEq, Eq, Hash, Structural)]
pub enum WifiBand {
    Band2_4Ghz,
    Band5Ghz,
    Band6Ghz,
}

/// The bands each generation supports per its IEEE specification.
pub open spec fn spec_supported_bands(g: WifiGeneration) -> Seq<WifiBand> {
    match g {
        WifiGeneration::Wifi4 => seq![WifiBand::Band2_4Ghz, WifiBand::Band5Ghz],
        WifiGeneration::Wifi5 => seq![WifiBand::Band5Ghz],
        WifiGeneration::Wifi6 => seq![WifiBand::Band2_4Ghz, WifiBand::Band5Ghz],
        _ => seq![WifiBand::Band2_4Ghz, WifiBand::Band5Ghz, WifiBand::Band6Ghz],
    }
}

/// The name of a generation as `{:?}` prints it.
pub open spec fn generation_name(g: WifiGeneration) -> Seq<char> {
    match g {
        WifiGeneration::Wifi4 => "Wifi4"@,
        WifiGeneration::Wifi5 => "Wifi5"@,
        WifiGeneration::Wifi6 => "Wifi6"@,
        WifiGeneration::Wifi6E => "Wifi6E"@,
        WifiGeneration::Wifi7 => "Wifi7"@,
        WifiGeneration::Wifi8 => "Wifi8"@,
    }
}

/// The name of a band as `{:?}` prints it.
pub open spec fn band_name(b: WifiBand) -> Seq<char> {
    match b {
        WifiBand::Band2_4Ghz => "Band2_4Ghz"@,
        WifiBand::Band5Ghz => "Band5Ghz"@,
        WifiBand::Band6Ghz => "Band6Ghz"@,
    }
}

/// The error text of a refused generation/band combination.
pub open spec fn unsupported_combination_message(g: WifiGeneration, b: WifiBand) -> Seq<char> {
    generation_name(g) + " does not support "@ + band_name(b) + " per IEEE spec / "@
        + generation_name(g) + "は"@ + band_name(b) + "に非対応(IEEE仕様上)"@
}

impl WifiGeneration {
    /// Whether the generation is a finalized standard (every one but the
    /// draft WiFi 8).
    pub fn is_finalized_standard(&self) -> (r: bool)
        ensures
            r == (*self != WifiGeneration::Wifi8),
    {
        !matches!(self, WifiGeneration::Wifi8)
    }

    /// The bands this generation supports per its IEEE specification.
    pub fn supported_bands(&self) -> (v: Vec<WifiBand>)
        ensures
            v@ == spec_supported_bands(*self),
    {
        let v = match self {
            WifiGeneration::Wifi4 => vec![WifiBand::Band2_4Ghz, WifiBand::Band5Ghz],
            WifiGeneration::Wifi5 => vec![WifiBand::Band5Ghz],
            WifiGeneration::Wifi6 => vec![WifiBand::Band2_4Ghz, WifiBand::Band5Ghz],
            WifiGeneration::Wifi6E => vec![
                WifiBand::Band2_4Ghz,
                WifiBand::Band5Ghz,
                WifiBand::Band6Ghz,
            ],
            WifiGeneration::Wifi7 => vec![
                WifiBand::Band2_4Ghz,
                WifiBand::Band5Ghz,
                WifiBand::Band6Ghz,
            ],
            WifiGeneration::Wifi8 => vec![
                WifiBand::Band2_4Ghz,
                WifiBand::Band5Ghz,
                WifiBand::Band6Ghz,
            ],
        };
        assert(v@ =~= spec_supported_bands(*self));
        v
    }

    /// The name of the generation as `{:?}` prints it.
    pub fn debug_name(&self) -> (s: &'static str)
        ensures
            s@ == generation_name(*self),
    {
        match self {
            WifiGeneration::Wifi4 => "Wifi4",
            WifiGeneration::Wifi5 => "Wifi5",
            WifiGeneration::Wifi6 => "Wifi6",
            WifiGeneration::Wifi6E => "Wifi6E",
            WifiGeneration::Wifi7 => "Wifi7",
            WifiGeneration::Wifi8 => "Wifi8",
        }
    }
}

impl WifiBand {
    /// The name of the band as `{:?}` prints it.
    pub fn debug_name(&self) -> (s: &'static str)
        ensures
            s@ == band_name(*self),
    {
        match self {
            WifiBand::Band2_4Ghz => "Band2_4Ghz",
            WifiBand::Band5Ghz => "Band5Ghz",
            WifiBand::Band6Ghz => "Band6Ghz",
        }
    }
}

/// Whether the IEEE specification of `generation` covers `band`.
pub fn is_valid_combination(generation: WifiGeneration, band: WifiBand) -> (r: bool)
    ensures
        r == spec_supported_bands(generation).contains(band),
{
    let bands = generation.supported_bands();
    let n = bands.len();
    let mut i: usize = 0;
    while i < n
        invariant
            n == bands@.len(),
            bands@ == spec_supported_bands(generation),
            i <= n,
            forall|j: int| 0 <= j < i ==> bands@[j] != band,
        decreases n - i,
    {
        if bands[i] == band {
            return true;
        }
        i = i + 1;
    }
    false
}

/// Generation and band labels of named WiFi channels.
pub struct WifiChannelRegistry {
    channels: NameTable<(WifiGeneration, WifiBand)>,
}

impl View for WifiChannelRegistry {
    type V = Map<Seq<char>, (WifiGeneration, WifiBand)>;

    closed spec fn view(&self) -> Map<Seq<char>, (WifiGeneration, WifiBand)> {
        self.channels.view()
    }
}

impl WifiChannelRegistry {
    /// Well-formedness: every stored label is a combination the IEEE
    /// specifications allow.
    pub closed spec fn wf(&self) -> bool {
        &&& self.channels.wf()
        &&& forall|k: Seq<char>| #[trigger]
            self.channels.view().dom().contains(k) ==> spec_supported_bands(
                self.channels.view()[k].0,
            ).contains(self.channels.view()[k].1)
    }

    pub fn new() -> (r: Self)
        ensures
            r.wf(),
            r@ == Map::<Seq<char>, (WifiGeneration, WifiBand)>::empty(),
    {
        WifiChannelRegistry { channels: NameTable::new() }
    }

    /// Labels channel `name` with a generation and band; a combination the
    /// IEEE specifications do not allow is refused and nothing changes.
    pub fn set_channel(&mut self, name: &str, generation: WifiGeneration, band: WifiBand) -> (r:
        Result<(), String>)
        requires
            old(self).wf(),
        ensures
            final(self).wf(),
            r is Ok <==> spec_supported_bands(generation).contains(band),
            r is Ok ==> final(self)@ == old(self)@.insert(name@, (generation, band)),
            r matches Err(e) ==> e@ == unsupported_combination_message(generation, band)
                && final(self)@ == old(self)@,
    {
        if !is_valid_combination(generation, band) {
            let mut msg = String::new();
            msg.append(generation.debug_name());
            msg.append(" does not support ");
            msg.append(band.debug_name());
            msg.append(" per IEEE spec / ");
            msg.append(generation.debug_name());
            msg.append("は");
            msg.append(band.debug_name());
            msg.append("に非対応(IEEE仕様上)");
            return Err(msg);
        }
        self.channels.insert(name, (generation, band));
        Ok(())
    }

    /// The label of channel `name`, if it has one.
    pub fn channel(&self, name: &str) -> (r: Option<(WifiGeneration, WifiBand)>)
        requires
            self.wf(),
        ensures
            r == (if self@.dom().contains(name@) {
                Some(self@[name@])
            } else {
                None
            }),
    {
        self.channels.get(name)
    }

    /// The number of labelled channels.
    pub fn channel_count(&self) -> (n: usize)
        requires
            self.wf(),
        ensures
            n == self@.dom().len(),
    {
        self.channels.len()
    }
}

impl Default for WifiChannelRegistry {
    fn default() -> (r: Self)
        ensures
            r.wf(),
            r@ == Map::<Seq<char>, (WifiGeneration, WifiBand)>::empty(),
    {
        WifiChannelRegistry::new()
    }
}

/// Every label stored in a registry is a combination the IEEE
/// specifications allow.
pub proof fn lemma_registered_channels_are_valid(r: &WifiChannelRegistry, name: Seq<char>)
    requires
        r.wf(),
        r@.dom().contains(name),
    ensures
        spec_supported_bands(r@[name].0).contains(r@[name].1),
{
}

/// The draft WiFi 8 is the only generation that is not finalized, and WiFi 5
/// is the only one without the 2.4 GHz band; from WiFi 6E on, all three
/// bands are supported.
pub proof fn lemma_generation_band_table(g: WifiGeneration)
    ensures
        spec_supported_bands(g).contains(WifiBand::Band5Ghz),
        spec_supported_bands(g).contains(WifiBand::Band2_4Ghz) <==> g != WifiGeneration::Wifi5,
        spec_supported_bands(g).contains(WifiBand::Band6Ghz) <==> (g == WifiGeneration::Wifi6E
            || g == WifiGeneration::Wifi7 || g == WifiGeneration::Wifi8),
{
    let s = spec_supported_bands(g);
    match g {
        WifiGeneration::Wifi4 => {
            assert(s[1] == WifiBand::Band5Ghz);
            assert(s[0] == WifiBand::Band2_4Ghz);
        },
        WifiGeneration::Wifi5 => {
            assert(s[0] == WifiBand::Band5Ghz);
        },
        WifiGeneration::Wifi6 => {
            assert(s[1] == WifiBand::Band5Ghz);
            assert(s[0] == WifiBand::Band2_4Ghz);
        },
        _ => {
            assert(s[1] == WifiBand::Band5Ghz);
            assert(s[0] == WifiBand::Band2_4Ghz);
            assert(s[2] == WifiBand::Band6Ghz);
        },
    }
}

} // verus!
