//! Connection-method settings of one WAN line: IPv4 (the default), IPv6, and
//! IPv6 over v6 plus (MAP-E), plus an auto-configure checkbox. These are
//! intent flags only; the connection itself is set up by the OS or router.
//!
//! The one rule that ties the flags together: v6 plus rides on IPv6, so it
//! is never on while IPv6 is off. Switching v6 plus on switches IPv6 on;
//! switching IPv6 off switches v6 plus off; switching v6 plus off leaves
//! IPv6 as it was (IPv6 without v6 plus is a valid state of its own).

use vstd::prelude::*;

verus! {

/// The three checkboxes of a WAN line, as plain values.
#[derive(Debug, Clone, Copy, PartialEq, Eq, Structural)]
pub struct WanFlags {
    pub auto_configure: bool,
    pub ipv6: bool,
    pub v6_plus: bool,
}

#[derive(Debug, Clone, Copy)]
pub struct WanConfig {
    auto_configure_enabled: bool,
    ipv6_enabled: bool,
    v6_plus_enabled: bool,
}

impl View for WanConfig {
    type V = WanFlags;

    closed spec fn view(&self) -> WanFlags {
        WanFlags {
            auto_configure: self.auto_configure_enabled,
            ipv6: self.ipv6_enabled,
            v6_plus: self.v6_plus_enabled,
        }
    }
}

/// The flags of a freshly created WAN line: everything off (plain IPv4).
pub open spec fn initial_wan_flags() -> WanFlags {
    WanFlags { auto_configure: false, ipv6: false, v6_plus: false }
}

/// The consistency rule of the flags: v6 plus only together with IPv6.
pub open spec fn wan_flags_consistent(f: WanFlags) -> bool {
    f.v6_plus ==> f.ipv6
}

/// The summary text that `connection_summary` shows for the given flags.
pub open spec fn connection_summary_text(f: WanFlags) -> Seq<char> {
    if !f.ipv6 {
        "IPv4"@
    } else if f.v6_plus {
        "IPv6 (v6プラス / MAP-E)"@
    } else {
        "IPv6 (v6プラス以外 / non-MAP-E)"@
    }
}

/// The flags after switching IPv6 on or off.
pub open spec fn flags_with_ipv6(f: WanFlags, enabled: bool) -> WanFlags {
    WanFlags { auto_configure: f.auto_configure, ipv6: enabled, v6_plus: enabled && f.v6_plus }
}

/// The flags after switching v6 plus on or off.
pub open spec fn flags_with_v6_plus(f: WanFlags, enabled: bool) -> WanFlags {
    WanFlags { auto_configure: f.auto_configure, ipv6: enabled || f.ipv6, v6_plus: enabled }
}

/// The flags after switching auto-configure on or off.
pub open spec fn flags_with_auto_configure(f: WanFlags, enabled: bool) -> WanFlags {
    WanFlags { auto_configure: enabled, ipv6: f.ipv6, v6_plus: f.v6_plus }
}

/// Switching IPv6 on keeps v6 plus and auto-configure as they were;
/// switching it off clears v6 plus and keeps auto-configure. So a line set
/// to v6 plus and then to IPv6 still shows the v6 plus (MAP-E) summary.
pub proof fn law_switching_ipv6_on_keeps_v6_plus(f: WanFlags)
    ensures
        flags_with_ipv6(f, true).ipv6,
        flags_with_ipv6(f, true).v6_plus == f.v6_plus,
        flags_with_ipv6(f, true).auto_configure == f.auto_configure,
        !flags_with_ipv6(f, false).ipv6,
        !flags_with_ipv6(f, false).v6_plus,
        flags_with_ipv6(f, false).auto_configure == f.auto_configure,
        connection_summary_text(flags_with_ipv6(flags_with_v6_plus(f, true), true))
            == "IPv6 (v6プラス / MAP-E)"@,
{
}

impl WanConfig {
    /// Well-formedness: the flags obey the v6 plus rule.
    pub open spec fn wf(&self) -> bool {
        wan_flags_consistent(self@)
    }

    pub fn new() -> (c: Self)
        ensures
            c@ == initial_wan_flags(),
            c.wf(),
    {
        WanConfig { auto_configure_enabled: false, ipv6_enabled: false, v6_plus_enabled: false }
    }

    pub fn set_auto_configure_enabled(&mut self, enabled: bool)
        requires
            old(self).wf(),
        ensures
            final(self)@ == flags_with_auto_configure(old(self)@, enabled),
            final(self).wf(),
    {
        self.auto_configure_enabled = enabled;
    }

    pub fn is_auto_configure_enabled(&self) -> (r: bool)
        ensures
            r == self@.auto_configure,
    {
        self.auto_configure_enabled
    }

    /// Switches IPv6 on or off; switching it off also switches v6 plus off.
    pub fn set_ipv6_enabled(&mut self, enabled: bool)
        ensures
            final(self)@ == flags_with_ipv6(old(self)@, enabled),
            final(self).wf(),
    {
        if !enabled {
            self.v6_plus_enabled = false;
        }
        self.ipv6_enabled = enabled;
    }

    pub fn is_ipv6_enabled(&self) -> (r: bool)
        ensures
            r == self@.ipv6,
    {
        self.ipv6_enabled
    }

    /// Switches v6 plus on or off; switching it on also switches IPv6 on,
    /// switching it off leaves IPv6 as it was.
    pub fn set_v6_plus_enabled(&mut self, enabled: bool)
        requires
            old(self).wf(),
        ensures
            final(self)@ == flags_with_v6_plus(old(self)@, enabled),
            final(self).wf(),
    {
        self.v6_plus_enabled = enabled;
        if enabled {
            self.ipv6_enabled = true;
        }
    }

    pub fn is_v6_plus_enabled(&self) -> (r: bool)
        ensures
            r == self@.v6_plus,
    {
        self.v6_plus_enabled
    }

    /// The connection method in words, for display.
    pub fn connection_summary(&self) -> (s: &'static str)
        ensures
            s@ == connection_summary_text(self@),
    {
        if !self.is_ipv6_enabled() {
            "IPv4"
        } else if self.is_v6_plus_enabled() {
            "IPv6 (v6プラス / MAP-E)"
        } else {
            "IPv6 (v6プラス以外 / non-MAP-E)"
        }
    }
}

impl Default for WanConfig {
    fn default() -> (c: Self)
        ensures
            c@ == initial_wan_flags(),
    {
        WanConfig::new()
    }
}

/// Every state reachable through the setters obeys the v6 plus rule: the rule
/// holds of the initial flags and each setter keeps it.
pub proof fn lemma_wan_setters_keep_v6_plus_rule(f: WanFlags, enabled: bool)
    requires
        wan_flags_consistent(f),
    ensures
        wan_flags_consistent(initial_wan_flags()),
        wan_flags_consistent(flags_with_ipv6(f, enabled)),
        wan_flags_consistent(flags_with_v6_plus(f, enabled)),
        wan_flags_consistent(flags_with_auto_configure(f, enabled)),
{
}

/// Toggling v6 plus or IPv6 never changes the auto-configure checkbox, and
/// toggling auto-configure never changes the connection method.
pub proof fn lemma_wan_toggles_independent(f: WanFlags, enabled: bool)
    ensures
        flags_with_v6_plus(f, enabled).auto_configure == f.auto_configure,
        flags_with_ipv6(f, enabled).auto_configure == f.auto_configure,
        connection_summary_text(flags_with_auto_configure(f, enabled))
            == connection_summary_text(f),
{
}

/// Switching v6 plus off after switching it on leaves IPv6 on: IPv6 without
/// v6 plus is kept as a state of its own.
pub proof fn lemma_v6_plus_off_keeps_ipv6(f: WanFlags)
    ensures
        flags_with_v6_plus(flags_with_v6_plus(f, true), false).ipv6,
        !flags_with_v6_plus(flags_with_v6_plus(f, true), false).v6_plus,
{
}

} // verus!
