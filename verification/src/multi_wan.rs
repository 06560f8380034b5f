//! Up to ten named WAN lines, each with its own connection settings
//! ([`WanConfig`]). Registering a name twice is a no-op; an eleventh line is
//! refused with an error; operations on an unknown name report `false` or
//! `None` instead of failing.

use vstd::prelude::*;

use crate::name_table::NameTable;
use crate::text::strictly_sorted;
use crate::wan_config::{
    connection_summary_text, flags_with_auto_configure, flags_with_ipv6, flags_with_v6_plus,
    initial_wan_flags, wan_flags_consistent, WanConfig, WanFlags,
};

verus! {

/// The most WAN lines that can be registered at once.
pub const MAX_WAN_LINES: usize = 10;

/// The error text of a refused eleventh line.
pub open spec fn too_many_lines_message() -> Seq<char> {
    "cannot register more than 10 WAN lines / WAN回線は最大10本までです"@
}

pub struct MultiWanManager {
    lines: NameTable<WanConfig>,
}

impl View for MultiWanManager {
    type V = Map<Seq<char>, WanFlags>;

    closed spec fn view(&self) -> Map<Seq<char>, WanFlags> {
        self.lines.view().map_values(|c: WanConfig| c@)
    }
}

impl MultiWanManager {
    /// Well-formedness: the table is well formed, holds at most ten lines,
    /// and every line's flags obey the v6 plus rule.
    pub closed spec fn wf(&self) -> bool {
        &&& self.lines.wf()
        &&& self.lines.view().dom().len() <= MAX_WAN_LINES
        &&& forall|k: Seq<char>| #[trigger]
            self.lines.view().dom().contains(k) ==> self.lines.view()[k].wf()
    }

    /// Every registered line obeys the v6 plus rule, and there are never
    /// more than ten of them.
    pub proof fn lemma_wf_lines(&self)
        requires
            self.wf(),
        ensures
            self@.dom().finite(),
            self@.dom().len() <= MAX_WAN_LINES,
            forall|k: Seq<char>| #[trigger]
                self@.dom().contains(k) ==> wan_flags_consistent(self@[k]),
    {
        self.lines.lemma_len_public();
        assert(self@.dom() =~= self.lines.view().dom());
    }

    pub fn new() -> (m: Self)
        ensures
            m.wf(),
            m@ == Map::<Seq<char>, WanFlags>::empty(),
    {
        let m = MultiWanManager { lines: NameTable::new() };
        proof {
            m.lines.lemma_len_public();
            assert(m@ =~= Map::<Seq<char>, WanFlags>::empty());
        }
        m
    }

    /// Registers a line under `name` with the initial (IPv4) settings.
    /// A name already registered is left as it is and `Ok` is returned; a
    /// new name when ten lines are registered is refused.
    pub fn register_line(&mut self, name: &str) -> (r: Result<(), String>)
        requires
            old(self).wf(),
        ensures
            final(self).wf(),
            old(self)@.dom().contains(name@) ==> r is Ok && final(self)@ == old(self)@,
            !old(self)@.dom().contains(name@) && old(self)@.dom().len() >= MAX_WAN_LINES ==> (
            r matches Err(e) && e@ == too_many_lines_message()) && final(self)@ == old(self)@,
            !old(self)@.dom().contains(name@) && old(self)@.dom().len() < MAX_WAN_LINES ==> r is Ok
                && final(self)@ == old(self)@.insert(name@, initial_wan_flags()),
    {
        proof {
            self.lines.lemma_len_public();
            assert(self@.dom() =~= self.lines.view().dom());
        }
        if self.lines.contains(name) {
            return Ok(());
        }
        if self.lines.len() >= MAX_WAN_LINES {
            return Err("cannot register more than 10 WAN lines / WAN回線は最大10本までです".to_owned());
        }
        let ghost old_lines = self.lines.view();
        self.lines.insert(name, WanConfig::new());
        proof {
            self.lines.lemma_len_public();
            assert(self.lines.view().dom() =~= old_lines.dom().insert(name@));
            assert(self@ =~= old(self)@.insert(name@, initial_wan_flags()));
        }
        Ok(())
    }

    /// Removes the line `name`, if it is registered.
    pub fn remove_line(&mut self, name: &str)
        requires
            old(self).wf(),
        ensures
            final(self).wf(),
            final(self)@ == old(self)@.remove(name@),
    {
        proof {
            self.lines.lemma_len_public();
        }
        self.lines.remove(name);
        proof {
            self.lines.lemma_len_public();
            assert(self.lines.view().dom() =~= old(self).lines.view().dom().remove(name@));
            assert(self@ =~= old(self)@.remove(name@));
        }
    }

    /// The number of registered lines.
    pub fn line_count(&self) -> (n: usize)
        requires
            self.wf(),
        ensures
            n == self@.dom().len(),
    {
        proof {
            assert(self@.dom() =~= self.lines.view().dom());
        }
        self.lines.len()
    }

    /// The registered names, sorted.
    pub fn line_names(&self) -> (names: Vec<String>)
        requires
            self.wf(),
        ensures
            strictly_sorted(names@.map_values(|s: String| s@)),
            forall|k: Seq<char>|
                names@.map_values(|s: String| s@).contains(k) <==> self@.dom().contains(k),
    {
        proof {
            assert(self@.dom() =~= self.lines.view().dom());
        }
        self.lines.names()
    }

    pub fn set_auto_configure_enabled(&mut self, name: &str, enabled: bool) -> (found: bool)
        requires
            old(self).wf(),
        ensures
            final(self).wf(),
            found == old(self)@.dom().contains(name@),
            found ==> final(self)@ == old(self)@.insert(
                name@,
                flags_with_auto_configure(old(self)@[name@], enabled),
            ),
            !found ==> final(self)@ == old(self)@,
    {
        match self.lines.get(name) {
            Some(cfg) => {
                let mut cfg = cfg;
                cfg.set_auto_configure_enabled(enabled);
                self.store_line(name, cfg);
                true
            },
            None => false,
        }
    }

    /// Switches IPv6 of line `name` on or off (off also switches its v6
    /// plus off); `false` when no such line is registered.
    pub fn set_ipv6_enabled(&mut self, name: &str, enabled: bool) -> (found: bool)
        requires
            old(self).wf(),
        ensures
            final(self).wf(),
            found == old(self)@.dom().contains(name@),
            found ==> final(self)@ == old(self)@.insert(
                name@,
                flags_with_ipv6(old(self)@[name@], enabled),
            ),
            !found ==> final(self)@ == old(self)@,
    {
        match self.lines.get(name) {
            Some(cfg) => {
                let mut cfg = cfg;
                cfg.set_ipv6_enabled(enabled);
                self.store_line(name, cfg);
                true
            },
            None => false,
        }
    }

    /// Switches v6 plus of line `name` on or off (on also switches its IPv6
    /// on); `false` when no such line is registered.
    pub fn set_v6_plus_enabled(&mut self, name: &str, enabled: bool) -> (found: bool)
        requires
            old(self).wf(),
        ensures
            final(self).wf(),
            found == old(self)@.dom().contains(name@),
            found ==> final(self)@ == old(self)@.insert(
                name@,
                flags_with_v6_plus(old(self)@[name@], enabled),
            ),
            !found ==> final(self)@ == old(self)@,
    {
        match self.lines.get(name) {
            Some(cfg) => {
                let mut cfg = cfg;
                cfg.set_v6_plus_enabled(enabled);
                self.store_line(name, cfg);
                true
            },
            None => false,
        }
    }

    /// Writes back the settings of a line that is already registered.
    fn store_line(&mut self, name: &str, cfg: WanConfig)
        requires
            old(self).wf(),
            old(self).lines.view().dom().contains(name@),
            cfg.wf(),
        ensures
            final(self).wf(),
            final(self)@ == old(self)@.insert(name@, cfg@),
    {
        let ghost old_lines = self.lines.view();
        self.lines.insert(name, cfg);
        proof {
            assert(self.lines.view().dom() =~= old_lines.dom());
            assert(self@ =~= old(self)@.insert(name@, cfg@));
        }
    }

    pub fn connection_summary(&self, name: &str) -> (s: Option<&'static str>)
        requires
            self.wf(),
        ensures
            self@.dom().contains(name@) ==> (s matches Some(t) && t@ == connection_summary_text(
                self@[name@],
            )),
            !self@.dom().contains(name@) ==> s is None,
    {
        match self.lines.get(name) {
            Some(cfg) => Some(cfg.connection_summary()),
            None => None,
        }
    }

    pub fn is_auto_configure_enabled(&self, name: &str) -> (r: Option<bool>)
        requires
            self.wf(),
        ensures
            r == (if self@.dom().contains(name@) {
                Some(self@[name@].auto_configure)
            } else {
                None
            }),
    {
        match self.lines.get(name) {
            Some(cfg) => Some(cfg.is_auto_configure_enabled()),
            None => None,
        }
    }

    pub fn is_ipv6_enabled(&self, name: &str) -> (r: Option<bool>)
        requires
            self.wf(),
        ensures
            r == (if self@.dom().contains(name@) {
                Some(self@[name@].ipv6)
            } else {
                None
            }),
    {
        match self.lines.get(name) {
            Some(cfg) => Some(cfg.is_ipv6_enabled()),
            None => None,
        }
    }

    pub fn is_v6_plus_enabled(&self, name: &str) -> (r: Option<bool>)
        requires
            self.wf(),
        ensures
            r == (if self@.dom().contains(name@) {
                Some(self@[name@].v6_plus)
            } else {
                None
            }),
    {
        match self.lines.get(name) {
            Some(cfg) => Some(cfg.is_v6_plus_enabled()),
            None => None,
        }
    }
}

impl Default for MultiWanManager {
    fn default() -> (m: Self)
        ensures
            m.wf(),
            m@ == Map::<Seq<char>, WanFlags>::empty(),
    {
        MultiWanManager::new()
    }
}

/// Removing a line frees its slot: in a full manager (ten lines), after
/// `remove_line` of a registered name, a new name is accepted again.
pub proof fn lemma_remove_frees_a_slot(m: Map<Seq<char>, WanFlags>, gone: Seq<char>)
    requires
        m.dom().finite(),
        m.dom().len() <= MAX_WAN_LINES,
        m.dom().contains(gone),
    ensures
        m.remove(gone).dom().len() < MAX_WAN_LINES,
{
}

} // verus!
