//! The "router app" and "security router" checkboxes, and the built-in
//! plugins each of them unlocks. Plugins are a fixed list of known feature
//! modules (no outside code is ever loaded): installing one needs its parent
//! feature switched on first, unknown ids are refused, and switching a
//! parent feature off uninstalls its plugins.

use vstd::prelude::*;
use vstd::string::StringExecFns;

use crate::name_table::NameTable;
use crate::text::{str_eq, strictly_sorted};

verus! {

#[derive(Debug, Clone, Copy, PartialEq, Eq)]
pub struct PluginInfo {
    pub id: &'static str,
    pub label_en: &'static str,
    pub label_ja: &'static str,
}

/// The ids of the plugins that the router app feature unlocks.
pub open spec fn router_app_plugin_ids() -> Seq<Seq<char>> {
    seq!["port_forwarding"@, "qos"@, "dhcp_server"@]
}

/// The ids of the plugins that the security router feature unlocks.
pub open spec fn security_router_plugin_ids() -> Seq<Seq<char>> {
    seq!["ad_tracker_blocking"@, "dns_filtering"@, "parental_controls"@]
}

/// The plugins that the router app feature unlocks.
pub fn router_app_plugins() -> (v: Vec<PluginInfo>)
    ensures
        v@.map_values(|p: PluginInfo| p.id@) == router_app_plugin_ids(),
{
    let v = vec![
        PluginInfo { id: "port_forwarding", label_en: "Port forwarding", label_ja: "ポート転送" },
        PluginInfo {
            id: "qos",
            label_en: "QoS / bandwidth prioritization",
            label_ja: "QoS(帯域の優先制御)",
        },
        PluginInfo { id: "dhcp_server", label_en: "DHCP server", label_ja: "DHCPサーバー" },
    ];
    assert(v@.map_values(|p: PluginInfo| p.id@) =~= router_app_plugin_ids());
    v
}

/// The plugins that the security router feature unlocks.
pub fn security_router_plugins() -> (v: Vec<PluginInfo>)
    ensures
        v@.map_values(|p: PluginInfo| p.id@) == security_router_plugin_ids(),
{
    let v = vec![
        PluginInfo {
            id: "ad_tracker_blocking",
            label_en: "Ad & tracker blocking",
            label_ja: "広告・トラッカーブロック",
        },
        PluginInfo { id: "dns_filtering", label_en: "DNS filtering", label_ja: "DNSフィルタリング" },
        PluginInfo {
            id: "parental_controls",
            label_en: "Parental controls",
            label_ja: "ペアレンタルコントロール",
        },
    ];
    assert(v@.map_values(|p: PluginInfo| p.id@) =~= security_router_plugin_ids());
    v
}

/// The error text when a router app plugin is installed before the router
/// app feature is switched on.
pub open spec fn router_app_disabled_message(id: Seq<char>) -> Seq<char> {
    "'"@ + id + "' requires the router app function to be enabled first / '"@ + id
        + "'にはルーターアプリ機能を先に有効化してください"@
}

/// The error text when a security router plugin is installed before the
/// security router feature is switched on.
pub open spec fn security_router_disabled_message(id: Seq<char>) -> Seq<char> {
    "'"@ + id + "' requires the security router function to be enabled first / '"@ + id
        + "'にはセキュリティルーター機能を先に有効化してください"@
}

/// The error text for an id that is no known plugin.
pub open spec fn unknown_plugin_message(id: Seq<char>) -> Seq<char> {
    "unknown plugin id: "@ + id + " / 不明なプラグインID: "@ + id
}

/// The state of the two checkboxes and of the installed plugins.
pub struct RouterFeaturesState {
    pub router_app_enabled: bool,
    pub security_router_enabled: bool,
    pub installed: Set<Seq<char>>,
}

/// Whether a plugin may be installed in the given state: it is a known
/// plugin whose parent feature is on.
pub open spec fn plugin_allowed(s: RouterFeaturesState, id: Seq<char>) -> bool {
    ||| router_app_plugin_ids().contains(id) && s.router_app_enabled
    ||| security_router_plugin_ids().contains(id) && s.security_router_enabled
}

pub struct RouterFeatures {
    router_app_enabled: bool,
    security_router_enabled: bool,
    installed_plugins: NameTable<()>,
}

impl View for RouterFeatures {
    type V = RouterFeaturesState;

    closed spec fn view(&self) -> RouterFeaturesState {
        RouterFeaturesState {
            router_app_enabled: self.router_app_enabled,
            security_router_enabled: self.security_router_enabled,
            installed: self.installed_plugins.view().dom(),
        }
    }
}

impl RouterFeatures {
    /// Well-formedness: every installed plugin is allowed (known, with its
    /// parent feature on).
    pub closed spec fn wf(&self) -> bool {
        &&& self.installed_plugins.wf()
        &&& forall|id: Seq<char>| #[trigger]
            self.installed_plugins.view().dom().contains(id) ==> plugin_allowed(self@, id)
    }

    pub fn new() -> (f: Self)
        ensures
            f.wf(),
            !f@.router_app_enabled,
            !f@.security_router_enabled,
            f@.installed == Set::<Seq<char>>::empty(),
    {
        let f = RouterFeatures {
            router_app_enabled: false,
            security_router_enabled: false,
            installed_plugins: NameTable::new(),
        };
        assert(f@.installed =~= Set::<Seq<char>>::empty());
        f
    }

    /// Uninstalls the plugins whose ids are listed.
    fn uninstall_all(&mut self, ids: &Vec<&'static str>)
        requires
            old(self).installed_plugins.wf(),
        ensures
            final(self).installed_plugins.wf(),
            final(self).router_app_enabled == old(self).router_app_enabled,
            final(self).security_router_enabled == old(self).security_router_enabled,
            final(self)@.installed == old(self)@.installed.difference(
                ids@.map_values(|s: &'static str| s@).to_set(),
            ),
    {
        let n = ids.len();
        let mut i: usize = 0;
        while i < n
            invariant
                n == ids@.len(),
                i <= n,
                self.installed_plugins.wf(),
                self.router_app_enabled == old(self).router_app_enabled,
                self.security_router_enabled == old(self).security_router_enabled,
                self@.installed == old(self)@.installed.difference(
                    ids@.subrange(0, i as int).map_values(|s: &'static str| s@).to_set(),
                ),
            decreases n - i,
        {
            let ghost before = self@.installed;
            self.installed_plugins.remove(ids[i]);
            proof {
                let done = ids@.subrange(0, i as int).map_values(|s: &'static str| s@);
                let next = ids@.subrange(0, i + 1).map_values(|s: &'static str| s@);
                assert(next =~= done.push(ids@[i as int]@));
                done.lemma_push_to_set_commute(ids@[i as int]@);
                assert(next.to_set() =~= done.to_set().insert(ids@[i as int]@));
                assert(self@.installed =~= old(self)@.installed.difference(next.to_set()));
            }
            i = i + 1;
        }
        assert(ids@.subrange(0, n as int) =~= ids@);
    }

    /// Switches the router app feature on or off; off uninstalls every
    /// router app plugin and leaves the security router plugins installed.
    pub fn set_router_app_enabled(&mut self, enabled: bool)
        requires
            old(self).wf(),
        ensures
            final(self).wf(),
            final(self)@.router_app_enabled == enabled,
            final(self)@.security_router_enabled == old(self)@.security_router_enabled,
            final(self)@.installed == (if enabled {
                old(self)@.installed
            } else {
                old(self)@.installed.difference(router_app_plugin_ids().to_set())
            }),
    {
        if !enabled {
            let ids = vec!["port_forwarding", "qos", "dhcp_server"];
            proof {
                assert(ids@.map_values(|s: &'static str| s@) =~= router_app_plugin_ids());
            }
            self.uninstall_all(&ids);
        }
        self.router_app_enabled = enabled;
        proof {
            assert forall|id: Seq<char>| #[trigger]
                self.installed_plugins.view().dom().contains(id) implies plugin_allowed(
                self@,
                id,
            ) by {
                assert(old(self).installed_plugins.view().dom().contains(id));
                assert(plugin_allowed(old(self)@, id));
            }
        }
    }

    pub fn is_router_app_enabled(&self) -> (r: bool)
        ensures
            r == self@.router_app_enabled,
    {
        self.router_app_enabled
    }

    /// Switches the security router feature on or off; off uninstalls every
    /// security router plugin and leaves the router app plugins installed.
    pub fn set_security_router_enabled(&mut self, enabled: bool)
        requires
            old(self).wf(),
        ensures
            final(self).wf(),
            final(self)@.security_router_enabled == enabled,
            final(self)@.router_app_enabled == old(self)@.router_app_enabled,
            final(self)@.installed == (if enabled {
                old(self)@.installed
            } else {
                old(self)@.installed.difference(security_router_plugin_ids().to_set())
            }),
    {
        if !enabled {
            let ids = vec!["ad_tracker_blocking", "dns_filtering", "parental_controls"];
            proof {
                assert(ids@.map_values(|s: &'static str| s@) =~= security_router_plugin_ids());
            }
            self.uninstall_all(&ids);
        }
        self.security_router_enabled = enabled;
        proof {
            assert forall|id: Seq<char>| #[trigger]
                self.installed_plugins.view().dom().contains(id) implies plugin_allowed(
                self@,
                id,
            ) by {
                assert(old(self).installed_plugins.view().dom().contains(id));
                assert(plugin_allowed(old(self)@, id));
            }
        }
    }

    pub fn is_security_router_enabled(&self) -> (r: bool)
        ensures
            r == self@.security_router_enabled,
    {
        self.security_router_enabled
    }

    /// Installs a known plugin. Refused (with a bilingual message naming the
    /// id) when its parent feature is off or when the id is unknown.
    pub fn install_plugin(&mut self, id: &str) -> (r: Result<(), String>)
        requires
            old(self).wf(),
        ensures
            final(self).wf(),
            r is Ok <==> plugin_allowed(old(self)@, id@),
            r is Ok ==> final(self)@ == (RouterFeaturesState {
                installed: old(self)@.installed.insert(id@),
                ..old(self)@
            }),
            r is Err ==> final(self)@ == old(self)@,
            router_app_plugin_ids().contains(id@) && !old(self)@.router_app_enabled ==> (
            r matches Err(e) && e@ == router_app_disabled_message(id@)),
            security_router_plugin_ids().contains(id@) && !old(self)@.security_router_enabled ==> (
            r matches Err(e) && e@ == security_router_disabled_message(id@)),
            !router_app_plugin_ids().contains(id@) && !security_router_plugin_ids().contains(id@)
                ==> (r matches Err(e) && e@ == unknown_plugin_message(id@)),
    {
        let is_router_app = str_eq(id, "port_forwarding") || str_eq(id, "qos") || str_eq(
            id,
            "dhcp_server",
        );
        let is_security = str_eq(id, "ad_tracker_blocking") || str_eq(id, "dns_filtering")
            || str_eq(id, "parental_controls");
        proof {
            assert(is_router_app <==> router_app_plugin_ids().contains(id@)) by {
                if router_app_plugin_ids().contains(id@) {
                    let k = choose|k: int|
                        0 <= k < router_app_plugin_ids().len() && router_app_plugin_ids()[k]
                            == id@;
                    assert(k == 0 || k == 1 || k == 2);
                }
                if is_router_app {
                    if id@ == "port_forwarding"@ {
                        assert(router_app_plugin_ids()[0] == id@);
                    } else if id@ == "qos"@ {
                        assert(router_app_plugin_ids()[1] == id@);
                    } else {
                        assert(router_app_plugin_ids()[2] == id@);
                    }
                }
            }
            assert(is_security <==> security_router_plugin_ids().contains(id@)) by {
                if security_router_plugin_ids().contains(id@) {
                    let k = choose|k: int|
                        0 <= k < security_router_plugin_ids().len()
                            && security_router_plugin_ids()[k] == id@;
                    assert(k == 0 || k == 1 || k == 2);
                }
                if is_security {
                    if id@ == "ad_tracker_blocking"@ {
                        assert(security_router_plugin_ids()[0] == id@);
                    } else if id@ == "dns_filtering"@ {
                        assert(security_router_plugin_ids()[1] == id@);
                    } else {
                        assert(security_router_plugin_ids()[2] == id@);
                    }
                }
            }
            lemma_plugin_lists_disjoint(id@);
        }
        if is_router_app {
            if !self.is_router_app_enabled() {
                let mut msg = String::new();
                msg.append("'");
                msg.append(id);
                msg.append("' requires the router app function to be enabled first / '");
                msg.append(id);
                msg.append("'にはルーターアプリ機能を先に有効化してください");
                return Err(msg);
            }
        } else if is_security {
            if !self.is_security_router_enabled() {
                let mut msg = String::new();
                msg.append("'");
                msg.append(id);
                msg.append("' requires the security router function to be enabled first / '");
                msg.append(id);
                msg.append("'にはセキュリティルーター機能を先に有効化してください");
                return Err(msg);
            }
        } else {
            let mut msg = String::new();
            msg.append("unknown plugin id: ");
            msg.append(id);
            msg.append(" / 不明なプラグインID: ");
            msg.append(id);
            return Err(msg);
        }
        self.installed_plugins.insert(id, ());
        proof {
            assert(self@.installed =~= old(self)@.installed.insert(id@));
        }
        Ok(())
    }

    pub fn uninstall_plugin(&mut self, id: &str)
        requires
            old(self).wf(),
        ensures
            final(self).wf(),
            final(self)@ == (RouterFeaturesState {
                installed: old(self)@.installed.remove(id@),
                ..old(self)@
            }),
    {
        self.installed_plugins.remove(id);
        proof {
            assert(self@.installed =~= old(self)@.installed.remove(id@));
        }
    }

    pub fn is_plugin_installed(&self, id: &str) -> (r: bool)
        requires
            self.wf(),
        ensures
            r == self@.installed.contains(id@),
    {
        self.installed_plugins.contains(id)
    }

    /// The installed plugin ids, sorted.
    pub fn installed_plugins(&self) -> (v: Vec<String>)
        requires
            self.wf(),
        ensures
            strictly_sorted(v@.map_values(|s: String| s@)),
            forall|k: Seq<char>|
                v@.map_values(|s: String| s@).contains(k) <==> self@.installed.contains(k),
    {
        self.installed_plugins.names()
    }
}

impl Default for RouterFeatures {
    fn default() -> (f: Self)
        ensures
            f.wf(),
            !f@.router_app_enabled,
            !f@.security_router_enabled,
            f@.installed == Set::<Seq<char>>::empty(),
    {
        RouterFeatures::new()
    }
}

/// No id belongs to both plugin lists.
proof fn lemma_plugin_lists_disjoint(id: Seq<char>)
    ensures
        !(router_app_plugin_ids().contains(id) && security_router_plugin_ids().contains(id)),
{
    reveal_strlit("port_forwarding");
    reveal_strlit("qos");
    reveal_strlit("dhcp_server");
    reveal_strlit("ad_tracker_blocking");
    reveal_strlit("dns_filtering");
    reveal_strlit("parental_controls");
    if router_app_plugin_ids().contains(id) && security_router_plugin_ids().contains(id) {
        let a = choose|k: int| 0 <= k < 3 && router_app_plugin_ids()[k] == id;
        let b = choose|k: int| 0 <= k < 3 && security_router_plugin_ids()[k] == id;
        assert(router_app_plugin_ids()[a].len() != security_router_plugin_ids()[b].len()
            || router_app_plugin_ids()[a][0] != security_router_plugin_ids()[b][0]);
    }
}

/// Every installed plugin is a known plugin whose parent feature is on, in
/// every state that the operations of `RouterFeatures` reach.
pub proof fn lemma_installed_plugins_have_parent_enabled(f: &RouterFeatures, id: Seq<char>)
    requires
        f.wf(),
        f@.installed.contains(id),
    ensures
        plugin_allowed(f@, id),
{
}

} // verus!
