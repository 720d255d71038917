//! The launcher window's state and the decisions it takes: which engine is
//! selected, loading and caching its plugin list, filtering the list, and
//! editing the plugin overrides.

use vstd::prelude::*;
use vstd::string::*;
use crate::config::Config;
use crate::engine::EngineInfo;
use crate::plugins::{PluginInfo, copy_plugin, copy_plugins, get_plugin_state, set_plugin_state, plugin_state, with_plugin_state};
use crate::string_map::StringMap;
use crate::text::{contains_run, contains_run_exec, str_lowercase, trimmed, to_lowercase, trim, chars_of};

verus! {

/// The launcher window's state. The plugin list of the selected engine is
/// scanned in the background; `loading_version` names the engine being
/// scanned, and scanned lists are cached per engine id.
pub struct LauncherApp {
    pub config: Config,
    pub engines: Vec<EngineInfo>,
    pub selected: Option<usize>,
    pub plugins: Vec<PluginInfo>,
    pub plugin_cache: StringMap<Vec<PluginInfo>>,
    pub status: String,
    pub plugin_filter: String,
    pub loading_plugins: bool,
    pub loading_version: Option<String>,
}

/// What the window must do after a change of the selected engine.
pub enum PluginLoad {
    /// Nothing to start; any scan under way goes on.
    Idle,
    /// The list came from the cache; any scan under way is dropped.
    FromCache,
    /// Scan the plugins of the engine installed at `engine_path` in the
    /// background, replacing any scan under way.
    Scan { engine_path: String },
}

/// The cached plugin lists, as sequences.
pub open spec fn cache_view(m: Map<Seq<char>, Vec<PluginInfo>>) -> Map<Seq<char>, Seq<PluginInfo>> {
    m.map_values(|v: Vec<PluginInfo>| v@)
}

/// The effect of taking a delivered plugin list: it is shown, loading
/// stops, and the selection and settings stay.
pub open spec fn finished(old_app: LauncherApp, new_app: LauncherApp, plugins: Vec<PluginInfo>) -> bool {
    &&& new_app.plugins == plugins
    &&& !new_app.loading_plugins
    &&& new_app.loading_version is None
    &&& new_app.selected == old_app.selected
    &&& same_settings(old_app, new_app)
    &&& cache_view(new_app.plugin_cache@) == (match old_app.loading_version {
        Some(v) => cache_view(old_app.plugin_cache@).insert(v@, plugins@),
        None => cache_view(old_app.plugin_cache@),
    })
}

/// The window's fields that a plugin load leaves alone are unchanged.
pub open spec fn same_settings(a: LauncherApp, b: LauncherApp) -> bool {
    &&& a.config@ == b.config@
    &&& a.engines@ == b.engines@
    &&& a.status@ == b.status@
    &&& a.plugin_filter@ == b.plugin_filter@
}

/// The effect of loading the selected engine's plugins: the list is
/// emptied; for a selected engine, a cached list is taken (and loading
/// stops), or a scan of its path starts and its id is remembered.
pub open spec fn loaded(old_app: LauncherApp, new_app: LauncherApp, r: PluginLoad) -> bool {
    &&& same_settings(old_app, new_app)
    &&& new_app.selected == old_app.selected
    &&& new_app.plugin_cache@ == old_app.plugin_cache@
    &&& match old_app.selected {
        Some(idx) if idx < old_app.engines@.len() => {
            let e = old_app.engines@[idx as int];
            if old_app.plugin_cache@.contains_key(e.id@) {
                &&& r is FromCache
                &&& new_app.plugins@ == old_app.plugin_cache@[e.id@]@
                &&& !new_app.loading_plugins
                &&& new_app.loading_version is None
            } else {
                &&& r matches PluginLoad::Scan { engine_path } && engine_path@ == e.path@
                &&& new_app.plugins@.len() == 0
                &&& new_app.loading_plugins
                &&& new_app.loading_version matches Some(v) && v@ == e.id@
            }
        },
        _ => {
            &&& r is Idle
            &&& new_app.plugins@.len() == 0
            &&& new_app.loading_plugins == old_app.loading_plugins
            &&& new_app.loading_version == old_app.loading_version
        },
    }
}

impl LauncherApp {
    /// The selection, if any, is an index of the engine list.
    pub open spec fn selection_in_range(&self) -> bool {
        self.selected is Some ==> self.selected->0 < self.engines@.len()
    }

    /// A scan is awaited exactly when an engine id is remembered for it, and
    /// that id is the id of the selected engine.
    pub open spec fn loading_consistent(&self) -> bool {
        &&& self.loading_plugins <==> self.loading_version is Some
        &&& self.loading_version is Some ==> {
            &&& self.selected is Some
            &&& self.selected->0 < self.engines@.len()
            &&& self.loading_version->0@ == self.engines@[self.selected->0 as int].id@
        }
    }

    /// A window over the loaded configuration and the detected engines,
    /// nothing selected.
    pub fn new(config: Config, engines: Vec<EngineInfo>) -> (r: Self)
        ensures
            r.config == config,
            r.engines == engines,
            r.selected is None,
            r.plugins@.len() == 0,
            r.plugin_cache@ == Map::<Seq<char>, Vec<PluginInfo>>::empty(),
            r.status@.len() == 0,
            r.plugin_filter@.len() == 0,
            !r.loading_plugins,
            r.loading_version is None,
            r.selection_in_range(),
            r.loading_consistent(),
    {
        LauncherApp {
            config,
            engines,
            selected: None,
            plugins: Vec::new(),
            plugin_cache: StringMap::new(),
            status: String::new(),
            plugin_filter: String::new(),
            loading_plugins: false,
            loading_version: None,
        }
    }

    /// Replaces the engine list with a fresh detection; forgets the
    /// selection, the plugin list, the cache and any scan under way.
    pub fn refresh_versions(&mut self, engines: Vec<EngineInfo>)
        ensures
            final(self).engines == engines,
            final(self).config == old(self).config,
            final(self).status == old(self).status,
            final(self).plugin_filter == old(self).plugin_filter,
            final(self).selected is None,
            final(self).plugins@.len() == 0,
            final(self).plugin_cache@ == Map::<Seq<char>, Vec<PluginInfo>>::empty(),
            !final(self).loading_plugins,
            final(self).loading_version is None,
            final(self).selection_in_range(),
            final(self).loading_consistent(),
    {
        self.engines = engines;
        self.selected = None;
        self.plugins = Vec::new();
        self.plugin_cache = StringMap::new();
        self.loading_plugins = false;
        self.loading_version = None;
    }

    /// Loads the plugin list of the selected engine: from the cache, or by
    /// asking for a background scan.
    pub fn load_plugins_for_selected(&mut self) -> (r: PluginLoad)
        ensures
            loaded(*old(self), *final(self), r),
            final(self).selection_in_range() == old(self).selection_in_range(),
            old(self).loading_consistent() ==> final(self).loading_consistent(),
            old(self).selected is Some && old(self).selected->0 < old(self).engines@.len()
                ==> final(self).loading_consistent(),
    {
        self.plugins = Vec::new();
        match self.selected {
            Some(idx) => {
                if idx < self.engines.len() {
                    let engine_id = self.engines[idx].id.clone();
                    match self.plugin_cache.get(engine_id.as_str()) {
                        Some(cached) => {
                            self.plugins = copy_plugins(cached);
                            self.loading_plugins = false;
                            self.loading_version = None;
                            return PluginLoad::FromCache;
                        },
                        None => {},
                    }
                    let engine_path = self.engines[idx].path.clone();
                    self.loading_plugins = true;
                    self.loading_version = Some(engine_id);
                    PluginLoad::Scan { engine_path }
                } else {
                    PluginLoad::Idle
                }
            },
            None => PluginLoad::Idle,
        }
    }

    /// Selects `selection`; if that changes the selection, loads its plugins.
    pub fn select_engine(&mut self, selection: Option<usize>) -> (r: PluginLoad)
        ensures
            selection == old(self).selected ==> (r is Idle && *final(self) == *old(self)),
            selection != old(self).selected ==> ({
                let mid = LauncherApp { selected: selection, ..*old(self) };
                loaded(mid, *final(self), r)
            }),
            old(self).selection_in_range() && (selection is Some ==> selection->0 < old(self).engines@.len())
                ==> final(self).selection_in_range(),
            old(self).loading_consistent() && (selection == old(self).selected || (selection is Some
                && selection->0 < old(self).engines@.len())) ==> final(self).loading_consistent(),
    {
        if selection == self.selected {
            return PluginLoad::Idle;
        }
        self.selected = selection;
        self.load_plugins_for_selected()
    }

    /// Takes the plugin list a background scan delivered: shows it, caches
    /// it under the engine being scanned, and stops loading.
    pub fn finish_loading(&mut self, plugins: Vec<PluginInfo>)
        ensures
            cache_view(final(self).plugin_cache@) == (match old(self).loading_version {
                Some(v) => cache_view(old(self).plugin_cache@).insert(v@, plugins@),
                None => cache_view(old(self).plugin_cache@),
            }),
            finished(*old(self), *final(self), plugins),
            final(self).loading_consistent(),
            final(self).selection_in_range() == old(self).selection_in_range(),
    {
        let cached = copy_plugins(&plugins);
        self.plugins = plugins;
        match &self.loading_version {
            Some(v) => {
                let key = v.clone();
                let ghost before = self.plugin_cache@;
                self.plugin_cache.insert(key, cached);
                assert(cache_view(self.plugin_cache@) =~= cache_view(before).insert(key@, plugins@));
            },
            None => {},
        }
        self.loading_plugins = false;
        self.loading_version = None;
    }

    /// The id of the selected engine.
    pub fn selected_engine_id(&self) -> (r: Option<String>)
        ensures
            match self.selected {
                Some(idx) if idx < self.engines@.len() => r matches Some(id) && id@ == self.engines@[idx as int].id@,
                _ => r is None,
            },
    {
        match self.selected {
            Some(idx) => {
                if idx < self.engines.len() {
                    Some(self.engines[idx].id.clone())
                } else {
                    None
                }
            },
            None => None,
        }
    }

    /// The label of the selected engine: its displayed version, followed by
    /// its id in parentheses where the two differ.
    pub fn selected_engine_label(&self) -> (r: Option<String>)
        ensures
            match self.selected {
                Some(idx) if idx < self.engines@.len() => r matches Some(l) && l@ == engine_label(self.engines@[idx as int]@.display_version, self.engines@[idx as int]@.id),
                _ => r is None,
            },
    {
        match self.selected {
            Some(idx) => {
                if idx < self.engines.len() {
                    Some(engine_label_text(&self.engines[idx]))
                } else {
                    None
                }
            },
            None => None,
        }
    }
}

/// An engine's label: the displayed version, then ` (id)` if the id differs.
pub open spec fn engine_label(display_version: Seq<char>, id: Seq<char>) -> Seq<char> {
    if id == display_version {
        display_version
    } else {
        display_version + " ("@ + id + ")"@
    }
}

fn engine_label_text(e: &EngineInfo) -> (r: String)
    ensures
        r@ == engine_label(e.display_version@, e.id@),
{
    if e.id == e.display_version {
        e.display_version.clone()
    } else {
        let mut s = e.display_version.clone();
        s.append(" (");
        s.append(e.id.as_str());
        s.append(")");
        s
    }
}

/// The row of an engine in the version list: its label, ` | ` and its path.
pub fn engine_row_label(e: &EngineInfo) -> (r: String)
    ensures
        r@ == engine_label(e.display_version@, e.id@) + " | "@ + e.path@,
{
    let mut s = engine_label_text(e);
    s.append(" | ");
    s.append(e.path.as_str());
    s
}


/// Once the scan of the selected engine has delivered its list, loading the
/// selected engine's plugins again takes that list from the cache, without
/// a new scan.
pub proof fn law_scanned_list_is_reused(
    a: LauncherApp,
    b: LauncherApp,
    c: LauncherApp,
    plugins: Vec<PluginInfo>,
    r: PluginLoad,
)
    requires
        finished(a, b, plugins),
        a.selected is Some,
        a.selected->0 < a.engines@.len(),
        a.loading_version is Some,
        a.loading_version->0@ == a.engines@[a.selected->0 as int].id@,
        loaded(b, c, r),
    ensures
        r is FromCache,
        c.plugins@ == plugins@,
{
    let idx = a.selected->0;
    let v = a.loading_version->0;
    assert(cache_view(b.plugin_cache@).contains_key(v@));
    assert(b.engines@[idx as int].id@ == v@);
    assert(cache_view(b.plugin_cache@)[v@] == b.plugin_cache@[v@]@);
}

/// The filter as typed, trimmed and lowercased.
pub open spec fn filter_key(typed: Seq<char>) -> Seq<char> {
    str_lowercase(trimmed(typed))
}

/// A plugin passes the filter when the filter is empty or occurs in the
/// plugin's lowercase name.
pub open spec fn passes_filter(name: Seq<char>, key: Seq<char>) -> bool {
    key.len() == 0 || contains_run(str_lowercase(name), key)
}

/// The plugins of one group (Marketplace or engine) that pass the filter,
/// in list order.
pub open spec fn shown_in_group(s: Seq<PluginInfo>, key: Seq<char>, marketplace: bool) -> Seq<PluginInfo>
    decreases s.len(),
{
    if s.len() == 0 {
        Seq::empty()
    } else if passes_filter(s.last().name@, key) && s.last().is_marketplace == marketplace {
        shown_in_group(s.drop_last(), key, marketplace).push(s.last())
    } else {
        shown_in_group(s.drop_last(), key, marketplace)
    }
}

impl LauncherApp {
    /// The plugins shown under the current filter: engine plugins, then
    /// Marketplace plugins.
    pub fn visible_plugins(&self) -> (r: (Vec<PluginInfo>, Vec<PluginInfo>))
        ensures
            r.0@ == shown_in_group(self.plugins@, filter_key(self.plugin_filter@), false),
            r.1@ == shown_in_group(self.plugins@, filter_key(self.plugin_filter@), true),
    {
        let trimmed_filter = trim(self.plugin_filter.as_str());
        let key = to_lowercase(trimmed_filter.as_str());
        let key_chars = chars_of(key.as_str());
        let no_filter = key.as_str().is_empty();
        let mut engine_group: Vec<PluginInfo> = Vec::new();
        let mut market_group: Vec<PluginInfo> = Vec::new();
        let mut i: usize = 0;
        while i < self.plugins.len()
            invariant
                i <= self.plugins.len(),
                key@ == filter_key(self.plugin_filter@),
                key_chars@ == key@,
                no_filter == (key@.len() == 0),
                engine_group@ == shown_in_group(self.plugins@.take(i as int), key@, false),
                market_group@ == shown_in_group(self.plugins@.take(i as int), key@, true),
            decreases self.plugins.len() - i,
        {
            let p = &self.plugins[i];
            assert(self.plugins@.take(i + 1).drop_last() =~= self.plugins@.take(i as int));
            assert(self.plugins@.take(i + 1).last() == *p);
            let passes = if no_filter {
                true
            } else {
                let lower = to_lowercase(p.name.as_str());
                let lower_chars = chars_of(lower.as_str());
                contains_run_exec(&lower_chars, &key_chars)
            };
            if passes {
                if p.is_marketplace {
                    market_group.push(copy_plugin(p));
                } else {
                    engine_group.push(copy_plugin(p));
                }
            }
            i = i + 1;
        }
        assert(self.plugins@.take(self.plugins.len() as int) =~= self.plugins@);
        (engine_group, market_group)
    }

    /// Applies the state chosen for a plugin of the selected engine, if it
    /// differs from the current one.
    pub fn choose_plugin_state(&mut self, engine_id: &str, plugin: &str, chosen: &str)
        ensures
            final(self).config@ == (if plugin_state(old(self).config@, engine_id@, plugin@) == chosen@ {
                old(self).config@
            } else {
                with_plugin_state(old(self).config@, engine_id@, plugin@, chosen@)
            }),
            final(self).engines == old(self).engines,
            final(self).selected == old(self).selected,
            final(self).plugins == old(self).plugins,
            final(self).status == old(self).status,
            final(self).plugin_filter == old(self).plugin_filter,
            final(self).loading_plugins == old(self).loading_plugins,
            final(self).loading_version == old(self).loading_version,
            final(self).plugin_cache == old(self).plugin_cache,
    {
        let current = get_plugin_state(&self.config, engine_id, plugin);
        let chosen_string = String::from_str(chosen);
        if current != chosen_string {
            set_plugin_state(&mut self.config, engine_id, plugin, chosen);
        }
    }

    /// Reports how saving the configuration went.
    pub fn report_save(&mut self, saved: Result<(), String>)
        ensures
            final(self).status@ == (match saved {
                Ok(_) => "Configuration saved."@,
                Err(e) => "Save failed: "@ + e@,
            }),
            *final(self) == (LauncherApp { status: final(self).status, ..*old(self) }),
    {
        match saved {
            Ok(_) => {
                self.status = String::from_str("Configuration saved.");
            },
            Err(e) => {
                let mut m = String::from_str("Save failed: ");
                m.append(e.as_str());
                self.status = m;
            },
        }
    }

    /// Reports the outcome of associating `.uproject` files: the message of
    /// success or failure alike.
    pub fn report_association(&mut self, outcome: Result<String, String>)
        ensures
            final(self).status@ == (match outcome {
                Ok(m) => m@,
                Err(m) => m@,
            }),
            *final(self) == (LauncherApp { status: final(self).status, ..*old(self) }),
    {
        match outcome {
            Ok(m) => {
                self.status = m;
            },
            Err(m) => {
                self.status = m;
            },
        }
    }

    /// The heading over the plugin list of the selected engine:
    /// `Plugins for ` and the engine's label.
    pub fn plugins_heading(&self) -> (r: Option<String>)
        ensures
            match self.selected {
                Some(idx) if idx < self.engines@.len() => r matches Some(h) && h@ == "Plugins for "@
                    + engine_label(self.engines@[idx as int]@.display_version, self.engines@[idx as int]@.id),
                _ => r is None,
            },
    {
        match self.selected_engine_label() {
            Some(label) => {
                let mut h = String::from_str("Plugins for ");
                h.append(label.as_str());
                Some(h)
            },
            None => None,
        }
    }
}

/// The text a plugin state shows in its chooser: `enable` and `disable` as
/// they are, anything else as `default`.
pub open spec fn state_choice(state: Seq<char>) -> Seq<char> {
    if state == "enable"@ {
        "enable"@
    } else if state == "disable"@ {
        "disable"@
    } else {
        "default"@
    }
}

/// The text a plugin state shows in its chooser.
pub fn state_choice_text(state: &str) -> (r: String)
    ensures
        r@ == state_choice(state@),
{
    let s = String::from_str(state);
    if s == String::from_str("enable") {
        String::from_str("enable")
    } else if s == String::from_str("disable") {
        String::from_str("disable")
    } else {
        String::from_str("default")
    }
}


proof fn lemma_shown_in_group(s: Seq<PluginInfo>, key: Seq<char>, marketplace: bool)
    ensures
        forall|p: PluginInfo| #[trigger] shown_in_group(s, key, marketplace).contains(p) <==> {
            &&& s.contains(p)
            &&& p.is_marketplace == marketplace
            &&& (key.len() == 0 || exists|k: int| 0 <= k && k + key.len() <= str_lowercase(p.name@).len()
                && #[trigger] str_lowercase(p.name@).subrange(k, k + key.len()) == key)
        },
    decreases s.len(),
{
    if s.len() > 0 {
        let t = s.drop_last();
        lemma_shown_in_group(t, key, marketplace);
        let g = shown_in_group(s, key, marketplace);
        let h = shown_in_group(t, key, marketplace);
        assert forall|p: PluginInfo| #[trigger] g.contains(p) <==> {
            &&& s.contains(p)
            &&& p.is_marketplace == marketplace
            &&& (key.len() == 0 || exists|k: int| 0 <= k && k + key.len() <= str_lowercase(p.name@).len()
                && #[trigger] str_lowercase(p.name@).subrange(k, k + key.len()) == key)
        } by {
            if g.contains(p) {
                if h.contains(p) {
                    let i = choose|i: int| 0 <= i < t.len() && t[i] == p;
                    assert(s[i] == p);
                } else {
                    let i = choose|i: int| 0 <= i < g.len() && g[i] == p;
                    assert(i == h.len());
                    assert(s[s.len() - 1] == p);
                }
            }
            if s.contains(p) && p.is_marketplace == marketplace && passes_filter(p.name@, key) {
                let i = choose|i: int| 0 <= i < s.len() && s[i] == p;
                if i < s.len() - 1 {
                    assert(t[i] == p);
                    assert(h.contains(p));
                    let j = choose|j: int| 0 <= j < h.len() && h[j] == p;
                    assert(g[j] == p);
                } else {
                    assert(g[h.len() as int] == p);
                }
            }
        }
    }
}

/// A plugin is shown in a group exactly when it is in the list, belongs to
/// that group (Marketplace or engine), and either the filter text, trimmed
/// and lowercased, is empty or it occurs anywhere in the plugin's lowercase
/// name as a contiguous run.
pub proof fn law_visible_plugins(plugins: Seq<PluginInfo>, typed: Seq<char>, marketplace: bool)
    ensures
        forall|p: PluginInfo| #[trigger] shown_in_group(plugins, filter_key(typed), marketplace).contains(p) <==> {
            &&& plugins.contains(p)
            &&& p.is_marketplace == marketplace
            &&& (str_lowercase(trimmed(typed)).len() == 0 || exists|k: int| 0 <= k
                && k + str_lowercase(trimmed(typed)).len() <= str_lowercase(p.name@).len()
                && #[trigger] str_lowercase(p.name@).subrange(k, k + str_lowercase(trimmed(typed)).len())
                    == str_lowercase(trimmed(typed)))
        },
{
    lemma_shown_in_group(plugins, filter_key(typed), marketplace);
}

} // verus!
