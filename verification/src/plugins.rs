//! Plugin override states per engine, and the enable/disable lists given to
//! the editor.

use vstd::prelude::*;
use vstd::string::*;
use crate::config::{Config, EngineConfig, EngineConfigView, empty_engine_view, string_map_view};
use crate::string_map::StringMap;
use crate::text::{views, lowercase_key, to_lowercase, chars_of};
use crate::sorting::{stable_sorted, sorted_by, sort_by_keys, lemma_stable_sorted, lemma_stable_sorted_images, key_through, lemma_stable_sorted_map};
use crate::text::{str_lowercase, eq_ignore_ascii_case, eq_ignore_ascii_case_exec, lemma_chars_le_antisym};
use crate::paths::{extension, file_stem, file_extension, file_stem_of};
use crate::json::{json_member_str, member_str};

verus! {

/// A plugin of an engine; Marketplace plugins are listed in their own group.
#[derive(Debug)]
pub struct PluginInfo {
    pub name: String,
    pub is_marketplace: bool,
}

/// A plugin as plain values.
pub struct PluginInfoView {
    pub name: Seq<char>,
    pub is_marketplace: bool,
}

impl View for PluginInfo {
    type V = PluginInfoView;

    open spec fn view(&self) -> PluginInfoView {
        PluginInfoView { name: self.name@, is_marketplace: self.is_marketplace }
    }
}

/// One entry met while walking an engine's `Engine/Plugins` directory: its
/// path components, its file name, whether it is a regular file, and the
/// file's text where it could be read.
pub struct PluginEntry {
    pub components: Vec<String>,
    pub file_name: Option<String>,
    pub is_file: bool,
    pub text: Option<String>,
}

/// The entry is a plugin descriptor: a file whose extension is `uplugin`.
pub open spec fn is_plugin_file(e: PluginEntry) -> bool {
    &&& e.is_file
    &&& e.file_name is Some
    &&& extension(e.file_name->0@) == Some("uplugin"@)
}

/// Some component of the entry's path is `Marketplace`, ignoring ASCII case.
pub open spec fn in_marketplace(e: PluginEntry) -> bool {
    exists|i: int| 0 <= i < e.components@.len() && eq_ignore_ascii_case(#[trigger] e.components@[i]@, "Marketplace"@)
}

/// The plugin's name: the descriptor's `Name` member where the file was read
/// and holds one as a string, else the file stem.
pub open spec fn entry_name(e: PluginEntry) -> Seq<char> {
    let stem = file_stem(e.file_name->0@);
    match e.text {
        Some(t) => match json_member_str(t@, "Name"@) {
            Some(n) => n,
            None => stem,
        },
        None => stem,
    }
}

/// The plugin an entry describes.
pub open spec fn entry_plugin(e: PluginEntry) -> PluginInfoView {
    PluginInfoView { name: entry_name(e), is_marketplace: in_marketplace(e) }
}

/// The plugins the descriptor entries describe, in walking order.
pub open spec fn plugin_candidates(entries: Seq<PluginEntry>) -> Seq<PluginInfoView>
    decreases entries.len(),
{
    if entries.len() == 0 {
        Seq::empty()
    } else if is_plugin_file(entries.last()) {
        plugin_candidates(entries.drop_last()).push(entry_plugin(entries.last()))
    } else {
        plugin_candidates(entries.drop_last())
    }
}

/// Ordering key of a plugin: its lowercase name.
pub open spec fn name_key() -> spec_fn(PluginInfoView) -> Seq<char> {
    |p: PluginInfoView| str_lowercase(p.name)
}

/// Drops each plugin whose name equals, ignoring ASCII case, the name of the
/// plugin kept just before it (`Vec::dedup_by`).
pub open spec fn dedup_names(s: Seq<PluginInfoView>) -> Seq<PluginInfoView>
    decreases s.len(),
{
    if s.len() == 0 {
        s
    } else {
        let r = dedup_names(s.drop_last());
        if r.len() > 0 && eq_ignore_ascii_case(s.last().name, r.last().name) {
            r
        } else {
            r.push(s.last())
        }
    }
}

/// The plugin list of an engine: the described plugins sorted by lowercase
/// name, with ASCII-case duplicates next to each other dropped.
pub open spec fn listed_plugins(entries: Seq<PluginEntry>) -> Seq<PluginInfoView> {
    dedup_names(stable_sorted(plugin_candidates(entries), name_key()))
}

/// The views of a sequence of plugins.
pub open spec fn plugin_views(s: Seq<PluginInfo>) -> Seq<PluginInfoView> {
    s.map_values(|p: PluginInfo| p@)
}

/// Whether a path component is `Marketplace`, ignoring ASCII case.
fn marketplace_path(components: &Vec<String>) -> (r: bool)
    ensures
        r == exists|i: int| 0 <= i < components@.len() && eq_ignore_ascii_case(#[trigger] components@[i]@, "Marketplace"@),
{
    let target = chars_of("Marketplace");
    let mut i: usize = 0;
    while i < components.len()
        invariant
            target@ == "Marketplace"@,
            i <= components.len(),
            forall|j: int| 0 <= j < i ==> !eq_ignore_ascii_case(#[trigger] components@[j]@, "Marketplace"@),
        decreases components.len() - i,
    {
        let c = chars_of(components[i].as_str());
        if eq_ignore_ascii_case_exec(&c, &target) {
            return true;
        }
        i = i + 1;
    }
    false
}

/// Whether a file name is that of a plugin descriptor: its extension is
/// `uplugin`.
pub fn is_plugin_descriptor(file_name: &str) -> (r: bool)
    ensures
        r == (extension(file_name@) == Some("uplugin"@)),
{
    let uplugin = String::from_str("uplugin");
    match file_extension(file_name) {
        Some(ext) => ext == uplugin,
        None => false,
    }
}

/// The plugin an entry describes, if it is a descriptor file.
pub fn plugin_from_entry(e: &PluginEntry) -> (r: Option<PluginInfo>)
    ensures
        r is Some <==> is_plugin_file(*e),
        r matches Some(p) ==> p@ == entry_plugin(*e),
{
    if !e.is_file {
        return None;
    }
    let file_name = match &e.file_name {
        Some(f) => f,
        None => return None,
    };
    if !is_plugin_descriptor(file_name.as_str()) {
        return None;
    }
    let is_marketplace = marketplace_path(&e.components);
    let name = match &e.text {
        Some(t) => match member_str(t.as_str(), "Name") {
            Some(n) => n,
            None => file_stem_of(file_name.as_str()),
        },
        None => file_stem_of(file_name.as_str()),
    };
    Some(PluginInfo { name, is_marketplace })
}

/// A copy of a plugin.
pub fn copy_plugin(p: &PluginInfo) -> (r: PluginInfo)
    ensures
        r == *p,
{
    PluginInfo { name: p.name.clone(), is_marketplace: p.is_marketplace }
}

impl Clone for PluginInfo {
    fn clone(&self) -> (r: Self)
        ensures
            r == *self,
    {
        copy_plugin(self)
    }
}

/// A copy of a list of plugins.
pub fn copy_plugins(v: &Vec<PluginInfo>) -> (r: Vec<PluginInfo>)
    ensures
        r@ == v@,
{
    let mut r: Vec<PluginInfo> = Vec::new();
    let mut i: usize = 0;
    while i < v.len()
        invariant
            i <= v.len(),
            r@ == v@.take(i as int),
        decreases v.len() - i,
    {
        r.push(copy_plugin(&v[i]));
        assert(r@ =~= v@.take(i + 1));
        i = i + 1;
    }
    assert(v@.take(v.len() as int) =~= v@);
    r
}

/// Keeps a plugin only if its name differs, ignoring ASCII case, from the
/// name of the plugin kept before it.
fn dedup_plugins(items: &Vec<PluginInfo>) -> (r: Vec<PluginInfo>)
    ensures
        plugin_views(r@) == dedup_names(plugin_views(items@)),
{
    let mut out: Vec<PluginInfo> = Vec::new();
    let mut last: Vec<char> = Vec::new();
    let mut i: usize = 0;
    while i < items.len()
        invariant
            i <= items.len(),
            plugin_views(out@) == dedup_names(plugin_views(items@.take(i as int))),
            out.len() > 0 ==> last@ == out@.last().name@,
        decreases items.len() - i,
    {
        let ghost prev = plugin_views(items@.take(i as int));
        assert(plugin_views(items@.take(i + 1)).drop_last() =~= prev);
        assert(plugin_views(items@.take(i + 1)).last() == items@[i as int]@);
        let name = chars_of(items[i].name.as_str());
        let dup = out.len() > 0 && eq_ignore_ascii_case_exec(&name, &last);
        if !dup {
            let ghost old_out = out@;
            out.push(copy_plugin(&items[i]));
            last = name;
            assert(plugin_views(out@) =~= plugin_views(old_out).push(items@[i as int]@));
        } else {
            assert(plugin_views(out@).last() == out@.last()@);
        }
        i = i + 1;
    }
    assert(items@.take(items.len() as int) =~= items@);
    out
}

/// Builds an engine's plugin list from the entries met while walking its
/// `Engine/Plugins` directory: descriptor files only, sorted by lowercase
/// name, ASCII-case duplicates next to each other dropped.
pub fn collect_plugins(entries: &Vec<PluginEntry>) -> (r: Vec<PluginInfo>)
    ensures
        plugin_views(r@) == listed_plugins(entries@),
{
    let mut found: Vec<PluginInfo> = Vec::new();
    let mut keys: Vec<Vec<char>> = Vec::new();
    let ghost key = key_through(|p: PluginInfo| p@, name_key());
    let mut i: usize = 0;
    while i < entries.len()
        invariant
            i <= entries.len(),
            plugin_views(found@) == plugin_candidates(entries@.take(i as int)),
            keys.len() == found.len(),
            key == key_through(|p: PluginInfo| p@, name_key()),
            forall|j: int| 0 <= j < found.len() ==> (#[trigger] keys@[j])@ == key(found@[j]),
        decreases entries.len() - i,
    {
        assert(entries@.take(i + 1).drop_last() =~= entries@.take(i as int));
        assert(entries@.take(i + 1).last() == entries@[i as int]);
        match plugin_from_entry(&entries[i]) {
            Some(p) => {
                let ghost old_found = found@;
                let lower = to_lowercase(p.name.as_str());
                keys.push(chars_of(lower.as_str()));
                found.push(p);
                assert(plugin_views(found@) =~= plugin_views(old_found).push(found@.last()@));
            },
            None => {},
        }
        i = i + 1;
    }
    assert(entries@.take(entries.len() as int) =~= entries@);
    let sorted = sort_by_keys(found, keys, Ghost(key));
    proof {
        lemma_stable_sorted_map(found@, |p: PluginInfo| p@, name_key());
        assert(plugin_views(found@) =~= found@.map_values(|p: PluginInfo| p@));
        assert(plugin_views(sorted@) =~= sorted@.map_values(|p: PluginInfo| p@));
    }
    dedup_plugins(&sorted)
}

/// The state a plugin has for an engine: the stored override, or
/// `"default"` where none is stored.
pub open spec fn plugin_state(c: Map<Seq<char>, EngineConfigView>, version: Seq<char>, plugin: Seq<char>) -> Seq<char> {
    if c.contains_key(version) && c[version].plugins.contains_key(plugin) {
        c[version].plugins[plugin]
    } else {
        "default"@
    }
}

/// The configuration after setting `plugin`'s state for `version`: the
/// engine entry exists afterwards (created empty if missing); state
/// `"default"` removes the override, any other state is stored.
pub open spec fn with_plugin_state(
    c: Map<Seq<char>, EngineConfigView>,
    version: Seq<char>,
    plugin: Seq<char>,
    state: Seq<char>,
) -> Map<Seq<char>, EngineConfigView> {
    let e = if c.contains_key(version) { c[version] } else { empty_engine_view() };
    let plugins = if state == "default"@ { e.plugins.remove(plugin) } else { e.plugins.insert(plugin, state) };
    c.insert(version, EngineConfigView { path: e.path, plugins })
}

/// The override state of `plugin` for the engine `version`, or `"default"`.
pub fn get_plugin_state(config: &Config, version: &str, plugin: &str) -> (r: String)
    ensures
        r@ == plugin_state(config@, version@, plugin@),
{
    match config.engines.get(version) {
        Some(engine) => match engine.plugins.get(plugin) {
            Some(state) => state.clone(),
            None => String::from_str("default"),
        },
        None => String::from_str("default"),
    }
}

/// Sets the override state of `plugin` for the engine `version`; the state
/// `"default"` removes the override.
pub fn set_plugin_state(config: &mut Config, version: &str, plugin: &str, state: &str)
    ensures
        final(config)@ == with_plugin_state(old(config)@, version@, plugin@, state@),
{
    let ghost c0 = config@;
    let mut engine = match config.engines.remove(version) {
        Some(e) => e,
        None => EngineConfig::new(),
    };
    let ghost e0 = engine@;
    assert(e0 == (if c0.contains_key(version@) { c0[version@] } else { empty_engine_view() }));
    let default_state = String::from_str("default");
    let st = String::from_str(state);
    if st == default_state {
        engine.plugins.remove(plugin);
        assert(engine@.plugins =~= e0.plugins.remove(plugin@));
    } else {
        engine.plugins.insert(String::from_str(plugin), st);
        assert(engine@.plugins =~= e0.plugins.insert(plugin@, state@));
    }
    let ghost e1 = engine@;
    config.engines.insert(String::from_str(version), engine);
    assert(config@ =~= c0.insert(version@, e1));
}


/// The overrides stored for an engine (none if it has no entry).
pub open spec fn engine_overrides(c: Map<Seq<char>, EngineConfigView>, version: Seq<char>) -> Map<Seq<char>, Seq<char>> {
    if c.contains_key(version) {
        c[version].plugins
    } else {
        Map::empty()
    }
}

/// `names` lists, each once, exactly the plugins whose override is `state`.
pub open spec fn lists_plugins_in_state(names: Seq<Seq<char>>, overrides: Map<Seq<char>, Seq<char>>, state: Seq<char>) -> bool {
    &&& names.no_duplicates()
    &&& forall|n: Seq<char>| #[trigger] names.contains(n) <==> (overrides.contains_key(n) && overrides[n] == state)
}

/// The names of the plugins whose override is `state`, in storage order.
fn names_in_state(plugins: &StringMap<String>, state: &String) -> (r: Vec<String>)
    ensures
        lists_plugins_in_state(views(r@), string_map_view(plugins@), state@),
{
    let n = plugins.len();
    let mut r: Vec<String> = Vec::new();
    let mut i: usize = 0;
    while i < n
        invariant
            n == plugins.keys().len(),
            plugins.enumerates(),
            i <= n,
            views(r@).no_duplicates(),
            forall|m: Seq<char>| #[trigger] views(r@).contains(m) <==>
                (exists|j: int| 0 <= j < i && plugins.keys()[j] == m && plugins.values()[j]@ == state@),
        decreases n - i,
    {
        let name = plugins.key_at(i);
        let value = plugins.value_at(i);
        if *value == *state {
            let ghost old_r = r@;
            r.push(name.clone());
            proof {
                assert(views(r@) =~= views(old_r).push(name@));
                assert(!views(old_r).contains(name@)) by {
                    if views(old_r).contains(name@) {
                        let j = choose|j: int| 0 <= j < i && plugins.keys()[j] == name@ && plugins.values()[j]@ == state@;
                        assert(plugins.keys()[j] == plugins.keys()[i as int]);
                    }
                }
                assert(views(r@).no_duplicates()) by {
                    assert forall|a: int, b: int| 0 <= a < b < views(r@).len() implies views(r@)[a] != views(r@)[b] by {
                        if b == views(old_r).len() {
                            assert(views(old_r).contains(views(old_r)[a]));
                        } else {
                            assert(views(old_r)[a] != views(old_r)[b]);
                        }
                    }
                }
                assert forall|m: Seq<char>| #[trigger] views(r@).contains(m) <==>
                    (exists|j: int| 0 <= j < i + 1 && plugins.keys()[j] == m && plugins.values()[j]@ == state@) by {
                    if views(r@).contains(m) && m != name@ {
                        let a = choose|a: int| 0 <= a < views(r@).len() && views(r@)[a] == m;
                        assert(views(old_r)[a] == m);
                        assert(views(old_r).contains(m));
                    }
                    if exists|j: int| 0 <= j < i + 1 && plugins.keys()[j] == m && plugins.values()[j]@ == state@ {
                        let j = choose|j: int| 0 <= j < i + 1 && plugins.keys()[j] == m && plugins.values()[j]@ == state@;
                        if j < i {
                            assert(views(old_r).contains(m));
                            let a = choose|a: int| 0 <= a < views(old_r).len() && views(old_r)[a] == m;
                            assert(views(r@)[a] == m);
                        } else {
                            assert(views(r@)[views(old_r).len() as int] == m);
                        }
                    }
                }
            }
        } else {
            proof {
                assert forall|m: Seq<char>| #[trigger] views(r@).contains(m) <==>
                    (exists|j: int| 0 <= j < i + 1 && plugins.keys()[j] == m && plugins.values()[j]@ == state@) by {
                    if exists|j: int| 0 <= j < i + 1 && plugins.keys()[j] == m && plugins.values()[j]@ == state@ {
                        let j = choose|j: int| 0 <= j < i + 1 && plugins.keys()[j] == m && plugins.values()[j]@ == state@;
                        assert(j < i);
                    }
                }
            }
        }
        i = i + 1;
    }
    proof {
        let pv = string_map_view(plugins@);
        assert forall|m: Seq<char>| #[trigger] views(r@).contains(m) <==> (pv.contains_key(m) && pv[m] == state@) by {
            if pv.contains_key(m) && pv[m] == state@ {
                assert(plugins.keys().contains(m));
                let j = choose|j: int| 0 <= j < plugins.keys().len() && plugins.keys()[j] == m;
                assert(plugins@[plugins.keys()[j]] == plugins.values()[j]);
            }
            if views(r@).contains(m) {
                let j = choose|j: int| 0 <= j < n && plugins.keys()[j] == m && plugins.values()[j]@ == state@;
                assert(plugins@[plugins.keys()[j]] == plugins.values()[j]);
                assert(plugins.keys().contains(m));
            }
        }
    }
    r
}

/// Sorts strings by their lowercase mapping, stably.
pub fn sort_by_lowercase(v: Vec<String>) -> (r: Vec<String>)
    ensures
        r@ == stable_sorted(v@, lowercase_key()),
{
    let mut keys: Vec<Vec<char>> = Vec::new();
    let mut i: usize = 0;
    while i < v.len()
        invariant
            i <= v.len(),
            keys.len() == i,
            forall|j: int| 0 <= j < i ==> (#[trigger] keys@[j])@ == lowercase_key()(v@[j]),
        decreases v.len() - i,
    {
        let lower = to_lowercase(v[i].as_str());
        keys.push(chars_of(lower.as_str()));
        i = i + 1;
    }
    sort_by_keys(v, keys, Ghost(lowercase_key()))
}

/// The names to enable and to disable for an engine, each list sorted by
/// lowercase name.
pub open spec fn overrides_hold(
    enable: Seq<String>,
    disable: Seq<String>,
    c: Map<Seq<char>, EngineConfigView>,
    version: Seq<char>,
) -> bool {
    &&& lists_plugins_in_state(views(enable), engine_overrides(c, version), "enable"@)
    &&& lists_plugins_in_state(views(disable), engine_overrides(c, version), "disable"@)
    &&& sorted_by(enable, lowercase_key())
    &&& sorted_by(disable, lowercase_key())
}

proof fn lemma_sorted_names(v: Seq<String>, overrides: Map<Seq<char>, Seq<char>>, state: Seq<char>)
    requires
        lists_plugins_in_state(views(v), overrides, state),
    ensures
        lists_plugins_in_state(views(stable_sorted(v, lowercase_key())), overrides, state),
        sorted_by(stable_sorted(v, lowercase_key()), lowercase_key()),
{
    let f = |s: String| s@;
    assert(views(v) =~= v.map_values(f));
    lemma_stable_sorted_images(v, lowercase_key(), f);
    lemma_stable_sorted(v, lowercase_key());
    let w = stable_sorted(v, lowercase_key());
    assert(views(w) =~= w.map_values(f));
    assert forall|n: Seq<char>| #[trigger] views(w).contains(n) <==> (overrides.contains_key(n) && overrides[n] == state) by {
        assert(w.map_values(f).contains(n) <==> v.map_values(f).contains(n));
        assert(views(v).contains(n) <==> (overrides.contains_key(n) && overrides[n] == state));
    }
}

/// The plugins to enable and to disable when launching `version`: the names
/// whose override is `"enable"`, resp. `"disable"`, each once, each list
/// sorted by lowercase name.
pub fn plugin_overrides(config: &Config, version: &str) -> (r: (Vec<String>, Vec<String>))
    ensures
        overrides_hold(r.0@, r.1@, config@, version@),
{
    let enable_state = String::from_str("enable");
    let disable_state = String::from_str("disable");
    let (enable, disable) = match config.engines.get(version) {
        Some(engine) => {
            let e = names_in_state(&engine.plugins, &enable_state);
            let d = names_in_state(&engine.plugins, &disable_state);
            (e, d)
        },
        None => {
            let e: Vec<String> = Vec::new();
            let d: Vec<String> = Vec::new();
            proof {
                assert(views(e@) =~= Seq::<Seq<char>>::empty());
                assert(views(d@) =~= Seq::<Seq<char>>::empty());
            }
            (e, d)
        },
    };
    proof {
        lemma_sorted_names(enable@, engine_overrides(config@, version@), "enable"@);
        lemma_sorted_names(disable@, engine_overrides(config@, version@), "disable"@);
    }
    (sort_by_lowercase(enable), sort_by_lowercase(disable))
}

/// Reading a plugin's state right after setting it gives the state that was
/// set; setting `"default"` reads back as `"default"`.
pub proof fn law_get_after_set(c: Map<Seq<char>, EngineConfigView>, version: Seq<char>, plugin: Seq<char>, state: Seq<char>)
    ensures
        plugin_state(with_plugin_state(c, version, plugin, state), version, plugin) == state,
{
}

/// Setting one plugin's state for one engine leaves the state of every other
/// (engine, plugin) pair unchanged.
pub proof fn law_set_leaves_others(
    c: Map<Seq<char>, EngineConfigView>,
    version: Seq<char>,
    plugin: Seq<char>,
    state: Seq<char>,
    other_version: Seq<char>,
    other_plugin: Seq<char>,
)
    requires
        other_version != version || other_plugin != plugin,
    ensures
        plugin_state(with_plugin_state(c, version, plugin, state), other_version, other_plugin)
            == plugin_state(c, other_version, other_plugin),
{
}

/// Setting a state twice in a row is the same as setting the second one:
/// the last setting wins.
pub proof fn law_last_set_wins(
    c: Map<Seq<char>, EngineConfigView>,
    version: Seq<char>,
    plugin: Seq<char>,
    first: Seq<char>,
    second: Seq<char>,
)
    ensures
        with_plugin_state(with_plugin_state(c, version, plugin, first), version, plugin, second)
            == with_plugin_state(c, version, plugin, second),
{
    let a = with_plugin_state(with_plugin_state(c, version, plugin, first), version, plugin, second);
    let b = with_plugin_state(c, version, plugin, second);
    let e = if c.contains_key(version) { c[version] } else { empty_engine_view() };
    if first == "default"@ {
        if second == "default"@ {
            assert(e.plugins.remove(plugin).remove(plugin) =~= e.plugins.remove(plugin));
        } else {
            assert(e.plugins.remove(plugin).insert(plugin, second) =~= e.plugins.insert(plugin, second));
        }
    } else {
        if second == "default"@ {
            assert(e.plugins.insert(plugin, first).remove(plugin) =~= e.plugins.remove(plugin));
        } else {
            assert(e.plugins.insert(plugin, first).insert(plugin, second) =~= e.plugins.insert(plugin, second));
        }
    }
    assert(a =~= b);
}

/// Setting a state never changes an engine's configured path, and the engine
/// has an entry afterwards.
pub proof fn law_set_keeps_path(c: Map<Seq<char>, EngineConfigView>, version: Seq<char>, plugin: Seq<char>, state: Seq<char>)
    ensures
        with_plugin_state(c, version, plugin, state).contains_key(version),
        with_plugin_state(c, version, plugin, state)[version].path
            == (if c.contains_key(version) { c[version].path } else { None }),
{
}


proof fn lemma_dedup_names(s: Seq<PluginInfoView>)
    ensures
        forall|i: int| 0 <= i < dedup_names(s).len() ==> s.contains(#[trigger] dedup_names(s)[i]),
        forall|i: int| 0 <= i < dedup_names(s).len() - 1 ==>
            !eq_ignore_ascii_case(#[trigger] dedup_names(s)[i].name, dedup_names(s)[i + 1].name),
        sorted_by(s, name_key()) ==> sorted_by(dedup_names(s), name_key()),
    decreases s.len(),
{
    if s.len() > 0 {
        let t = s.drop_last();
        lemma_dedup_names(t);
        let r = dedup_names(t);
        let d = dedup_names(s);
        assert forall|i: int| 0 <= i < r.len() implies s.contains(#[trigger] r[i]) by {
            assert(t.contains(r[i]));
            let j = choose|j: int| 0 <= j < t.len() && t[j] == r[i];
            assert(s[j] == r[i]);
        }
        assert(s.contains(s.last())) by {
            assert(s[s.len() - 1] == s.last());
        }
        if sorted_by(s, name_key()) {
            assert(sorted_by(t, name_key())) by {
                assert forall|a: int, b: int| 0 <= a < b < t.len() implies chars_le_key(t[a], t[b]) by {
                    assert(t[a] == s[a] && t[b] == s[b]);
                }
            }
            assert forall|a: int, b: int| 0 <= a < b < d.len() implies
                crate::text::chars_le(name_key()(#[trigger] d[a]), name_key()(#[trigger] d[b])) by {
                if b == r.len() && d.len() == r.len() + 1 {
                    assert(t.contains(r[a]));
                    let j = choose|j: int| 0 <= j < t.len() && t[j] == r[a];
                    assert(s[j] == r[a]);
                }
            }
        }
    }
}

spec fn chars_le_key(a: PluginInfoView, b: PluginInfoView) -> bool {
    crate::text::chars_le(name_key()(a), name_key()(b))
}

proof fn lemma_candidates_contains(s: Seq<PluginEntry>)
    ensures
        forall|x: PluginInfoView| #[trigger] plugin_candidates(s).contains(x) <==>
            (exists|i: int| 0 <= i < s.len() && is_plugin_file(s[i]) && entry_plugin(s[i]) == x),
    decreases s.len(),
{
    if s.len() > 0 {
        let t = s.drop_last();
        lemma_candidates_contains(t);
        assert forall|x: PluginInfoView| #[trigger] plugin_candidates(s).contains(x) <==>
            (exists|i: int| 0 <= i < s.len() && is_plugin_file(s[i]) && entry_plugin(s[i]) == x) by {
            if plugin_candidates(s).contains(x) {
                if plugin_candidates(t).contains(x) {
                    let i = choose|i: int| 0 <= i < t.len() && is_plugin_file(t[i]) && entry_plugin(t[i]) == x;
                    assert(s[i] == t[i]);
                } else {
                    let k = choose|k: int| 0 <= k < plugin_candidates(s).len() && plugin_candidates(s)[k] == x;
                    assert(k == plugin_candidates(t).len());
                    assert(is_plugin_file(s[s.len() - 1]) && entry_plugin(s[s.len() - 1]) == x);
                }
            }
            if exists|i: int| 0 <= i < s.len() && is_plugin_file(s[i]) && entry_plugin(s[i]) == x {
                let i = choose|i: int| 0 <= i < s.len() && is_plugin_file(s[i]) && entry_plugin(s[i]) == x;
                if i < s.len() - 1 {
                    assert(t[i] == s[i]);
                    assert(plugin_candidates(t).contains(x));
                    let k = choose|k: int| 0 <= k < plugin_candidates(t).len() && plugin_candidates(t)[k] == x;
                    assert(plugin_candidates(s)[k] == x);
                } else {
                    assert(plugin_candidates(s)[plugin_candidates(t).len() as int] == x);
                }
            }
        }
    }
}

proof fn lemma_dedup_represents(s: Seq<PluginInfoView>)
    ensures
        forall|x: PluginInfoView| #[trigger] s.contains(x) ==>
            exists|j: int| 0 <= j < dedup_names(s).len() && eq_ignore_ascii_case(x.name, #[trigger] dedup_names(s)[j].name),
    decreases s.len(),
{
    if s.len() > 0 {
        let t = s.drop_last();
        lemma_dedup_represents(t);
        let r = dedup_names(t);
        let d = dedup_names(s);
        assert forall|x: PluginInfoView| #[trigger] s.contains(x) implies
            exists|j: int| 0 <= j < d.len() && eq_ignore_ascii_case(x.name, #[trigger] d[j].name) by {
            let i = choose|i: int| 0 <= i < s.len() && s[i] == x;
            if i < s.len() - 1 {
                assert(t[i] == x);
                assert(t.contains(x));
                let j = choose|j: int| 0 <= j < r.len() && eq_ignore_ascii_case(x.name, #[trigger] r[j].name);
                assert(d[j] == r[j]);
            } else if r.len() > 0 && eq_ignore_ascii_case(s.last().name, r.last().name) {
                assert(d[r.len() - 1] == r.last());
            } else {
                assert(d[r.len() as int] == x);
                assert(eq_ignore_ascii_case(x.name, x.name));
            }
        }
    }
}

/// An engine's plugin list is sorted by the lowercase of the plugin names,
/// and no two neighbours in it have names equal up to ASCII case.
pub proof fn law_plugin_list_sorted_and_deduplicated(entries: Seq<PluginEntry>)
    ensures
        sorted_by(listed_plugins(entries), name_key()),
        forall|i: int, j: int| 0 <= i < j < listed_plugins(entries).len() ==>
            crate::text::chars_le(str_lowercase(#[trigger] listed_plugins(entries)[i].name),
                str_lowercase(#[trigger] listed_plugins(entries)[j].name)),
        forall|i: int| 0 <= i < listed_plugins(entries).len() - 1 ==>
            !eq_ignore_ascii_case(#[trigger] listed_plugins(entries)[i].name, listed_plugins(entries)[i + 1].name),
{
    let c = plugin_candidates(entries);
    lemma_stable_sorted(c, name_key());
    lemma_dedup_names(stable_sorted(c, name_key()));
    let l = listed_plugins(entries);
    assert forall|i: int, j: int| 0 <= i < j < l.len() implies
        crate::text::chars_le(str_lowercase(#[trigger] l[i].name), str_lowercase(#[trigger] l[j].name)) by {
        assert(crate::text::chars_le(name_key()(l[i]), name_key()(l[j])));
    }
}

/// Every plugin in an engine's list is described by one of the walked
/// descriptor files: a regular file with extension `uplugin`, whose name the
/// plugin carries, and the plugin is a Marketplace one exactly when a
/// component of that file's path is `Marketplace` up to ASCII case.
pub proof fn law_plugin_list_from_descriptors(entries: Seq<PluginEntry>)
    ensures
        forall|i: int| 0 <= i < listed_plugins(entries).len() ==>
            plugin_candidates(entries).contains(#[trigger] listed_plugins(entries)[i]),
        forall|i: int| 0 <= i < listed_plugins(entries).len() ==> exists|k: int| {
            &&& 0 <= k < entries.len()
            &&& entries[k].is_file
            &&& entries[k].file_name is Some
            &&& extension(entries[k].file_name->0@) == Some("uplugin"@)
            &&& #[trigger] listed_plugins(entries)[i].name == entry_name(entries[k])
            &&& listed_plugins(entries)[i].is_marketplace == (exists|m: int| 0 <= m < entries[k].components@.len()
                && eq_ignore_ascii_case(#[trigger] entries[k].components@[m]@, "Marketplace"@))
        },
{
    let c = plugin_candidates(entries);
    let s = stable_sorted(c, name_key());
    lemma_stable_sorted(c, name_key());
    lemma_dedup_names(s);
    lemma_candidates_contains(entries);
    assert forall|i: int| 0 <= i < listed_plugins(entries).len() implies
        c.contains(#[trigger] listed_plugins(entries)[i]) by {
        let x = listed_plugins(entries)[i];
        assert(s.contains(x));
        s.to_multiset_ensures();
        c.to_multiset_ensures();
        assert(s.to_multiset().count(x) > 0);
        assert(c.to_multiset().count(x) > 0);
    }
    assert forall|i: int| 0 <= i < listed_plugins(entries).len() implies exists|k: int| {
        &&& 0 <= k < entries.len()
        &&& entries[k].is_file
        &&& entries[k].file_name is Some
        &&& extension(entries[k].file_name->0@) == Some("uplugin"@)
        &&& #[trigger] listed_plugins(entries)[i].name == entry_name(entries[k])
        &&& listed_plugins(entries)[i].is_marketplace == (exists|m: int| 0 <= m < entries[k].components@.len()
            && eq_ignore_ascii_case(#[trigger] entries[k].components@[m]@, "Marketplace"@))
    } by {
        let x = listed_plugins(entries)[i];
        assert(c.contains(x));
        let k = choose|k: int| 0 <= k < entries.len() && is_plugin_file(entries[k]) && entry_plugin(entries[k]) == x;
        assert(x.name == entry_name(entries[k]));
    }
}

/// Every walked descriptor file (a regular file with extension `uplugin`),
/// Marketplace ones included, has a plugin in the list whose name equals
/// the file's plugin name up to ASCII case.
pub proof fn law_plugin_list_complete(entries: Seq<PluginEntry>)
    ensures
        forall|k: int| 0 <= k < entries.len() && (#[trigger] entries[k]).is_file && entries[k].file_name is Some
            && extension(entries[k].file_name->0@) == Some("uplugin"@) ==>
            exists|j: int| 0 <= j < listed_plugins(entries).len()
                && eq_ignore_ascii_case(entry_name(entries[k]), #[trigger] listed_plugins(entries)[j].name),
{
    let c = plugin_candidates(entries);
    let s = stable_sorted(c, name_key());
    lemma_stable_sorted(c, name_key());
    lemma_candidates_contains(entries);
    lemma_dedup_represents(s);
    assert forall|k: int| 0 <= k < entries.len() && (#[trigger] entries[k]).is_file && entries[k].file_name is Some
        && extension(entries[k].file_name->0@) == Some("uplugin"@) implies
        exists|j: int| 0 <= j < listed_plugins(entries).len()
            && eq_ignore_ascii_case(entry_name(entries[k]), #[trigger] listed_plugins(entries)[j].name) by {
        let x = entry_plugin(entries[k]);
        assert(is_plugin_file(entries[k]));
        assert(c.contains(x));
        s.to_multiset_ensures();
        c.to_multiset_ensures();
        assert(c.to_multiset().count(x) > 0);
        assert(s.to_multiset().count(x) > 0);
        assert(s.contains(x));
        assert(listed_plugins(entries) == dedup_names(s));
        let j = choose|j: int| 0 <= j < dedup_names(s).len() && eq_ignore_ascii_case(x.name, #[trigger] dedup_names(s)[j].name);
        assert(eq_ignore_ascii_case(entry_name(entries[k]), listed_plugins(entries)[j].name));
    }
}

/// A plugin is in the enable list exactly when its state is `"enable"`, and
/// in the disable list exactly when its state is `"disable"`; so no plugin
/// is in both.
pub proof fn law_overrides_follow_state(
    enable: Seq<String>,
    disable: Seq<String>,
    c: Map<Seq<char>, EngineConfigView>,
    version: Seq<char>,
    plugin: Seq<char>,
)
    requires
        overrides_hold(enable, disable, c, version),
    ensures
        views(enable).contains(plugin) <==> plugin_state(c, version, plugin) == "enable"@,
        views(disable).contains(plugin) <==> plugin_state(c, version, plugin) == "disable"@,
        !(views(enable).contains(plugin) && views(disable).contains(plugin)),
{
    reveal_strlit("enable");
    reveal_strlit("disable");
    reveal_strlit("default");
    assert("enable"@ != "disable"@) by {
        assert("enable"@[0] != "disable"@[0]);
    }
    assert("enable"@ != "default"@) by {
        assert("enable"@[0] != "default"@[0]);
    }
    assert("disable"@ != "default"@) by {
        assert("disable"@[1] != "default"@[1]);
    }
}


/// Names that are distinct stay distinct after lowercasing.
pub open spec fn lowercase_distinct(names: Map<Seq<char>, Seq<char>>) -> bool {
    forall|n: Seq<char>, m: Seq<char>|
        names.contains_key(n) && names.contains_key(m) && #[trigger] str_lowercase(n) == #[trigger] str_lowercase(m)
            ==> n == m
}

proof fn lemma_sorted_prefix_equal(s: Seq<String>, t: Seq<String>, i: int)
    requires
        views(s).no_duplicates(),
        views(t).no_duplicates(),
        views(s).len() == views(t).len(),
        forall|n: Seq<char>| #[trigger] views(s).contains(n) <==> views(t).contains(n),
        sorted_by(s, lowercase_key()),
        sorted_by(t, lowercase_key()),
        forall|n: Seq<char>, m: Seq<char>|
            views(s).contains(n) && views(s).contains(m) && #[trigger] str_lowercase(n) == #[trigger] str_lowercase(m)
                ==> n == m,
        0 <= i <= s.len(),
    ensures
        forall|k: int| 0 <= k < i ==> #[trigger] views(s)[k] == views(t)[k],
    decreases i,
{
    if i > 0 {
        lemma_sorted_prefix_equal(s, t, i - 1);
        let vs = views(s);
        let vt = views(t);
        let p = i - 1;
        let a = vs[p];
        let b = vt[p];
        if a != b {
            assert(vs.contains(a));
            assert(vt.contains(a));
            let j = choose|j: int| 0 <= j < vt.len() && vt[j] == a;
            assert(j > p) by {
                if j < p {
                    assert(vt[j] == vs[j]);
                    assert(vs[j] != vs[p]);
                }
            }
            assert(vt.contains(b));
            assert(vs.contains(b));
            let m = choose|m: int| 0 <= m < vs.len() && vs[m] == b;
            assert(m > p) by {
                if m < p {
                    assert(vt[m] == vs[m]);
                    assert(vt[m] != vt[p]);
                }
            }
            assert(crate::text::chars_le(lowercase_key()(t[p]), lowercase_key()(t[j])));
            assert(crate::text::chars_le(lowercase_key()(s[p]), lowercase_key()(s[m])));
            assert(s[p]@ == a && s[m]@ == b && t[p]@ == b && t[j]@ == a);
            lemma_chars_le_antisym(str_lowercase(a), str_lowercase(b));
            assert(false);
        }
    }
}

/// The enable and disable lists depend on the engine's overrides alone, not
/// on the order in which they are stored: two configurations that hold the
/// same overrides for an engine, no two names equal after lowercasing, give
/// the same lists.
pub proof fn law_overrides_determined(
    enable1: Seq<String>,
    disable1: Seq<String>,
    c1: Map<Seq<char>, EngineConfigView>,
    enable2: Seq<String>,
    disable2: Seq<String>,
    c2: Map<Seq<char>, EngineConfigView>,
    version: Seq<char>,
)
    requires
        overrides_hold(enable1, disable1, c1, version),
        overrides_hold(enable2, disable2, c2, version),
        engine_overrides(c1, version) == engine_overrides(c2, version),
        lowercase_distinct(engine_overrides(c1, version)),
    ensures
        views(enable1) == views(enable2),
        views(disable1) == views(disable2),
{
    lemma_same_sorted_lists(enable1, enable2, engine_overrides(c1, version), "enable"@);
    lemma_same_sorted_lists(disable1, disable2, engine_overrides(c1, version), "disable"@);
}

proof fn lemma_same_sorted_lists(s: Seq<String>, t: Seq<String>, overrides: Map<Seq<char>, Seq<char>>, state: Seq<char>)
    requires
        lists_plugins_in_state(views(s), overrides, state),
        lists_plugins_in_state(views(t), overrides, state),
        sorted_by(s, lowercase_key()),
        sorted_by(t, lowercase_key()),
        lowercase_distinct(overrides),
    ensures
        views(s) == views(t),
{
    let vs = views(s);
    let vt = views(t);
    assert(vs.to_set() =~= vt.to_set()) by {
        assert forall|n: Seq<char>| vs.to_set().contains(n) <==> vt.to_set().contains(n) by {
            assert(vs.contains(n) <==> vt.contains(n));
        }
    }
    vs.unique_seq_to_set();
    vt.unique_seq_to_set();
    assert forall|n: Seq<char>, m: Seq<char>|
        vs.contains(n) && vs.contains(m) && #[trigger] str_lowercase(n) == #[trigger] str_lowercase(m) implies n == m by {
        assert(overrides.contains_key(n) && overrides.contains_key(m));
    }
    lemma_sorted_prefix_equal(s, t, s.len() as int);
    assert(vs =~= vt);
}

} // verus!
