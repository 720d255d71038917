//! Per-user configuration: for each EngineAssociation, an optional engine
//! path and the plugin overrides.

use vstd::prelude::*;
use crate::string_map::StringMap;

verus! {

/// What the configuration holds for one engine, as plain values.
pub struct EngineConfigView {
    pub path: Option<Seq<char>>,
    pub plugins: Map<Seq<char>, Seq<char>>,
}

/// Configuration of one engine: an optional install path and, per plugin
/// name, its override state (`"enable"` or `"disable"`).
#[derive(Debug)]
pub struct EngineConfig {
    pub path: Option<String>,
    pub plugins: StringMap<String>,
}

/// Per-user configuration keyed by EngineAssociation.
#[derive(Debug)]
pub struct Config {
    pub engines: StringMap<EngineConfig>,
}

/// The view of an optional string.
pub open spec fn opt_view(s: Option<String>) -> Option<Seq<char>> {
    match s {
        Some(t) => Some(t@),
        None => None,
    }
}

/// The view of a map of strings.
pub open spec fn string_map_view(m: Map<Seq<char>, String>) -> Map<Seq<char>, Seq<char>> {
    m.map_values(|s: String| s@)
}

impl View for EngineConfig {
    type V = EngineConfigView;

    open spec fn view(&self) -> EngineConfigView {
        EngineConfigView { path: opt_view(self.path), plugins: string_map_view(self.plugins@) }
    }
}

/// The view of a map of engine configurations.
pub open spec fn engines_view(m: Map<Seq<char>, EngineConfig>) -> Map<Seq<char>, EngineConfigView> {
    m.map_values(|e: EngineConfig| e@)
}

impl View for Config {
    type V = Map<Seq<char>, EngineConfigView>;

    open spec fn view(&self) -> Map<Seq<char>, EngineConfigView> {
        engines_view(self.engines@)
    }
}

/// The configuration of an engine that has none yet: no path, no overrides.
pub open spec fn empty_engine_view() -> EngineConfigView {
    EngineConfigView { path: None, plugins: Map::empty() }
}

impl EngineConfig {
    /// No path and no plugin overrides.
    pub fn new() -> (r: Self)
        ensures
            r@ == empty_engine_view(),
    {
        let r = EngineConfig { path: None, plugins: StringMap::new() };
        assert(r@.plugins =~= Map::<Seq<char>, Seq<char>>::empty());
        r
    }
}

impl Default for EngineConfig {
    fn default() -> (r: Self)
        ensures
            r@ == empty_engine_view(),
    {
        EngineConfig::new()
    }
}

impl Config {
    /// A configuration with no engines.
    pub fn new() -> (r: Self)
        ensures
            r@ == Map::<Seq<char>, EngineConfigView>::empty(),
    {
        let r = Config { engines: StringMap::new() };
        assert(r@ =~= Map::<Seq<char>, EngineConfigView>::empty());
        r
    }
}

impl Default for Config {
    fn default() -> (r: Self)
        ensures
            r@ == Map::<Seq<char>, EngineConfigView>::empty(),
    {
        Config::new()
    }
}

} // verus!
