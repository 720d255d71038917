//! Launching a project: which editor to start, and the command line that
//! passes the plugin overrides without touching the `.uproject` file.

use vstd::prelude::*;
use vstd::string::*;
use crate::config::Config;
use crate::engine::{EngineInfo, engine_views, engine_path_for, find_engine_path, editor_executable, editor_components};
use crate::paths::{Platform, joined_all};
use crate::plugins::{plugin_overrides, overrides_hold};
use crate::text::{join_with, join_strings, views};

verus! {

/// The editor's arguments: the project, then `-EnablePlugins=` with the
/// enabled names joined by commas if there are any, then `-DisablePlugins=`
/// likewise.
pub open spec fn launch_args(project: Seq<char>, enable: Seq<Seq<char>>, disable: Seq<Seq<char>>) -> Seq<Seq<char>> {
    seq![project]
        + (if enable.len() > 0 { seq!["-EnablePlugins="@ + join_with(enable, ","@)] } else { Seq::empty() })
        + (if disable.len() > 0 { seq!["-DisablePlugins="@ + join_with(disable, ","@)] } else { Seq::empty() })
}

/// The editor's command-line arguments for a project and its overrides.
pub fn launch_arguments(project: &str, enable: &Vec<String>, disable: &Vec<String>) -> (r: Vec<String>)
    ensures
        views(r@) == launch_args(project@, views(enable@), views(disable@)),
{
    let mut r: Vec<String> = Vec::new();
    r.push(String::from_str(project));
    let ghost first = views(r@);
    if enable.len() > 0 {
        let mut a = String::from_str("-EnablePlugins=");
        let j = join_strings(enable, ",");
        a.append(j.as_str());
        r.push(a);
    }
    let ghost second = views(r@);
    if disable.len() > 0 {
        let mut a = String::from_str("-DisablePlugins=");
        let j = join_strings(disable, ",");
        a.append(j.as_str());
        r.push(a);
    }
    assert(views(r@) =~= launch_args(project@, views(enable@), views(disable@)));
    r
}

/// The project file is passed as it is, first; every other argument is a
/// `-EnablePlugins=` or `-DisablePlugins=` flag, one of each at most.
pub proof fn law_launch_args_shape(project: Seq<char>, enable: Seq<Seq<char>>, disable: Seq<Seq<char>>)
    ensures
        launch_args(project, enable, disable)[0] == project,
        launch_args(project, enable, disable).len() == 1 + (if enable.len() > 0 { 1int } else { 0 })
            + (if disable.len() > 0 { 1int } else { 0 }),
        forall|i: int| 1 <= i < launch_args(project, enable, disable).len() ==> {
            let a = #[trigger] launch_args(project, enable, disable)[i];
            a.take("-EnablePlugins="@.len() as int) == "-EnablePlugins="@
                || a.take("-DisablePlugins="@.len() as int) == "-DisablePlugins="@
        },
{
    let args = launch_args(project, enable, disable);
    assert forall|i: int| 1 <= i < args.len() implies {
        let a = #[trigger] args[i];
        a.take("-EnablePlugins="@.len() as int) == "-EnablePlugins="@
            || a.take("-DisablePlugins="@.len() as int) == "-DisablePlugins="@
    } by {
        let e = "-EnablePlugins="@ + join_with(enable, ","@);
        let d = "-DisablePlugins="@ + join_with(disable, ","@);
        assert(e.take("-EnablePlugins="@.len() as int) =~= "-EnablePlugins="@);
        assert(d.take("-DisablePlugins="@.len() as int) =~= "-DisablePlugins="@);
        if enable.len() > 0 && i == 1 {
            assert(args[i] == e);
        } else {
            assert(args[i] == d);
        }
    }
}

/// What launching needs: the editor to start and the plugins to enable and
/// to disable.
pub struct LaunchPlan {
    pub editor: String,
    pub enable: Vec<String>,
    pub disable: Vec<String>,
}

/// The message when the project names no engine.
pub open spec fn association_missing_message() -> Seq<char> {
    "Could not read EngineAssociation from uproject."@
}

/// The message when no engine is found for `version`.
pub open spec fn engine_missing_message(version: Seq<char>) -> Seq<char> {
    "Could not find Unreal Engine for "@ + version + "."@
}

/// Plans the launch of a project whose EngineAssociation is
/// `engine_association` (none if it could not be read):
/// the editor of the engine found for it, and its plugin overrides.
/// `configured_path_exists` says whether the path the configuration gives
/// for that engine exists.
pub fn launch_plan(
    engine_association: Option<String>,
    config: &Config,
    detected: &Vec<EngineInfo>,
    configured_path_exists: bool,
    platform: Platform,
) -> (r: Result<LaunchPlan, String>)
    ensures
        match engine_association {
            None => r matches Err(e) && e@ == association_missing_message(),
            Some(v) => match engine_path_for(config@, v@, engine_views(detected@), configured_path_exists) {
                None => r matches Err(e) && e@ == engine_missing_message(v@),
                Some(p) => r matches Ok(plan) && plan.editor@ == joined_all(platform, p, editor_components(platform))
                    && overrides_hold(plan.enable@, plan.disable@, config@, v@),
            },
        },
{
    let version = match engine_association {
        Some(v) => v,
        None => return Err(String::from_str("Could not read EngineAssociation from uproject.")),
    };
    let path = match find_engine_path(version.as_str(), config, detected, configured_path_exists) {
        Some(p) => p,
        None => {
            let mut m = String::from_str("Could not find Unreal Engine for ");
            m.append(version.as_str());
            m.append(".");
            return Err(m);
        },
    };
    let editor = editor_executable(path.as_str(), platform);
    let (enable, disable) = plugin_overrides(config, version.as_str());
    Ok(LaunchPlan { editor, enable, disable })
}

} // verus!
