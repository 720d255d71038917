//! Unreal Engine installations: reading their version, building the list of
//! detected engines, finding the engine for an EngineAssociation, and the
//! editor executable inside an engine.

use vstd::prelude::*;
use vstd::string::*;
use crate::config::{Config, EngineConfigView, opt_view};
use crate::json::{json_member_u64, json_member_str, member_u64, member_str};
use crate::paths::{Platform, joined_all, join_path, is_plain_component};
use crate::sorting::{stable_sorted, sorted_by, sort_by_keys, key_through, lemma_stable_sorted_map, lemma_stable_sorted};
use crate::text::{chars_le, decimal, decimal_string, has_prefix, strip_prefix, str_lowercase, to_lowercase, chars_of};

verus! {

/// An installed engine: its identifier (the EngineAssociation it answers
/// to), the version shown to the user, and its install directory.
#[derive(Debug)]
pub struct EngineInfo {
    pub id: String,
    pub display_version: String,
    pub path: String,
}

impl Clone for EngineInfo {
    fn clone(&self) -> (r: Self)
        ensures
            r == *self,
    {
        EngineInfo { id: self.id.clone(), display_version: self.display_version.clone(), path: self.path.clone() }
    }
}

/// An installed engine as plain values.
pub struct EngineInfoView {
    pub id: Seq<char>,
    pub display_version: Seq<char>,
    pub path: Seq<char>,
}

impl View for EngineInfo {
    type V = EngineInfoView;

    open spec fn view(&self) -> EngineInfoView {
        EngineInfoView { id: self.id@, display_version: self.display_version@, path: self.path@ }
    }
}

/// The views of a sequence of engines.
pub open spec fn engine_views(s: Seq<EngineInfo>) -> Seq<EngineInfoView> {
    s.map_values(|e: EngineInfo| e@)
}

/// The version an install folder's name stands for: the name without its
/// `UE_` or, failing that, `UnrealEngine-` prefix.
pub open spec fn normalized_version(name: Seq<char>) -> Option<Seq<char>> {
    if has_prefix(name, "UE_"@) {
        Some(name.skip("UE_"@.len() as int))
    } else if has_prefix(name, "UnrealEngine-"@) {
        Some(name.skip("UnrealEngine-"@.len() as int))
    } else {
        None
    }
}

/// The version an install folder's name stands for.
pub fn normalize_version_from_folder(name: &str) -> (r: Option<String>)
    ensures
        opt_view(r) == normalized_version(name@),
{
    match strip_prefix(name, "UE_") {
        Some(rest) => Some(rest),
        None => strip_prefix(name, "UnrealEngine-"),
    }
}

/// The text of an engine version: `major.minor.patch`, or `major.minor`
/// without a patch number; none without a major and a minor number.
pub open spec fn version_text(major: Option<u64>, minor: Option<u64>, patch: Option<u64>) -> Option<Seq<char>> {
    match (major, minor) {
        (Some(a), Some(b)) => Some(
            match patch {
                Some(c) => decimal(a as nat) + seq!['.'] + decimal(b as nat) + seq!['.'] + decimal(c as nat),
                None => decimal(a as nat) + seq!['.'] + decimal(b as nat),
            },
        ),
        _ => None,
    }
}

fn dot_text() -> (r: &'static str)
    ensures
        r@ == seq!['.'],
{
    proof { reveal_strlit("."); }
    assert("."@ =~= seq!['.']);
    "."
}

/// Formats the version numbers read from a `Build.version` file.
pub fn format_build_version(major: Option<u64>, minor: Option<u64>, patch: Option<u64>) -> (r: Option<String>)
    ensures
        opt_view(r) == version_text(major, minor, patch),
{
    match (major, minor) {
        (Some(a), Some(b)) => {
            let mut s = decimal_string(a);
            s.append(dot_text());
            let sb = decimal_string(b);
            s.append(sb.as_str());
            match patch {
                Some(c) => {
                    s.append(dot_text());
                    let sc = decimal_string(c);
                    s.append(sc.as_str());
                },
                None => {},
            }
            Some(s)
        },
        _ => None,
    }
}

/// The version a `Build.version` document states.
pub open spec fn build_version_of(text: Seq<char>) -> Option<Seq<char>> {
    version_text(
        json_member_u64(text, "MajorVersion"@),
        json_member_u64(text, "MinorVersion"@),
        json_member_u64(text, "PatchVersion"@),
    )
}

/// Reads the engine version from the text of `Engine/Build/Build.version`.
pub fn build_version_from_json(text: &str) -> (r: Option<String>)
    ensures
        opt_view(r) == build_version_of(text@),
{
    let major = member_u64(text, "MajorVersion");
    let minor = member_u64(text, "MinorVersion");
    let patch = member_u64(text, "PatchVersion");
    format_build_version(major, minor, patch)
}

/// Reads the `EngineAssociation` member from the text of a `.uproject` file.
pub fn engine_association_from_json(text: &str) -> (r: Option<String>)
    ensures
        opt_view(r) == json_member_str(text@, "EngineAssociation"@),
{
    member_str(text, "EngineAssociation")
}

/// Appends an engine to the list if its install directory exists.
pub fn add_engine(engines: &mut Vec<EngineInfo>, id: String, display_version: String, path: String, path_exists: bool)
    ensures
        final(engines)@ == (if path_exists {
            old(engines)@.push(EngineInfo { id, display_version, path })
        } else {
            old(engines)@
        }),
{
    if path_exists {
        engines.push(EngineInfo { id, display_version, path });
    }
}

/// Where a candidate engine was found.
#[derive(Clone, Copy, Debug, PartialEq, Eq, Structural)]
pub enum EngineSource {
    /// A value under the `Unreal Engine\Builds` registry keys: the name is
    /// the value's name, the path its data.
    Registry,
    /// A folder in an install location: the name is the folder's name.
    InstallFolder,
}

/// A place where an engine might be installed, with what the file system
/// says of it.
pub struct EngineCandidate {
    pub source: EngineSource,
    pub name: String,
    pub path: String,
    /// The path is a directory.
    pub is_dir: bool,
    /// The text of `Engine/Build/Build.version` under the path, where it
    /// could be read.
    pub build_version_text: Option<String>,
    /// The path exists.
    pub path_exists: bool,
}

/// The version read from a candidate's `Build.version`, or `fallback`.
pub open spec fn display_or(text: Option<String>, fallback: Seq<char>) -> Seq<char> {
    match text {
        Some(t) => match build_version_of(t@) {
            Some(v) => v,
            None => fallback,
        },
        None => fallback,
    }
}

/// The engine a candidate yields, if any. A registry value needs a non-empty
/// path; a folder must be a directory whose name starts with `UE_`, and its
/// id is the normalized folder name. Either way the path must exist; the
/// displayed version is the one in `Build.version`, else the id.
pub open spec fn candidate_engine(c: EngineCandidate) -> Option<EngineInfoView> {
    match c.source {
        EngineSource::Registry => if c.path@.len() == 0 || !c.path_exists {
            None
        } else {
            Some(EngineInfoView { id: c.name@, display_version: display_or(c.build_version_text, c.name@), path: c.path@ })
        },
        EngineSource::InstallFolder => if !c.is_dir || !has_prefix(c.name@, "UE_"@) || !c.path_exists {
            None
        } else {
            let id = match normalized_version(c.name@) {
                Some(v) => v,
                None => c.name@,
            };
            Some(EngineInfoView { id, display_version: display_or(c.build_version_text, id), path: c.path@ })
        },
    }
}

/// The engines the candidates yield, in the order met.
pub open spec fn candidate_engines(s: Seq<EngineCandidate>) -> Seq<EngineInfoView>
    decreases s.len(),
{
    if s.len() == 0 {
        Seq::empty()
    } else {
        match candidate_engine(s.last()) {
            Some(e) => candidate_engines(s.drop_last()).push(e),
            None => candidate_engines(s.drop_last()),
        }
    }
}

/// Ordering key of an engine: its lowercase displayed version.
pub open spec fn display_key() -> spec_fn(EngineInfoView) -> Seq<char> {
    |e: EngineInfoView| str_lowercase(e.display_version)
}

/// The detected engines: those the candidates yield, sorted stably by
/// lowercase displayed version.
pub open spec fn detected_engines(s: Seq<EngineCandidate>) -> Seq<EngineInfoView> {
    stable_sorted(candidate_engines(s), display_key())
}

fn engine_from_candidate(c: &EngineCandidate) -> (r: Option<EngineInfo>)
    ensures
        r is Some <==> candidate_engine(*c) is Some,
        r matches Some(e) ==> e@ == candidate_engine(*c)->0,
{
    let id = match c.source {
        EngineSource::Registry => {
            if c.path.as_str().is_empty() {
                return None;
            }
            c.name.clone()
        },
        EngineSource::InstallFolder => {
            if !c.is_dir {
                return None;
            }
            match strip_prefix(c.name.as_str(), "UE_") {
                Some(_) => {},
                None => return None,
            }
            match normalize_version_from_folder(c.name.as_str()) {
                Some(v) => v,
                None => c.name.clone(),
            }
        },
    };
    let display_version = match &c.build_version_text {
        Some(t) => match build_version_from_json(t.as_str()) {
            Some(v) => v,
            None => id.clone(),
        },
        None => id.clone(),
    };
    let mut found: Vec<EngineInfo> = Vec::new();
    add_engine(&mut found, id, display_version, c.path.clone(), c.path_exists);
    found.pop()
}

/// Builds the list of detected engines from the candidates met in the
/// registry and the install locations, sorted by lowercase displayed version.
pub fn collect_engines(candidates: &Vec<EngineCandidate>) -> (r: Vec<EngineInfo>)
    ensures
        engine_views(r@) == detected_engines(candidates@),
        forall|i: int, j: int| 0 <= i < j < r@.len() ==>
            chars_le(str_lowercase(#[trigger] r@[i].display_version@), str_lowercase(#[trigger] r@[j].display_version@)),
{
    let mut found: Vec<EngineInfo> = Vec::new();
    let mut keys: Vec<Vec<char>> = Vec::new();
    let ghost key = key_through(|e: EngineInfo| e@, display_key());
    let mut i: usize = 0;
    while i < candidates.len()
        invariant
            i <= candidates.len(),
            engine_views(found@) == candidate_engines(candidates@.take(i as int)),
            keys.len() == found.len(),
            key == key_through(|e: EngineInfo| e@, display_key()),
            forall|j: int| 0 <= j < found.len() ==> (#[trigger] keys@[j])@ == key(found@[j]),
        decreases candidates.len() - i,
    {
        assert(candidates@.take(i + 1).drop_last() =~= candidates@.take(i as int));
        assert(candidates@.take(i + 1).last() == candidates@[i as int]);
        match engine_from_candidate(&candidates[i]) {
            Some(e) => {
                let ghost old_found = found@;
                let lower = to_lowercase(e.display_version.as_str());
                keys.push(chars_of(lower.as_str()));
                found.push(e);
                assert(engine_views(found@) =~= engine_views(old_found).push(found@.last()@));
            },
            None => {},
        }
        i = i + 1;
    }
    assert(candidates@.take(candidates.len() as int) =~= candidates@);
    let sorted = sort_by_keys(found, keys, Ghost(key));
    proof {
        lemma_stable_sorted_map(found@, |e: EngineInfo| e@, display_key());
        assert(engine_views(found@) =~= found@.map_values(|e: EngineInfo| e@));
        assert(engine_views(sorted@) =~= sorted@.map_values(|e: EngineInfo| e@));
        law_detected_engines_sorted(candidates@);
        let d = detected_engines(candidates@);
        assert(engine_views(sorted@) == d);
        assert forall|i: int, j: int| 0 <= i < j < sorted@.len() implies
            chars_le(str_lowercase(#[trigger] sorted@[i].display_version@), str_lowercase(#[trigger] sorted@[j].display_version@)) by {
            assert(d[i] == sorted@[i]@);
            assert(d[j] == sorted@[j]@);
            assert(chars_le(str_lowercase(d[i].display_version), str_lowercase(d[j].display_version)));
        }
    }
    sorted
}


/// The install path the configuration gives for an engine, if any.
pub open spec fn configured_path(c: Map<Seq<char>, EngineConfigView>, version: Seq<char>) -> Option<Seq<char>> {
    if c.contains_key(version) {
        c[version].path
    } else {
        None
    }
}

/// The install path the configuration gives for the engine `version`, if any.
pub fn configured_engine_path(config: &Config, version: &str) -> (r: Option<String>)
    ensures
        opt_view(r) == configured_path(config@, version@),
{
    match config.engines.get(version) {
        Some(e) => match &e.path {
            Some(p) => Some(p.clone()),
            None => None,
        },
        None => None,
    }
}

/// The path of the first engine whose id (or, with `by_id` false, whose
/// displayed version) is `version`.
pub open spec fn first_match_path(s: Seq<EngineInfoView>, version: Seq<char>, by_id: bool) -> Option<Seq<char>>
    decreases s.len(),
{
    if s.len() == 0 {
        None
    } else if (if by_id { s[0].id } else { s[0].display_version }) == version {
        Some(s[0].path)
    } else {
        first_match_path(s.drop_first(), version, by_id)
    }
}

/// Where the engine for `version` is: the configured path if there is one
/// and it exists; else the first detected engine with that id; else the
/// first with that displayed version.
pub open spec fn engine_path_for(
    c: Map<Seq<char>, EngineConfigView>,
    version: Seq<char>,
    detected: Seq<EngineInfoView>,
    configured_path_exists: bool,
) -> Option<Seq<char>> {
    if configured_path(c, version) is Some && configured_path_exists {
        configured_path(c, version)
    } else if first_match_path(detected, version, true) is Some {
        first_match_path(detected, version, true)
    } else {
        first_match_path(detected, version, false)
    }
}

fn find_detected(detected: &Vec<EngineInfo>, version: &str, by_id: bool) -> (r: Option<String>)
    ensures
        opt_view(r) == first_match_path(engine_views(detected@), version@, by_id),
{
    let v = String::from_str(version);
    let ghost s = engine_views(detected@);
    let mut i: usize = 0;
    assert(s.skip(0) =~= s);
    while i < detected.len()
        invariant
            v@ == version@,
            s == engine_views(detected@),
            i <= detected.len(),
            first_match_path(s, version@, by_id) == first_match_path(s.skip(i as int), version@, by_id),
        decreases detected.len() - i,
    {
        let e = &detected[i];
        assert(s.skip(i as int)[0] == e@);
        assert(s.skip(i as int).drop_first() =~= s.skip(i + 1));
        let hit = if by_id { e.id == v } else { e.display_version == v };
        if hit {
            return Some(e.path.clone());
        }
        i = i + 1;
    }
    None
}

/// Finds the install path of the engine for `version` (an
/// EngineAssociation). `configured_path_exists` says whether the path the
/// configuration gives for `version` exists; it is not consulted when the
/// configuration gives none.
pub fn find_engine_path(version: &str, config: &Config, detected: &Vec<EngineInfo>, configured_path_exists: bool) -> (r: Option<String>)
    ensures
        opt_view(r) == engine_path_for(config@, version@, engine_views(detected@), configured_path_exists),
{
    if configured_path_exists {
        match configured_engine_path(config, version) {
            Some(p) => return Some(p),
            None => {},
        }
    }
    match find_detected(detected, version, true) {
        Some(p) => Some(p),
        None => find_detected(detected, version, false),
    }
}

/// The path components of the editor executable inside an engine, per
/// platform.
pub open spec fn editor_components(p: Platform) -> Seq<Seq<char>> {
    if p == Platform::Windows {
        seq!["Engine"@, "Binaries"@, "Win64"@, "UnrealEditor.exe"@]
    } else if p == Platform::MacOs {
        seq!["Engine"@, "Binaries"@, "Mac"@, "UnrealEditor.app"@, "Contents"@, "MacOS"@, "UnrealEditor"@]
    } else {
        seq!["Engine"@, "Binaries"@, "Linux"@, "UnrealEditor"@]
    }
}

/// The editor executable of the engine installed at `engine_path`.
pub fn editor_executable(engine_path: &str, platform: Platform) -> (r: String)
    ensures
        r@ == joined_all(platform, engine_path@, editor_components(platform)),
{
    let comps: Vec<&str> = match platform {
        Platform::Windows => vec!["Engine", "Binaries", "Win64", "UnrealEditor.exe"],
        Platform::MacOs => vec!["Engine", "Binaries", "Mac", "UnrealEditor.app", "Contents", "MacOS", "UnrealEditor"],
        _ => vec!["Engine", "Binaries", "Linux", "UnrealEditor"],
    };
    proof {
        reveal_strlit("Engine");
        reveal_strlit("Binaries");
        reveal_strlit("Win64");
        reveal_strlit("UnrealEditor.exe");
        reveal_strlit("Mac");
        reveal_strlit("UnrealEditor.app");
        reveal_strlit("Contents");
        reveal_strlit("MacOS");
        reveal_strlit("UnrealEditor");
        reveal_strlit("Linux");
        reveal_strlit(".");
        reveal_strlit("..");
    }
    let ghost cs = editor_components(platform);
    assert(comps@.map_values(|c: &str| c@) =~= cs);
    assert forall|k: int| 0 <= k < cs.len() implies is_plain_component(#[trigger] cs[k]) by {
        assert(cs[k].len() > 2);
    }
    let mut r = String::from_str(engine_path);
    let mut i: usize = 0;
    assert(cs.take(0) =~= Seq::<Seq<char>>::empty());
    while i < comps.len()
        invariant
            i <= comps.len(),
            comps@.map_values(|c: &str| c@) == cs,
            forall|k: int| 0 <= k < cs.len() ==> is_plain_component(#[trigger] cs[k]),
            r@ == joined_all(platform, engine_path@, cs.take(i as int)),
        decreases comps.len() - i,
    {
        assert(cs.take(i + 1).drop_last() =~= cs.take(i as int));
        assert(cs.take(i + 1).last() == cs[i as int]);
        assert(comps@[i as int]@ == cs[i as int]);
        r = join_path(platform, r.as_str(), comps[i]);
        i = i + 1;
    }
    assert(cs.take(cs.len() as int) =~= cs);
    r
}


/// A folder name's version, put back behind the prefix it was found under,
/// gives the folder name again.
pub proof fn law_normalized_version_restores_name(name: Seq<char>)
    ensures
        normalized_version(name) matches Some(v) ==> (name == "UE_"@ + v || name == "UnrealEngine-"@ + v),
{
    if has_prefix(name, "UE_"@) {
        assert(name =~= "UE_"@ + name.skip("UE_"@.len() as int));
    } else if has_prefix(name, "UnrealEngine-"@) {
        assert(name =~= "UnrealEngine-"@ + name.skip("UnrealEngine-"@.len() as int));
    }
}

/// The detected engines are sorted by lowercase displayed version, and are
/// exactly the engines the candidates yield, each as often as yielded.
proof fn lemma_candidate_engines_contains(s: Seq<EngineCandidate>)
    ensures
        forall|x: EngineInfoView| #[trigger] candidate_engines(s).contains(x) <==>
            (exists|i: int| 0 <= i < s.len() && candidate_engine(s[i]) == Some(x)),
    decreases s.len(),
{
    if s.len() > 0 {
        let t = s.drop_last();
        lemma_candidate_engines_contains(t);
        assert forall|x: EngineInfoView| #[trigger] candidate_engines(s).contains(x) <==>
            (exists|i: int| 0 <= i < s.len() && candidate_engine(s[i]) == Some(x)) by {
            if candidate_engines(s).contains(x) {
                if candidate_engines(t).contains(x) {
                    let i = choose|i: int| 0 <= i < t.len() && candidate_engine(t[i]) == Some(x);
                    assert(s[i] == t[i]);
                } else {
                    let k = choose|k: int| 0 <= k < candidate_engines(s).len() && candidate_engines(s)[k] == x;
                    assert(k == candidate_engines(t).len());
                    assert(candidate_engine(s[s.len() - 1]) == Some(x));
                }
            }
            if exists|i: int| 0 <= i < s.len() && candidate_engine(s[i]) == Some(x) {
                let i = choose|i: int| 0 <= i < s.len() && candidate_engine(s[i]) == Some(x);
                if i < s.len() - 1 {
                    assert(t[i] == s[i]);
                    assert(candidate_engines(t).contains(x));
                    let k = choose|k: int| 0 <= k < candidate_engines(t).len() && candidate_engines(t)[k] == x;
                    assert(candidate_engines(s)[k] == x);
                } else {
                    assert(candidate_engines(s)[candidate_engines(t).len() as int] == x);
                }
            }
        }
    }
}

/// The detected engines are sorted by the lowercase of their displayed
/// versions; they are exactly the engines the candidates yield, each as
/// often as yielded; and an engine is detected exactly when some candidate
/// yields it.
pub proof fn law_detected_engines_sorted(s: Seq<EngineCandidate>)
    ensures
        forall|i: int, j: int| 0 <= i < j < detected_engines(s).len() ==>
            chars_le(str_lowercase(#[trigger] detected_engines(s)[i].display_version),
                str_lowercase(#[trigger] detected_engines(s)[j].display_version)),
        detected_engines(s).to_multiset() == candidate_engines(s).to_multiset(),
        forall|x: EngineInfoView| #[trigger] detected_engines(s).contains(x) <==>
            (exists|i: int| 0 <= i < s.len() && candidate_engine(s[i]) == Some(x)),
{
    let c = candidate_engines(s);
    let d = detected_engines(s);
    lemma_stable_sorted(c, display_key());
    lemma_candidate_engines_contains(s);
    d.to_multiset_ensures();
    c.to_multiset_ensures();
    assert forall|i: int, j: int| 0 <= i < j < d.len() implies
        chars_le(str_lowercase(#[trigger] d[i].display_version), str_lowercase(#[trigger] d[j].display_version)) by {
        assert(chars_le(display_key()(d[i]), display_key()(d[j])));
    }
    assert forall|x: EngineInfoView| #[trigger] d.contains(x) <==> c.contains(x) by {
        assert(d.to_multiset().count(x) == c.to_multiset().count(x));
    }
}

proof fn lemma_first_match(s: Seq<EngineInfoView>, version: Seq<char>, by_id: bool, k: int)
    requires
        0 <= k < s.len(),
        (if by_id { s[k].id } else { s[k].display_version }) == version,
        forall|j: int| 0 <= j < k ==> (if by_id { (#[trigger] s[j]).id } else { s[j].display_version }) != version,
    ensures
        first_match_path(s, version, by_id) == Some(s[k].path),
    decreases k,
{
    if k > 0 {
        let t = s.drop_first();
        assert forall|j: int| 0 <= j < k - 1 implies (if by_id { (#[trigger] t[j]).id } else { t[j].display_version }) != version by {
            assert(t[j] == s[j + 1]);
        }
        assert(s[0] == s[0]);
        lemma_first_match(t, version, by_id, k - 1);
    }
}

proof fn lemma_no_match(s: Seq<EngineInfoView>, version: Seq<char>, by_id: bool)
    requires
        forall|j: int| 0 <= j < s.len() ==> (if by_id { (#[trigger] s[j]).id } else { s[j].display_version }) != version,
    ensures
        first_match_path(s, version, by_id) is None,
    decreases s.len(),
{
    if s.len() > 0 {
        let t = s.drop_first();
        assert(s[0] == s[0]);
        assert forall|j: int| 0 <= j < t.len() implies (if by_id { (#[trigger] t[j]).id } else { t[j].display_version }) != version by {
            assert(t[j] == s[j + 1]);
        }
        lemma_no_match(t, version, by_id);
    }
}

/// A configured path that exists wins.
pub proof fn law_configured_path_wins(
    c: Map<Seq<char>, EngineConfigView>,
    version: Seq<char>,
    detected: Seq<EngineInfoView>,
    p: Seq<char>,
)
    requires
        c.contains_key(version),
        c[version].path == Some(p),
    ensures
        engine_path_for(c, version, detected, true) == Some(p),
{
}

/// Without a usable configured path, the engine found is the first detected
/// engine, in list order, whose id is the version.
pub proof fn law_first_engine_by_id(
    c: Map<Seq<char>, EngineConfigView>,
    version: Seq<char>,
    detected: Seq<EngineInfoView>,
    configured_path_exists: bool,
    k: int,
)
    requires
        !(configured_path(c, version) is Some && configured_path_exists),
        0 <= k < detected.len(),
        detected[k].id == version,
        forall|j: int| 0 <= j < k ==> (#[trigger] detected[j]).id != version,
    ensures
        engine_path_for(c, version, detected, configured_path_exists) == Some(detected[k].path),
{
    lemma_first_match(detected, version, true, k);
}

/// Without a usable configured path and with no detected engine whose id is
/// the version, the engine found is the first detected engine, in list
/// order, whose displayed version is the version.
pub proof fn law_first_engine_by_display_version(
    c: Map<Seq<char>, EngineConfigView>,
    version: Seq<char>,
    detected: Seq<EngineInfoView>,
    configured_path_exists: bool,
    k: int,
)
    requires
        !(configured_path(c, version) is Some && configured_path_exists),
        forall|j: int| 0 <= j < detected.len() ==> (#[trigger] detected[j]).id != version,
        0 <= k < detected.len(),
        detected[k].display_version == version,
        forall|j: int| 0 <= j < k ==> (#[trigger] detected[j]).display_version != version,
    ensures
        engine_path_for(c, version, detected, configured_path_exists) == Some(detected[k].path),
{
    lemma_no_match(detected, version, true);
    lemma_first_match(detected, version, false, k);
}

/// Without a usable configured path and with no detected engine whose id or
/// displayed version is the version, no engine is found.
pub proof fn law_no_engine_found(
    c: Map<Seq<char>, EngineConfigView>,
    version: Seq<char>,
    detected: Seq<EngineInfoView>,
    configured_path_exists: bool,
)
    requires
        !(configured_path(c, version) is Some && configured_path_exists),
        forall|j: int| 0 <= j < detected.len() ==>
            (#[trigger] detected[j]).id != version && detected[j].display_version != version,
    ensures
        engine_path_for(c, version, detected, configured_path_exists) is None,
{
    lemma_no_match(detected, version, true);
    lemma_no_match(detected, version, false);
}

/// The number of dots in a text.
pub open spec fn dot_count(s: Seq<char>) -> nat
    decreases s.len(),
{
    if s.len() == 0 {
        0
    } else {
        dot_count(s.drop_last()) + (if s.last() == '.' { 1nat } else { 0nat })
    }
}

proof fn lemma_dot_count_add(a: Seq<char>, b: Seq<char>)
    ensures
        dot_count(a + b) == dot_count(a) + dot_count(b),
    decreases b.len(),
{
    if b.len() > 0 {
        assert((a + b).drop_last() =~= a + b.drop_last());
        lemma_dot_count_add(a, b.drop_last());
    } else {
        assert(a + b =~= a);
    }
}

proof fn lemma_dot_count_single(x: char)
    ensures
        dot_count(seq![x]) == (if x == '.' { 1nat } else { 0nat }),
{
    assert(seq![x].drop_last() =~= Seq::<char>::empty());
    assert(dot_count(Seq::<char>::empty()) == 0);
}

proof fn lemma_decimal_no_dot(n: nat)
    ensures
        dot_count(decimal(n)) == 0,
        decimal(n).len() > 0,
    decreases n,
{
    if n >= 10 {
        lemma_decimal_no_dot(n / 10);
        lemma_dot_count_add(decimal(n / 10), seq![crate::text::digit_char((n % 10) as int)]);
        lemma_dot_count_single(crate::text::digit_char((n % 10) as int));
    } else {
        lemma_dot_count_single(crate::text::digit_char(n as int));
    }
}

/// A version text exists exactly when both the major and the minor number
/// do. It has two dots when there is a patch number (zero included) and one
/// without; and with a patch number it is the text without it, a dot, and
/// the patch number in decimal.
pub proof fn law_version_text(major: Option<u64>, minor: Option<u64>, patch: Option<u64>)
    ensures
        version_text(major, minor, patch) is Some <==> (major is Some && minor is Some),
        version_text(major, minor, patch) is Some ==>
            dot_count(version_text(major, minor, patch)->0) == (if patch is Some { 2nat } else { 1nat }),
        (major is Some && minor is Some && patch is Some) ==> version_text(major, minor, patch)->0
            == version_text(major, minor, None)->0 + seq!['.'] + decimal(patch->0 as nat),
        (major is Some && minor is Some) ==> version_text(major, minor, None)->0
            == decimal(major->0 as nat) + seq!['.'] + decimal(minor->0 as nat),
{
    if major is Some && minor is Some {
        let a = decimal(major->0 as nat);
        let b = decimal(minor->0 as nat);
        lemma_decimal_no_dot(major->0 as nat);
        lemma_decimal_no_dot(minor->0 as nat);
        lemma_dot_count_single('.');
        lemma_dot_count_add(a, seq!['.']);
        lemma_dot_count_add(a + seq!['.'], b);
        if patch is Some {
            let c = decimal(patch->0 as nat);
            lemma_decimal_no_dot(patch->0 as nat);
            lemma_dot_count_add(a + seq!['.'] + b, seq!['.']);
            lemma_dot_count_add(a + seq!['.'] + b + seq!['.'], c);
        }
    }
}

} // verus!
