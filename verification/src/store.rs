//! What is kept between runs: server profiles with their defaults, tunnels, scenarios.
use crate::keyed;
use crate::keyed::{remove_id, upsert};
use crate::model;
use crate::model::{ReconnectPolicy, TunnelSpec};
use crate::profiles::ServerProfile;
use crate::scenarios;
use crate::scenarios::Scenario;
use crate::text;
use crate::text::is_blank;
use vstd::prelude::*;

verus! {

/// Defaults that all profiles share and a single one may override.
#[derive(Debug, Clone, Copy, PartialEq, Eq)]
pub struct ProfileDefaults {
    /// The connection timeout in seconds; none is the engine's own.
    pub connect_timeout_secs: Option<u32>,
    /// The reconnect policy of new tunnels; none is the built-in one.
    pub reconnect: Option<ReconnectPolicy>,
    /// Whether tunnels of one profile share a connection; none is the engine's choice.
    pub share_connection: Option<bool>,
    /// The server's limit on sessions per connection; none is the usual one.
    pub max_sessions: Option<u32>,
}

/// Defaults that leave every choice open.
pub open spec fn no_defaults() -> ProfileDefaults {
    ProfileDefaults {
        connect_timeout_secs: None,
        reconnect: None,
        share_connection: None,
        max_sessions: None,
    }
}

impl Default for ProfileDefaults {
    fn default() -> (r: Self)
        ensures
            r == no_defaults(),
    {
        ProfileDefaults {
            connect_timeout_secs: None,
            reconnect: None,
            share_connection: None,
            max_sessions: None,
        }
    }
}

/// The version of the profiles file that is written.
pub const PROFILES_VERSION: u32 = 2;

/// The file of the tunnels.
pub const TUNNELS_FILE: &'static str = "tunnels.json";

/// The file of the profiles.
pub const PROFILES_FILE: &'static str = "profiles.json";

/// The file of the scenarios.
pub const SCENARIOS_FILE: &'static str = "scenarios.json";

/// The profiles with the defaults they share.
#[derive(Debug, PartialEq, Eq)]
pub struct ProfileStore {
    pub version: u32,
    pub defaults: ProfileDefaults,
    pub profiles: Vec<ServerProfile>,
}

/// Whether a store holds `profiles` and nothing of its own choosing.
pub open spec fn is_plain(s: ProfileStore, profiles: Seq<ServerProfile>) -> bool {
    s.version == PROFILES_VERSION && s.defaults == no_defaults() && s.profiles@ == profiles
}

/// What the profiles file was found to hold. The first version of the file was a bare list.
#[derive(Debug, PartialEq, Eq)]
pub enum ProfilesFile {
    /// There is none, or it cannot be read.
    Missing,
    /// Its text read as a store, and as a bare list, so far as it does.
    Text { store: Option<ProfileStore>, list: Option<Vec<ServerProfile>> },
}

/// A store without profiles.
fn empty_store() -> (r: ProfileStore)
    ensures
        is_plain(r, Seq::empty()),
{
    ProfileStore {
        version: PROFILES_VERSION,
        defaults: ProfileDefaults::default(),
        profiles: Vec::new(),
    }
}

/// Whether `r` is what a file gives: its store, or else its bare list, or else nothing.
pub open spec fn is_loaded(file: ProfilesFile, r: ProfileStore) -> bool {
    match file {
        ProfilesFile::Text { store: Some(s), .. } => r == s,
        ProfilesFile::Text { store: None, list: Some(l) } => is_plain(r, l@),
        _ => is_plain(r, Seq::empty()),
    }
}

/// Whether a file is still a bare list. One that is neither a store nor a list is damaged, and
/// not to be touched.
pub open spec fn is_stale(file: ProfilesFile) -> bool {
    file matches ProfilesFile::Text { store: None, list: Some(_) }
}

/// The profiles: those of a store, or else those of a bare list, or else none.
pub fn load_profiles(file: ProfilesFile) -> (r: ProfileStore)
    ensures
        is_loaded(file, r),
{
    match file {
        ProfilesFile::Missing => empty_store(),
        ProfilesFile::Text { store, list } => match store {
            Some(s) => s,
            None => match list {
                Some(profiles) => ProfileStore {
                    version: PROFILES_VERSION,
                    defaults: ProfileDefaults::default(),
                    profiles,
                },
                None => empty_store(),
            },
        },
    }
}

/// Whether the file is to be written anew because it is still a bare list.
pub fn migrate_needed(file: &ProfilesFile) -> (r: bool)
    ensures
        r == is_stale(*file),
{
    match file {
        ProfilesFile::Missing => false,
        ProfilesFile::Text { store, list } => store.is_none() && list.is_some(),
    }
}

/// The tunnels: those that the file holds, or none where it does not read as tunnels.
pub fn load_tunnels(file: Option<Vec<TunnelSpec>>) -> (r: Vec<TunnelSpec>)
    ensures
        match file {
            Some(l) => r == l,
            None => r@ == Seq::<TunnelSpec>::empty(),
        },
{
    match file {
        Some(l) => l,
        None => Vec::new(),
    }
}

impl ProfileStore {
    /// Saves a profile, in place of the one with its id.
    pub fn save(&mut self, profile: ServerProfile)
        ensures
            final(self).profiles@ == keyed::upserted(old(self).profiles@, profile),
            final(self).version == old(self).version,
            final(self).defaults == old(self).defaults,
    {
        upsert(&mut self.profiles, profile);
    }

    /// Deletes a profile.
    pub fn delete(&mut self, id: &str)
        ensures
            final(self).profiles@ == keyed::without(old(self).profiles@, id@),
            final(self).version == old(self).version,
            final(self).defaults == old(self).defaults,
    {
        remove_id(&mut self.profiles, id);
    }

    /// Replaces the defaults.
    pub fn set_defaults(&mut self, defaults: ProfileDefaults)
        ensures
            final(self).profiles == old(self).profiles,
            final(self).version == old(self).version,
            final(self).defaults == defaults,
    {
        self.defaults = defaults;
    }
}

/// The user's scenarios.
#[derive(Debug, PartialEq, Eq)]
pub struct ScenarioStore {
    pub scenarios: Vec<Scenario>,
}

impl Default for ScenarioStore {
    fn default() -> (r: Self)
        ensures
            r.scenarios@ == Seq::<Scenario>::empty(),
    {
        ScenarioStore { scenarios: Vec::new() }
    }
}

/// Whether `s` is `given` completed for saving: a new id for a blank one, a description
/// made from the tunnel's shape for a blank one.
pub open spec fn is_completed(given: Scenario, s: Scenario) -> bool {
    &&& s.name == given.name
    &&& s.kind == given.kind
    &&& s.backend == given.backend
    &&& if text::blank(given.id@) {
        model::is_uuid_v4(s.id@)
    } else {
        s.id == given.id
    }
    &&& if text::blank(given.description@) {
        s.description@ == scenarios::summary(given.kind, given.backend)
    } else {
        s.description == given.description
    }
}

impl ScenarioStore {
    /// Saves a scenario, completed, in place of the one with its id. It must have a name.
    pub fn save(&mut self, scenario: Scenario) -> (r: Result<(), String>)
        ensures
            match r {
                Ok(_) => !text::blank(scenario.name@) && exists|s: Scenario| #[trigger]
                    is_completed(scenario, s) && final(self).scenarios@ == keyed::upserted(
                        old(self).scenarios@,
                        s,
                    ),
                Err(e) => text::blank(scenario.name@) && e@ == "场景名称不能为空"@
                    && final(self).scenarios@ == old(self).scenarios@,
            },
    {
        if is_blank(scenario.name.as_str()) {
            return Err("场景名称不能为空".to_owned());
        }
        let ghost given = scenario;
        let mut scenario = scenario;
        if is_blank(scenario.id.as_str()) {
            scenario.id = TunnelSpec::new_id();
        }
        if is_blank(scenario.description.as_str()) {
            let d = scenario.describe();
            scenario.description = d;
        }
        assert(is_completed(given, scenario));
        upsert(&mut self.scenarios, scenario);
        Ok(())
    }

    /// Deletes a scenario.
    pub fn delete(&mut self, id: &str)
        ensures
            final(self).scenarios@ == keyed::without(old(self).scenarios@, id@),
    {
        remove_id(&mut self.scenarios, id);
    }
}

/// The step at which a file could not be written, with what the system said.
#[derive(Debug, PartialEq, Eq)]
pub enum SaveFailure {
    /// The directory could not be made.
    Directory(String),
    /// The value could not be put into text.
    Encode(String),
    /// The temporary file could not be written.
    Write(String),
    /// The temporary file could not take the place of the old one.
    Replace(String),
    /// The temporary file of a key could not be written.
    WriteKey(String),
    /// The new key could not take the place of the old one.
    ReplaceKey(String),
    /// The writing task itself failed.
    Task(String),
}

/// What a failed save says to the user.
pub open spec fn failure_text(f: SaveFailure) -> Seq<char> {
    match f {
        SaveFailure::Directory(e) => "创建数据目录失败: "@ + e@,
        SaveFailure::Encode(e) => "序列化失败: "@ + e@,
        SaveFailure::Write(e) => "写入配置失败: "@ + e@,
        SaveFailure::Replace(e) => "替换配置失败: "@ + e@,
        SaveFailure::WriteKey(e) => "写入密钥失败: "@ + e@,
        SaveFailure::ReplaceKey(e) => "替换密钥失败: "@ + e@,
        SaveFailure::Task(e) => "落盘任务异常: "@ + e@,
    }
}

impl SaveFailure {
    /// The message for the user.
    pub fn to_string(&self) -> (r: String)
        ensures
            r@ == failure_text(*self),
    {
        let (what, e) = match self {
            SaveFailure::Directory(e) => ("创建数据目录失败: ", e),
            SaveFailure::Encode(e) => ("序列化失败: ", e),
            SaveFailure::Write(e) => ("写入配置失败: ", e),
            SaveFailure::Replace(e) => ("替换配置失败: ", e),
            SaveFailure::WriteKey(e) => ("写入密钥失败: ", e),
            SaveFailure::ReplaceKey(e) => ("替换密钥失败: ", e),
            SaveFailure::Task(e) => ("落盘任务异常: ", e),
        };
        let mut s = what.to_owned();
        s.append(e.as_str());
        s
    }
}

/// A bare list is migrated, and loading it keeps every profile; what was loaded, once saved,
/// needs no migration and is loaded again as it was.
pub proof fn law_migration_is_lossless(
    list: Vec<ServerProfile>,
    loaded: ProfileStore,
    also_list: Option<Vec<ServerProfile>>,
    again: ProfileStore,
)
    requires
        is_loaded((ProfilesFile::Text { store: None, list: Some(list) }), loaded),
        is_loaded((ProfilesFile::Text { store: Some(loaded), list: also_list }), again),
    ensures
        is_stale(ProfilesFile::Text { store: None, list: Some(list) }),
        loaded.profiles@ == list@,
        loaded.version == PROFILES_VERSION,
        !is_stale(ProfilesFile::Text { store: Some(loaded), list: also_list }),
        again == loaded,
{
}

/// Migration overwrites nothing that was not understood: a file that is written anew was read in
/// full, and every profile in it is among those that were loaded. One that is missing, damaged or
/// up to date stays as it is.
pub proof fn law_migration_overwrites_no_damage(file: ProfilesFile, loaded: ProfileStore)
    requires
        is_loaded(file, loaded),
        is_stale(file),
    ensures
        file matches ProfilesFile::Text { store: None, list: Some(l) } && loaded.profiles@ == l@,
{
}

/// A scenario that is saved keeps its name, its shape and its landing, and whatever id and
/// description it has. It always has both in the end.
pub proof fn law_saved_scenario_is_complete(given: Scenario, s: Scenario)
    requires
        is_completed(given, s),
    ensures
        s.name == given.name && s.kind == given.kind && s.backend == given.backend,
        !text::blank(given.id@) ==> s.id == given.id,
        !text::blank(given.description@) ==> s.description == given.description,
        text::blank(given.id@) ==> model::is_uuid_v4(s.id@),
        !text::blank(s.id@),
        text::blank(given.description@) ==> s.description@ == scenarios::summary(
            given.kind,
            given.backend,
        ),
{
    if text::blank(given.id@) {
        assert(s.id@[8] == '-');
        text::law_white_space('-', s.id@);
        assert(s.id@.contains('-'));
    }
}

/// Without a choice of the user every default is open, and a file that holds no store gives the
/// current version, no defaults and the profiles of its list, if it is one.
pub proof fn law_plain_store_has_no_defaults(file: ProfilesFile, r: ProfileStore)
    requires
        is_loaded(file, r),
    ensures
        file matches ProfilesFile::Text { store: Some(s), .. } ==> r == s,
        !(file matches ProfilesFile::Text { store: Some(_), .. }) ==> {
            &&& r.version == 2
            &&& r.defaults.share_connection is None && r.defaults.max_sessions is None
            &&& r.defaults.reconnect is None
        },
        file is Missing ==> r.profiles@.len() == 0,
{
}

/// What a failed save says ends in what the system said, and tells the steps apart.
pub proof fn law_save_failure_names_its_cause(f: SaveFailure)
    ensures
        match f {
            SaveFailure::Directory(e) => failure_text(f) == "创建数据目录失败: "@ + e@,
            SaveFailure::Encode(e) => failure_text(f) == "序列化失败: "@ + e@,
            SaveFailure::Write(e) => failure_text(f) == "写入配置失败: "@ + e@,
            SaveFailure::Replace(e) => failure_text(f) == "替换配置失败: "@ + e@,
            SaveFailure::WriteKey(e) => failure_text(f) == "写入密钥失败: "@ + e@,
            SaveFailure::ReplaceKey(e) => failure_text(f) == "替换密钥失败: "@ + e@,
            SaveFailure::Task(e) => failure_text(f) == "落盘任务异常: "@ + e@,
        },
{
}

} // verus!
