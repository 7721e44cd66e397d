//! Plugin discovery and the checks that turn a shared library into a loaded
//! plugin. The steps that touch the library are the caller's; this module
//! decides the next step from what the previous one returned, so that the
//! interface version is checked before any call that exchanges data.
use crate::media::str_equal;
use crate::schema::PluginKind;
use crate::version::Version;
use vstd::prelude::*;
use vstd::string::*;

verus! {

/// Version of the plugin interface that this library implements.
pub open spec fn spec_pluglib_version() -> Version {
    Version { major: 0, minor: 2, patch: 0 }
}

/// Version of the plugin interface that this library implements.
pub fn pluglib_version() -> (r: Version)
    ensures
        r == spec_pluglib_version(),
{
    Version { major: 0, minor: 2, patch: 0 }
}

/// The directory `<base>/<app>/plugins`.
pub open spec fn app_plugins(base: Seq<char>, app: Seq<char>) -> Seq<char> {
    base + "/"@ + app + "/"@ + "plugins"@
}

/// The directories searched for plugins, in order: `plugins` beside the
/// executable, then `<app>/plugins` in the per-user data directory, then in
/// each system data directory.
pub open spec fn spec_plugin_dirs(
    exe_dir: Option<Seq<char>>,
    data_home: Option<Seq<char>>,
    data_dirs: Seq<Seq<char>>,
    app: Seq<char>,
) -> Seq<Seq<char>> {
    let first = match exe_dir {
        Some(d) => seq![d + "/"@ + "plugins"@],
        None => Seq::<Seq<char>>::empty(),
    };
    let second = match data_home {
        Some(d) => seq![app_plugins(d, app)],
        None => Seq::<Seq<char>>::empty(),
    };
    first + second + data_dirs.map_values(|d: Seq<char>| app_plugins(d, app))
}

fn app_plugins_dir(base: &str, app: &str) -> (r: String)
    ensures
        r@ == app_plugins(base@, app@),
{
    let mut out = String::from_str(base);
    out.append("/");
    out.append(app);
    out.append("/");
    out.append("plugins");
    out
}

/// Returns the directories to search plugins in.
pub fn plugin_dirs(
    exe_dir: Option<&str>,
    data_home: Option<&str>,
    data_dirs: &Vec<String>,
    app: &str,
) -> (r: Vec<String>)
    ensures
        crate::text::views(r@) == spec_plugin_dirs(
            match exe_dir {
                Some(d) => Some(d@),
                None => None,
            },
            match data_home {
                Some(d) => Some(d@),
                None => None,
            },
            crate::text::views(data_dirs@),
            app@,
        ),
{
    let mut out: Vec<String> = Vec::new();
    if let Some(d) = exe_dir {
        let mut p = String::from_str(d);
        p.append("/");
        p.append("plugins");
        out.push(p);
    }
    if let Some(d) = data_home {
        out.push(app_plugins_dir(d, app));
    }
    let ghost prefix = crate::text::views(out@);
    let n = data_dirs.len();
    let mut i: usize = 0;
    while i < n
        invariant
            n == data_dirs@.len(),
            i <= n,
            crate::text::views(out@) == prefix + crate::text::views(data_dirs@).subrange(
                0,
                i as int,
            ).map_values(|d: Seq<char>| app_plugins(d, app@)),
        decreases n - i,
    {
        let ghost before = out@;
        out.push(app_plugins_dir(data_dirs[i].as_str(), app));
        assert(crate::text::views(out@) =~= crate::text::views(before).push(
            app_plugins(data_dirs@[i as int]@, app@),
        ));
        assert(crate::text::views(data_dirs@).subrange(0, i + 1).map_values(
            |d: Seq<char>| app_plugins(d, app@),
        ) =~= crate::text::views(data_dirs@).subrange(0, i as int).map_values(
            |d: Seq<char>| app_plugins(d, app@),
        ).push(app_plugins(data_dirs@[i as int]@, app@)));
        i = i + 1;
    }
    assert(crate::text::views(data_dirs@).subrange(0, n as int) =~= crate::text::views(
        data_dirs@,
    ));
    assert(crate::text::views(out@) =~= spec_plugin_dirs(
        match exe_dir {
            Some(d) => Some(d@),
            None => None,
        },
        match data_home {
            Some(d) => Some(d@),
            None => None,
        },
        crate::text::views(data_dirs@),
        app@,
    ));
    out
}

/// The kind of plugin that a file's extension marks, if any.
pub fn plugin_kind_of(extension: Option<&str>) -> (r: Option<PluginKind>)
    ensures
        r == (if extension matches Some(e) && e@ == "media"@ {
            Some(PluginKind::Media)
        } else {
            None
        }),
{
    match extension {
        Some(e) => PluginKind::parse(e),
        None => None,
    }
}

/// Errors that may occur when loading a plugin.
#[derive(Debug, Clone)]
pub enum PluginLoadError {
    /// The library could not be opened, or lacks a symbol; with the message.
    LibLoading(String),
    /// The plugin was built against an interface version that is not
    /// compatible with this library's.
    IncompatibleLibVersions {
        /// Kind of the plugin.
        kind: PluginKind,
        /// Name of the plugin.
        name: String,
        /// Interface version that the plugin was built against.
        plugin: Version,
    },
    /// A step reported something that does not answer the step asked for.
    UnexpectedEvent,
}

/// Stage of loading one plugin.
#[derive(Debug, Clone, Copy, PartialEq, Eq, Structural)]
pub enum LoadStage {
    /// The library is being opened.
    Opening,
    /// The interface version that the plugin exports is being read.
    CheckingAbi,
    /// The plugin's own version is being asked for.
    ReadingVersion,
    /// The plugin is being asked to describe its media.
    Describing,
    /// The mandatory entry points are being looked up.
    Resolving,
    /// The plugin is loaded.
    Loaded,
    /// The plugin is rejected.
    Rejected,
}

/// What the step that was asked for returned.
#[derive(Debug, Clone)]
pub enum LoadEvent {
    /// The library is open.
    Opened,
    /// The step failed in the library loader; with its message.
    Failed(String),
    /// The exported interface version.
    AbiVersion(Version),
    /// The plugin's own version.
    PluginVersion(Version),
    /// The plugin described its media.
    Described,
    /// Both mandatory entry points were found.
    EntryPointsResolved,
}

/// The next step to take.
#[derive(Debug, Clone)]
pub enum LoadAction {
    /// Read the exported interface version.
    ReadAbiVersion,
    /// Call the plugin's version function.
    CallPluginVersion,
    /// Call the plugin's description function.
    CallDescribeMedia,
    /// Look up the entry points that list formats and extract metadata.
    ResolveEntryPoints,
    /// Keep the plugin.
    Accept,
    /// Drop the plugin, for this reason.
    Reject(PluginLoadError),
}

/// The steps of loading one media plugin.
pub struct PluginLoader {
    name: String,
    stage: LoadStage,
    abi: Option<Version>,
    version: Option<Version>,
}

/// The stage that follows `stage` on `event`, given the plugin's interface
/// version once read.
pub open spec fn next_stage(stage: LoadStage, event: LoadEvent) -> LoadStage {
    match (stage, event) {
        (LoadStage::Opening, LoadEvent::Opened) => LoadStage::CheckingAbi,
        (LoadStage::CheckingAbi, LoadEvent::AbiVersion(v)) => if spec_pluglib_version().compatible(
            v,
        ) {
            LoadStage::ReadingVersion
        } else {
            LoadStage::Rejected
        },
        (LoadStage::ReadingVersion, LoadEvent::PluginVersion(_)) => LoadStage::Describing,
        (LoadStage::Describing, LoadEvent::Described) => LoadStage::Resolving,
        (LoadStage::Resolving, LoadEvent::EntryPointsResolved) => LoadStage::Loaded,
        (LoadStage::Loaded, _) => LoadStage::Loaded,
        _ => LoadStage::Rejected,
    }
}

/// Whether the action is the one asked for at `stage`, once entered.
pub open spec fn action_of(stage: LoadStage, a: LoadAction) -> bool {
    match stage {
        LoadStage::CheckingAbi => a is ReadAbiVersion,
        LoadStage::ReadingVersion => a is CallPluginVersion,
        LoadStage::Describing => a is CallDescribeMedia,
        LoadStage::Resolving => a is ResolveEntryPoints,
        LoadStage::Loaded => a is Accept,
        LoadStage::Rejected => a is Reject,
        LoadStage::Opening => false,
    }
}

/// A failure of the library loader, a missing entry point among them,
/// rejects the plugin at every stage before it is loaded, and a rejected
/// plugin stays rejected whatever follows.
pub proof fn lemma_failure_rejects(stage: LoadStage, m: String, e: LoadEvent)
    ensures
        !(stage is Loaded) ==> next_stage(stage, LoadEvent::Failed(m)) == LoadStage::Rejected,
        next_stage(LoadStage::Rejected, e) == LoadStage::Rejected,
{
}

impl PluginLoader {
    /// Name of the plugin.
    pub closed spec fn spec_name(&self) -> Seq<char> {
        self.name@
    }

    /// Current stage.
    pub closed spec fn spec_stage(&self) -> LoadStage {
        self.stage
    }

    /// Interface version read from the plugin, once read.
    pub closed spec fn spec_abi(&self) -> Option<Version> {
        self.abi
    }

    /// The plugin's own version, once read.
    pub closed spec fn spec_version(&self) -> Option<Version> {
        self.version
    }

    /// Past the interface check, the plugin's interface version was read and
    /// is compatible; its own version is known from the description on.
    pub open spec fn wf(&self) -> bool {
        &&& (self.spec_stage() is ReadingVersion || self.spec_stage() is Describing
            || self.spec_stage() is Resolving || self.spec_stage() is Loaded) ==> (
        self.spec_abi() matches Some(v) && spec_pluglib_version().compatible(v))
        &&& (self.spec_stage() is Describing || self.spec_stage() is Resolving
            || self.spec_stage() is Loaded) ==> self.spec_version() is Some
    }

    /// Starts loading the plugin `name`: its library is to be opened first.
    pub fn new(name: String) -> (r: PluginLoader)
        ensures
            r.spec_name() == name@,
            r.spec_stage() == LoadStage::Opening,
            r.wf(),
    {
        PluginLoader { name, stage: LoadStage::Opening, abi: None, version: None }
    }

    /// Name of the plugin.
    pub fn name(&self) -> (r: &str)
        ensures
            r@ == self.spec_name(),
    {
        self.name.as_str()
    }

    /// The plugin's own version, once read.
    pub fn version(&self) -> (r: Option<Version>)
        ensures
            r == self.spec_version(),
    {
        self.version
    }

    /// Current stage.
    pub fn stage(&self) -> (r: LoadStage)
        ensures
            r == self.spec_stage(),
    {
        self.stage
    }

    /// Takes what the last step returned, and says what to do next. An
    /// incompatible interface version rejects the plugin, naming both
    /// versions' owner; so does any failure of the library loader.
    pub fn step(&mut self, event: LoadEvent) -> (r: LoadAction)
        requires
            old(self).wf(),
        ensures
            final(self).wf(),
            final(self).spec_name() == old(self).spec_name(),
            final(self).spec_stage() == next_stage(old(self).spec_stage(), event),
            action_of(final(self).spec_stage(), r),
            match event {
                LoadEvent::Failed(m) => !(old(self).spec_stage() is Loaded) ==> (r matches LoadAction::Reject(
                    PluginLoadError::LibLoading(t),
                ) && t@ == m@),
                LoadEvent::AbiVersion(v) => (old(self).spec_stage() is CheckingAbi
                    && !spec_pluglib_version().compatible(v)) ==> (r matches LoadAction::Reject(
                    PluginLoadError::IncompatibleLibVersions { kind, name, plugin },
                ) && kind == PluginKind::Media && name@ == old(self).spec_name() && plugin == v),
                LoadEvent::PluginVersion(v) => old(self).spec_stage() is ReadingVersion
                    ==> final(self).spec_version() == Some(v),
                _ => true,
            },
            !(old(self).spec_stage() is ReadingVersion) ==> final(self).spec_version() == old(
                self,
            ).spec_version(),
    {
        if self.stage == LoadStage::Loaded {
            return LoadAction::Accept;
        }
        match event {
            LoadEvent::Failed(m) => {
                self.stage = LoadStage::Rejected;
                LoadAction::Reject(PluginLoadError::LibLoading(m))
            },
            LoadEvent::Opened => {
                if self.stage == LoadStage::Opening {
                    self.stage = LoadStage::CheckingAbi;
                    LoadAction::ReadAbiVersion
                } else {
                    self.stage = LoadStage::Rejected;
                    LoadAction::Reject(PluginLoadError::UnexpectedEvent)
                }
            },
            LoadEvent::AbiVersion(v) => {
                if self.stage == LoadStage::CheckingAbi {
                    if pluglib_version().is_compatible(&v) {
                        self.abi = Some(v);
                        self.stage = LoadStage::ReadingVersion;
                        LoadAction::CallPluginVersion
                    } else {
                        self.stage = LoadStage::Rejected;
                        LoadAction::Reject(
                            PluginLoadError::IncompatibleLibVersions {
                                kind: PluginKind::Media,
                                name: self.name.clone(),
                                plugin: v,
                            },
                        )
                    }
                } else {
                    self.stage = LoadStage::Rejected;
                    LoadAction::Reject(PluginLoadError::UnexpectedEvent)
                }
            },
            LoadEvent::PluginVersion(v) => {
                if self.stage == LoadStage::ReadingVersion {
                    self.version = Some(v);
                    self.stage = LoadStage::Describing;
                    LoadAction::CallDescribeMedia
                } else {
                    self.stage = LoadStage::Rejected;
                    LoadAction::Reject(PluginLoadError::UnexpectedEvent)
                }
            },
            LoadEvent::Described => {
                if self.stage == LoadStage::Describing {
                    self.stage = LoadStage::Resolving;
                    LoadAction::ResolveEntryPoints
                } else {
                    self.stage = LoadStage::Rejected;
                    LoadAction::Reject(PluginLoadError::UnexpectedEvent)
                }
            },
            LoadEvent::EntryPointsResolved => {
                if self.stage == LoadStage::Resolving {
                    self.stage = LoadStage::Loaded;
                    LoadAction::Accept
                } else {
                    self.stage = LoadStage::Rejected;
                    LoadAction::Reject(PluginLoadError::UnexpectedEvent)
                }
            },
        }
    }
}

} // verus!
