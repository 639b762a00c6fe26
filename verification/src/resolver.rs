//! The steps from a configuration file to a configuration that the daemon can run with.
//!
//! What only the file system knows is asked for, one question at a time. Every watched folder is
//! asked for first: no directory is created while one of them may be missing.

use vstd::prelude::*;
use vstd::string::*;

use crate::config::{
    assert_outside, clamp_settings, clamped, expand, expanded, format_mismatch,
    notifications_checked, outside_all, outside_checked, path_view, preset_path,
    resolve_notifications, resolve_preset_file, warn_on_format_mismatch, Config, ConfigError,
    Folder, Notifications, ResolvedConfig, ResolvedFolder,
};
use crate::path::{inside, FilePath};
use crate::preset::{
    first_preset_comes_out, leaves, load_preset, selected, PresetError, PresetFile, PresetInfo,
    PresetNode,
};
use crate::text::{blank, contained_between};

verus! {

/// What the file system is asked.
#[derive(Debug)]
pub enum Request {
    /// Is this a directory, and what is its canonical path?
    WatchDir { dir: FilePath },
    /// Create this directory and those above it. What is its canonical path?
    CreateDir { dir: FilePath },
    /// Is this a file?
    FindPreset { path: FilePath },
    /// Read and parse this preset file.
    ReadPreset { path: FilePath },
    /// Tell the user that a folder's extension does not match its preset's format.
    Warn { folder: String, output_extension: String, preset_format: String },
}

/// Why a preset file gave no presets.
#[derive(Debug)]
pub enum PresetReadError {
    Unreadable(String),
    Unparsable(String),
}

/// What the file system answers.
#[derive(Debug)]
pub enum Reply {
    /// The canonical path, where the directory is there.
    WatchDir(Option<FilePath>),
    /// The canonical path, or why the directory could not be created.
    Created(Result<FilePath, String>),
    /// Whether the file is there.
    Found(bool),
    /// What the preset file holds.
    Preset(Result<PresetFile, PresetReadError>),
    /// The user has been told.
    Warned,
}

/// What is being asked.
#[derive(Debug)]
pub enum Stage {
    /// For the watched folder behind those seen.
    WatchDirs,
    /// For the output directory of the folder behind those resolved.
    Output,
    /// For its directory of originals.
    Originals { output_dir: FilePath },
    /// For its preset file.
    FindPreset { output_dir: FilePath, originals_dir: FilePath, preset_file: FilePath },
    /// For what its preset file holds.
    ReadPreset { output_dir: FilePath, originals_dir: FilePath, preset_file: FilePath },
    /// To tell the user of its formats, before it counts as resolved.
    Warn { folder: ResolvedFolder },
}

/// A configuration on its way.
#[derive(Debug)]
pub struct Resolver {
    pub raw: Config,
    pub home: Option<FilePath>,
    /// The canonical paths of the watched folders seen so far.
    pub watch_dirs: Vec<FilePath>,
    /// The folders resolved so far.
    pub folders: Vec<ResolvedFolder>,
    pub stage: Stage,
}

/// Where resolving stands.
#[derive(Debug)]
pub enum Step {
    /// A question is open.
    Ask { resolver: Resolver, request: Request },
    /// The configuration is accepted.
    Done(ResolvedConfig),
    /// The configuration is refused.
    Failed(ConfigError),
}

impl Resolver {
    /// The folder whose directories or preset are being asked for.
    pub open spec fn current(self) -> Folder {
        self.raw.folders@[self.folders@.len() as int]
    }

    /// The folders resolved so far are those of the file and write to no watched folder, and neither
    /// does the current one.
    pub open spec fn layout(self) -> bool {
        &&& forall|j: int|
            0 <= j < self.folders@.len() ==> {
                &&& folder_outside(#[trigger] self.folders@[j], self.watch_dirs@)
                &&& of_file(self.folders@[j], self.raw.folders@[j], path_view(self.home))
            }
        &&& match self.stage {
            Stage::FindPreset { output_dir, originals_dir, .. } => outside_all(
                output_dir@,
                self.watch_dirs@,
            ) && outside_all(originals_dir@, self.watch_dirs@),
            Stage::ReadPreset { output_dir, originals_dir, .. } => outside_all(
                output_dir@,
                self.watch_dirs@,
            ) && outside_all(originals_dir@, self.watch_dirs@),
            Stage::Warn { folder } => folder_outside(folder, self.watch_dirs@) && of_file(
                folder,
                self.current(),
                path_view(self.home),
            ),
            _ => true,
        }
    }

    /// Watched folders are asked for first, and all of them are there before anything else is
    /// asked.
    pub open spec fn wf(self) -> bool {
        &&& match self.stage {
            Stage::WatchDirs => self.watch_dirs@.len() < self.raw.folders@.len()
                && self.folders@.len() == 0,
            _ => self.watch_dirs@.len() == self.raw.folders@.len() && self.folders@.len()
                < self.raw.folders@.len(),
        }
        &&& self.layout()
    }
}

/// What a folder writes to stands in no watched folder.
pub open spec fn folder_outside(folder: ResolvedFolder, watch_dirs: Seq<FilePath>) -> bool {
    outside_all(folder.output_dir@, watch_dirs) && outside_all(folder.originals_dir@, watch_dirs)
}

/// A folder is the one that the file describes.
pub open spec fn of_file(folder: ResolvedFolder, f: Folder, home: Option<Seq<u8>>) -> bool {
    &&& folder.name == f.name
    &&& folder.watch_dir@ == expanded(f.watch_dir@, home)
    &&& folder.output_extension == f.output_extension
}

/// A reply of the kind that a stage waits for.
pub open spec fn fits(stage: Stage, reply: Reply) -> bool {
    match stage {
        Stage::WatchDirs => reply is WatchDir,
        Stage::Output => reply is Created,
        Stage::Originals { .. } => reply is Created,
        Stage::FindPreset { .. } => reply is Found,
        Stage::ReadPreset { .. } => reply is Preset,
        Stage::Warn { .. } => reply is Warned,
    }
}

/// A request is the question of a resolver's stage.
pub open spec fn asks(r: Resolver, request: Request) -> bool {
    let home = path_view(r.home);
    match r.stage {
        Stage::WatchDirs => request matches Request::WatchDir { dir } && dir@ == expanded(
            r.raw.folders@[r.watch_dirs@.len() as int].watch_dir@,
            home,
        ),
        Stage::Output => request matches Request::CreateDir { dir } && dir@ == expanded(
            r.current().output_dir@,
            home,
        ),
        Stage::Originals { .. } => request matches Request::CreateDir { dir } && dir@ == expanded(
            r.current().originals_dir@,
            home,
        ),
        Stage::FindPreset { preset_file, .. } => request matches Request::FindPreset { path }
            && path == preset_file,
        Stage::ReadPreset { preset_file, .. } => request matches Request::ReadPreset { path }
            && path == preset_file,
        Stage::Warn { .. } => request is Warn,
    }
}

/// The question goes on with these watched folders seen and these folders resolved.
pub open spec fn goes_on(
    before: Resolver,
    watch_dirs: Seq<FilePath>,
    folders: Seq<ResolvedFolder>,
    step: Step,
) -> bool {
    &&& step matches Step::Ask { resolver, request }
    &&& resolver.raw == before.raw
    &&& resolver.home == before.home
    &&& resolver.watch_dirs@ == watch_dirs
    &&& resolver.folders@ == folders
    &&& asks(resolver, request)
}

/// All folders are resolved: the notification settings decide, and the settings are clamped.
pub open spec fn finished(
    before: Resolver,
    folders: Seq<ResolvedFolder>,
    step: Step,
) -> bool {
    match step {
        Step::Done(cfg) => {
            &&& notifications_checked(
                before.raw.notifications,
                Ok::<Notifications, ConfigError>(cfg.notifications),
            )
            &&& cfg.settings == clamped(before.raw.settings)
            &&& cfg.server == before.raw.server
            &&& cfg.folders@ == folders
            &&& cfg.state_file@ == expanded(before.raw.settings.state_file@, path_view(before.home))
        },
        Step::Failed(e) => notifications_checked(
            before.raw.notifications,
            Err::<Notifications, ConfigError>(e),
        ),
        Step::Ask { .. } => false,
    }
}

/// A folder is resolved: the next one follows, or it was the last.
pub open spec fn next_folder(before: Resolver, folder: ResolvedFolder, step: Step) -> bool {
    let folders = before.folders@.push(folder);
    if folders.len() < before.raw.folders@.len() {
        goes_on(before, before.watch_dirs@, folders, step) && step->resolver.stage is Output
    } else {
        finished(before, folders, step)
    }
}

/// A folder with its directories, preset file and preset.
pub open spec fn folder_resolved(
    f: Folder,
    home: Option<Seq<u8>>,
    output_dir: FilePath,
    originals_dir: FilePath,
    preset_file: FilePath,
    info: PresetInfo,
    folder: ResolvedFolder,
) -> bool {
    &&& folder.name == f.name
    &&& folder.watch_dir@ == expanded(f.watch_dir@, home)
    &&& folder.output_dir == output_dir
    &&& folder.originals_dir == originals_dir
    &&& folder.output_extension == f.output_extension
    &&& folder.preset_file == preset_file
    &&& folder.preset_name == info.name
}

/// A folder's preset is known: a mismatch of formats is told first.
pub open spec fn preset_known(
    before: Resolver,
    output_dir: FilePath,
    originals_dir: FilePath,
    preset_file: FilePath,
    info: PresetInfo,
    step: Step,
) -> bool {
    let f = before.current();
    exists|folder: ResolvedFolder|
        {
            &&& #[trigger] folder_resolved(
                f,
                path_view(before.home),
                output_dir,
                originals_dir,
                preset_file,
                info,
                folder,
            )
            &&& if format_mismatch(f, info) {
                &&& goes_on(before, before.watch_dirs@, before.folders@, step)
                &&& step->resolver.stage == (Stage::Warn { folder })
                &&& step->request matches Request::Warn {
                    folder: name,
                    output_extension,
                    preset_format,
                }
                &&& name == f.name
                &&& output_extension == f.output_extension
                &&& Some(preset_format) == info.file_format
            } else {
                next_folder(before, folder, step)
            }
        }
}

/// The directories of a folder are there: they have to stand outside every watched folder, and the
/// preset file follows.
pub open spec fn dirs_known(
    before: Resolver,
    output_dir: FilePath,
    originals_dir: FilePath,
    step: Step,
) -> bool {
    let f = before.current();
    if !outside_all(output_dir@, before.watch_dirs@) {
        step matches Step::Failed(e) && outside_checked(
            output_dir,
            before.watch_dirs@,
            "output_dir"@,
            Err(e),
        )
    } else if !outside_all(originals_dir@, before.watch_dirs@) {
        step matches Step::Failed(e) && outside_checked(
            originals_dir,
            before.watch_dirs@,
            "originals_dir"@,
            Err(e),
        )
    } else {
        match preset_path(f, before.raw.settings.preset_dir, path_view(before.home)) {
            Some(path) => {
                &&& goes_on(before, before.watch_dirs@, before.folders@, step)
                &&& step->resolver.stage matches Stage::FindPreset {
                    output_dir: o,
                    originals_dir: d,
                    preset_file,
                }
                &&& o == output_dir
                &&& d == originals_dir
                &&& preset_file@ == path
            },
            None => step matches Step::Failed(ConfigError::NoPreset { folder }) && folder@
                == f.name@,
        }
    }
}

/// `step` is what a reply leads to.
pub open spec fn answered(before: Resolver, reply: Reply, step: Step) -> bool {
    let home = path_view(before.home);
    match (before.stage, reply) {
        (Stage::WatchDirs, Reply::WatchDir(None)) => {
            &&& step matches Step::Failed(ConfigError::WatchDirMissing { dir })
            &&& dir@ == expanded(
                before.raw.folders@[before.watch_dirs@.len() as int].watch_dir@,
                home,
            )
        },
        (Stage::WatchDirs, Reply::WatchDir(Some(dir))) => {
            let seen = before.watch_dirs@.push(dir);
            &&& goes_on(before, seen, before.folders@, step)
            &&& if seen.len() < before.raw.folders@.len() {
                step->resolver.stage is WatchDirs
            } else {
                step->resolver.stage is Output
            }
        },
        (Stage::Output, Reply::Created(Ok(dir))) => {
            &&& goes_on(before, before.watch_dirs@, before.folders@, step)
            &&& step->resolver.stage == (Stage::Originals { output_dir: dir })
        },
        (Stage::Output, Reply::Created(Err(why))) => {
            &&& step matches Step::Failed(ConfigError::DirNotCreated { dir, cause })
            &&& dir@ == expanded(before.current().output_dir@, home)
            &&& cause == why
        },
        (Stage::Originals { output_dir }, Reply::Created(Ok(dir))) => dirs_known(
            before,
            output_dir,
            dir,
            step,
        ),
        (Stage::Originals { .. }, Reply::Created(Err(why))) => {
            &&& step matches Step::Failed(ConfigError::DirNotCreated { dir, cause })
            &&& dir@ == expanded(before.current().originals_dir@, home)
            &&& cause == why
        },
        (
            Stage::FindPreset { output_dir, originals_dir, preset_file },
            Reply::Found(there),
        ) => if there {
            &&& goes_on(before, before.watch_dirs@, before.folders@, step)
            &&& step->resolver.stage == (Stage::ReadPreset {
                output_dir,
                originals_dir,
                preset_file,
            })
        } else {
            step == Step::Failed(ConfigError::PresetMissing { path: preset_file })
        },
        (
            Stage::ReadPreset { output_dir, originals_dir, preset_file },
            Reply::Preset(Ok(parsed)),
        ) => exists|result: Result<PresetInfo, PresetError>|
            {
                &&& #[trigger] preset_selected(before.current(), parsed, preset_file, result)
                &&& match result {
                    Ok(info) => preset_known(
                        before,
                        output_dir,
                        originals_dir,
                        preset_file,
                        info,
                        step,
                    ),
                    Err(e) => step == Step::Failed(ConfigError::Preset(e)),
                }
            },
        (
            Stage::ReadPreset { preset_file, .. },
            Reply::Preset(Err(PresetReadError::Unreadable(why))),
        ) => step == Step::Failed(
            ConfigError::PresetUnreadable { path: preset_file, cause: why },
        ),
        (
            Stage::ReadPreset { preset_file, .. },
            Reply::Preset(Err(PresetReadError::Unparsable(why))),
        ) => step == Step::Failed(
            ConfigError::PresetUnparsable { path: preset_file, cause: why },
        ),
        (Stage::Warn { folder }, Reply::Warned) => next_folder(before, folder, step),
        _ => false,
    }
}

/// `result` is the selection of a folder's preset.
pub open spec fn preset_selected(
    f: Folder,
    parsed: PresetFile,
    path: FilePath,
    result: Result<PresetInfo, PresetError>,
) -> bool {
    let wanted = match f.preset_name {
        Some(name) => Some(name@),
        None => None,
    };
    selected(leaves(parsed.preset_list@), wanted, path, result)
}

/// `step` is the start of resolving a configuration.
pub open spec fn started(raw: Config, home: Option<FilePath>, step: Step) -> bool {
    if raw.folders@.len() == 0 {
        step == Step::Failed(ConfigError::NoFolders)
    } else {
        &&& step matches Step::Ask { resolver, request }
        &&& resolver.raw == raw
        &&& resolver.home == home
        &&& resolver.watch_dirs@.len() == 0
        &&& resolver.folders@.len() == 0
        &&& resolver.stage is WatchDirs
        &&& asks(resolver, request)
    }
}

/// Asks for the watched folder behind those seen.
fn ask_watch_dir(
    raw: Config,
    home: Option<FilePath>,
    watch_dirs: Vec<FilePath>,
    folders: Vec<ResolvedFolder>,
) -> (step: Step)
    requires
        watch_dirs@.len() < raw.folders@.len(),
    ensures
        step matches Step::Ask { resolver, request } && resolver.raw == raw && resolver.home == home
            && resolver.watch_dirs == watch_dirs && resolver.folders == folders
            && resolver.stage is WatchDirs && asks(resolver, request),
{
    let dir: FilePath = expand(raw.folders[watch_dirs.len()].watch_dir.as_str(), &home);
    let resolver = Resolver { raw, home, watch_dirs, folders, stage: Stage::WatchDirs };
    Step::Ask { resolver, request: Request::WatchDir { dir } }
}

/// Asks for the output directory of the folder behind those resolved.
fn ask_output(
    raw: Config,
    home: Option<FilePath>,
    watch_dirs: Vec<FilePath>,
    folders: Vec<ResolvedFolder>,
) -> (step: Step)
    requires
        folders@.len() < raw.folders@.len(),
    ensures
        step matches Step::Ask { resolver, request } && resolver.raw == raw && resolver.home == home
            && resolver.watch_dirs == watch_dirs && resolver.folders == folders
            && resolver.stage is Output && asks(resolver, request),
{
    let dir: FilePath = expand(raw.folders[folders.len()].output_dir.as_str(), &home);
    let resolver = Resolver { raw, home, watch_dirs, folders, stage: Stage::Output };
    Step::Ask { resolver, request: Request::CreateDir { dir } }
}

/// Takes a resolved folder in.
fn accept_folder(
    raw: Config,
    home: Option<FilePath>,
    watch_dirs: Vec<FilePath>,
    folders: Vec<ResolvedFolder>,
    folder: ResolvedFolder,
    Ghost(before): Ghost<Resolver>,
) -> (step: Step)
    requires
        before.wf(),
        before.raw == raw,
        before.home == home,
        before.watch_dirs == watch_dirs,
        before.folders == folders,
        !(before.stage is WatchDirs),
    ensures
        next_folder(before, folder, step),
{
    let mut folders: Vec<ResolvedFolder> = folders;
    folders.push(folder);
    if folders.len() < raw.folders.len() {
        return ask_output(raw, home, watch_dirs, folders);
    }
    match resolve_notifications(raw.notifications) {
        Err(e) => Step::Failed(e),
        Ok(notifications) => {
            let settings = clamp_settings(raw.settings);
            let state_file: FilePath = expand(settings.state_file.as_str(), &home);
            Step::Done(
                ResolvedConfig { settings, notifications, server: raw.server, folders, state_file },
            )
        },
    }
}

/// Checks the configuration and starts to resolve its paths and presets.
pub fn resolve(raw: Config, home: Option<FilePath>) -> (step: Step)
    ensures
        started(raw, home, step),
        step matches Step::Ask { resolver, .. } ==> resolver.wf(),
{
    if raw.folders.len() == 0 {
        return Step::Failed(ConfigError::NoFolders);
    }
    ask_watch_dir(raw, home, Vec::new(), Vec::new())
}

/// A folder with its directories, preset file and preset.
pub fn resolve_folder(
    f: &Folder,
    home: &Option<FilePath>,
    output_dir: FilePath,
    originals_dir: FilePath,
    preset_file: FilePath,
    info: PresetInfo,
) -> (folder: ResolvedFolder)
    ensures
        folder_resolved(
            *f,
            path_view(*home),
            output_dir,
            originals_dir,
            preset_file,
            info,
            folder,
        ),
{
    ResolvedFolder {
        name: f.name.clone(),
        watch_dir: expand(f.watch_dir.as_str(), home),
        output_dir,
        originals_dir,
        output_extension: f.output_extension.clone(),
        preset_file,
        preset_name: info.name,
    }
}

impl Resolver {
    /// Takes an answer in and goes on.
    pub fn answer(self, reply: Reply) -> (step: Step)
        requires
            self.wf(),
            fits(self.stage, reply),
        ensures
            answered(self, reply, step),
            step matches Step::Ask { resolver, .. } ==> resolver.wf(),
    {
        let ghost before = self;
        let Resolver { raw, home, watch_dirs, folders, stage } = self;
        match (stage, reply) {
            (Stage::WatchDirs, Reply::WatchDir(None)) => {
                let dir: FilePath = expand(
                    raw.folders[watch_dirs.len()].watch_dir.as_str(),
                    &home,
                );
                Step::Failed(ConfigError::WatchDirMissing { dir })
            },
            (Stage::WatchDirs, Reply::WatchDir(Some(dir))) => {
                let mut watch_dirs: Vec<FilePath> = watch_dirs;
                watch_dirs.push(dir);
                if watch_dirs.len() < raw.folders.len() {
                    ask_watch_dir(raw, home, watch_dirs, folders)
                } else {
                    ask_output(raw, home, watch_dirs, folders)
                }
            },
            (Stage::Output, Reply::Created(Ok(output_dir))) => {
                let dir: FilePath = expand(
                    raw.folders[folders.len()].originals_dir.as_str(),
                    &home,
                );
                let stage = Stage::Originals { output_dir };
                let resolver = Resolver { raw, home, watch_dirs, folders, stage };
                Step::Ask { resolver, request: Request::CreateDir { dir } }
            },
            (Stage::Output, Reply::Created(Err(cause))) => {
                let dir: FilePath = expand(raw.folders[folders.len()].output_dir.as_str(), &home);
                Step::Failed(ConfigError::DirNotCreated { dir, cause })
            },
            (Stage::Originals { output_dir }, Reply::Created(Ok(originals_dir))) => {
                if let Err(e) = assert_outside(&output_dir, &watch_dirs, "output_dir") {
                    return Step::Failed(e);
                }
                if let Err(e) = assert_outside(&originals_dir, &watch_dirs, "originals_dir") {
                    return Step::Failed(e);
                }
                let found = resolve_preset_file(&raw.folders[folders.len()], &raw.settings, &home);
                match found {
                    Err(e) => Step::Failed(e),
                    Ok(preset_file) => {
                        let request = Request::FindPreset { path: preset_file.clone() };
                        let stage = Stage::FindPreset { output_dir, originals_dir, preset_file };
                        let resolver = Resolver { raw, home, watch_dirs, folders, stage };
                        Step::Ask { resolver, request }
                    },
                }
            },
            (Stage::Originals { output_dir: _ }, Reply::Created(Err(cause))) => {
                let dir: FilePath = expand(
                    raw.folders[folders.len()].originals_dir.as_str(),
                    &home,
                );
                Step::Failed(ConfigError::DirNotCreated { dir, cause })
            },
            (
                Stage::FindPreset { output_dir, originals_dir, preset_file },
                Reply::Found(there),
            ) => {
                if !there {
                    return Step::Failed(ConfigError::PresetMissing { path: preset_file });
                }
                let request = Request::ReadPreset { path: preset_file.clone() };
                let stage = Stage::ReadPreset { output_dir, originals_dir, preset_file };
                let resolver = Resolver { raw, home, watch_dirs, folders, stage };
                Step::Ask { resolver, request }
            },
            (
                Stage::ReadPreset { output_dir, originals_dir, preset_file },
                Reply::Preset(Ok(parsed)),
            ) => {
                let f: &Folder = &raw.folders[folders.len()];
                let wanted: Option<&str> = match &f.preset_name {
                    Some(name) => Some(name.as_str()),
                    None => None,
                };
                let selection = load_preset(&parsed, wanted, &preset_file);
                assert(preset_selected(before.current(), parsed, preset_file, selection));
                match selection {
                    Err(e) => Step::Failed(ConfigError::Preset(e)),
                    Ok(info) => {
                        let mismatch: bool = warn_on_format_mismatch(f, &info);
                        let preset_format: String = match &info.file_format {
                            Some(format) => format.clone(),
                            None => String::new(),
                        };
                        let folder = resolve_folder(
                            f,
                            &home,
                            output_dir,
                            originals_dir,
                            preset_file,
                            info,
                        );
                        assert(folder_resolved(
                            before.current(),
                            path_view(before.home),
                            output_dir,
                            originals_dir,
                            preset_file,
                            info,
                            folder,
                        ));
                        if mismatch {
                            let request = Request::Warn {
                                folder: f.name.clone(),
                                output_extension: f.output_extension.clone(),
                                preset_format,
                            };
                            let stage = Stage::Warn { folder };
                            let resolver = Resolver { raw, home, watch_dirs, folders, stage };
                            Step::Ask { resolver, request }
                        } else {
                            accept_folder(
                                raw,
                                home,
                                watch_dirs,
                                folders,
                                folder,
                                Ghost(before),
                            )
                        }
                    },
                }
            },
            (
                Stage::ReadPreset { output_dir: _, originals_dir: _, preset_file },
                Reply::Preset(Err(PresetReadError::Unreadable(cause))),
            ) => Step::Failed(ConfigError::PresetUnreadable { path: preset_file, cause }),
            (
                Stage::ReadPreset { output_dir: _, originals_dir: _, preset_file },
                Reply::Preset(Err(PresetReadError::Unparsable(cause))),
            ) => Step::Failed(ConfigError::PresetUnparsable { path: preset_file, cause }),
            (Stage::Warn { folder }, Reply::Warned) => accept_folder(
                raw,
                home,
                watch_dirs,
                folders,
                folder,
                Ghost(before),
            ),
            _ => {
                assert(false);
                Step::Failed(ConfigError::NoFolders)
            },
        }
    }
}

/// A whole run: `steps[k]` is where resolving stands after the first `k` replies.
pub open spec fn is_run(
    raw: Config,
    home: Option<FilePath>,
    replies: Seq<Reply>,
    steps: Seq<Step>,
) -> bool {
    &&& steps.len() == replies.len() + 1
    &&& started(raw, home, steps[0])
    &&& forall|k: int|
        0 <= k < replies.len() ==> {
            &&& steps[k] is Ask
            &&& answered(steps[k]->resolver, #[trigger] replies[k], steps[k + 1])
        }
}

/// The first replies of a run told of the watched folders, in order.
pub open spec fn seen_in(replies: Seq<Reply>, watch_dirs: Seq<FilePath>) -> bool {
    &&& watch_dirs.len() <= replies.len()
    &&& forall|i: int|
        0 <= i < watch_dirs.len() ==> #[trigger] replies[i] == Reply::WatchDir(Some(watch_dirs[i]))
}

/// What holds of every question of a run.
proof fn run_invariant(
    raw: Config,
    home: Option<FilePath>,
    replies: Seq<Reply>,
    steps: Seq<Step>,
    k: int,
)
    requires
        is_run(raw, home, replies, steps),
        0 <= k < steps.len(),
        steps[k] is Ask,
    ensures
        steps[k]->resolver.wf(),
        steps[k]->resolver.raw == raw,
        steps[k]->resolver.home == home,
        asks(steps[k]->resolver, steps[k]->request),
        seen_in(replies.take(k), steps[k]->resolver.watch_dirs@),
        steps[k]->resolver.stage is WatchDirs ==> steps[k]->resolver.watch_dirs@.len() == k,
        !(steps[k]->resolver.stage is WatchDirs) ==> k >= raw.folders@.len(),
    decreases k,
{
    if k > 0 {
        let before = steps[k - 1]->resolver;
        assert(answered(before, replies[k - 1], steps[k]));
        run_invariant(raw, home, replies, steps, k - 1);
        let after = steps[k]->resolver;
        assert forall|i: int| 0 <= i < after.watch_dirs@.len() implies #[trigger] replies.take(k)[i]
            == Reply::WatchDir(Some(after.watch_dirs@[i])) by {
            if i < before.watch_dirs@.len() {
                assert(replies.take(k - 1)[i] == replies.take(k)[i]);
            }
        }
    }
}

/// No directory is created before every watched folder has been found: the first questions ask for
/// the watched folders in order, and all of them were answered with a directory.
pub proof fn watch_dirs_come_first(
    raw: Config,
    home: Option<FilePath>,
    replies: Seq<Reply>,
    steps: Seq<Step>,
    k: int,
)
    requires
        is_run(raw, home, replies, steps),
        0 <= k < steps.len(),
        steps[k] is Ask,
        steps[k]->request is CreateDir,
    ensures
        k >= raw.folders@.len(),
        forall|i: int|
            0 <= i < raw.folders@.len() ==> {
                &&& #[trigger] replies[i] matches Reply::WatchDir(Some(_))
                &&& steps[i] is Ask
                &&& steps[i]->request matches Request::WatchDir { dir }
                &&& dir@ == expanded(raw.folders@[i].watch_dir@, path_view(home))
            },
{
    run_invariant(raw, home, replies, steps, k);
    assert forall|i: int| 0 <= i < raw.folders@.len() implies {
        &&& #[trigger] replies[i] matches Reply::WatchDir(Some(_))
        &&& steps[i] is Ask
        &&& steps[i]->request matches Request::WatchDir { dir }
        &&& dir@ == expanded(raw.folders@[i].watch_dir@, path_view(home))
    } by {
        assert(replies.take(k)[i] == replies[i]);
        run_invariant(raw, home, replies, steps, i);
    }
}

/// A watched folder was found, and what a folder writes to does not stand in it.
pub open spec fn clear_of(reply: Reply, folder: ResolvedFolder) -> bool {
    &&& reply matches Reply::WatchDir(Some(dir))
    &&& !inside(folder.output_dir@, dir@)
    &&& !inside(folder.originals_dir@, dir@)
}

/// A run that is accepted: what the folders write to stands in none of the watched folders that
/// were found, the folders are those of the file in order, and the settings are in range.
pub proof fn accepted_layout(
    raw: Config,
    home: Option<FilePath>,
    replies: Seq<Reply>,
    steps: Seq<Step>,
)
    requires
        is_run(raw, home, replies, steps),
        steps.last() is Done,
    ensures
        ({
            let cfg = steps.last()->Done_0;
            &&& cfg.folders@.len() == raw.folders@.len()
            &&& cfg.folders@.len() > 0
            &&& forall|j: int|
                0 <= j < cfg.folders@.len() ==> of_file(
                    #[trigger] cfg.folders@[j],
                    raw.folders@[j],
                    path_view(home),
                )
            &&& forall|i: int, j: int|
                0 <= i < raw.folders@.len() && 0 <= j < cfg.folders@.len() ==> #[trigger] clear_of(
                    replies[i],
                    cfg.folders@[j],
                )
            &&& 1 <= cfg.settings.workers <= 5
            &&& cfg.settings.stabilize_checks >= 1
            &&& cfg.notifications.enabled ==> !blank(cfg.notifications.topic@)
        }),
{
    let k = replies.len() as int;
    if k > 0 {
        let before = steps[k - 1]->resolver;
        assert(answered(before, replies[k - 1], steps[k]));
        run_invariant(raw, home, replies, steps, k - 1);
        let cfg = steps[k]->Done_0;
        assert forall|i: int, j: int|
            0 <= i < raw.folders@.len() && 0 <= j < cfg.folders@.len() implies #[trigger] clear_of(
            replies[i],
            cfg.folders@[j],
        ) by {
            assert(replies.take(k - 1)[i] == replies[i]);
            let dir = before.watch_dirs@[i];
            assert(folder_outside(cfg.folders@[j], before.watch_dirs@)) by {
                if j < before.folders@.len() {
                    assert(cfg.folders@[j] == before.folders@[j]);
                }
            }
        }
    }
}

/// An answer that says no ends the run at once, and the error names what was asked for and why it was
/// refused.
pub proof fn refusals_end_the_run(before: Resolver, request: Request, reply: Reply, step: Step)
    requires
        before.wf(),
        fits(before.stage, reply),
        asks(before, request),
        answered(before, reply, step),
    ensures
        reply matches Reply::WatchDir(None) ==> {
            &&& request matches Request::WatchDir { dir: asked }
            &&& step matches Step::Failed(ConfigError::WatchDirMissing { dir })
            &&& dir@ == asked@
        },
        reply matches Reply::Created(Err(why)) ==> {
            &&& request matches Request::CreateDir { dir: asked }
            &&& step matches Step::Failed(ConfigError::DirNotCreated { dir, cause })
            &&& dir@ == asked@
            &&& cause@ == why@
        },
        reply matches Reply::Found(false) ==> {
            &&& request matches Request::FindPreset { path: asked }
            &&& step matches Step::Failed(ConfigError::PresetMissing { path })
            &&& path@ == asked@
        },
        reply matches Reply::Preset(Err(PresetReadError::Unreadable(why))) ==> {
            &&& request matches Request::ReadPreset { path: asked }
            &&& step matches Step::Failed(ConfigError::PresetUnreadable { path, cause })
            &&& path@ == asked@
            &&& cause@ == why@
        },
        reply matches Reply::Preset(Err(PresetReadError::Unparsable(why))) ==> {
            &&& request matches Request::ReadPreset { path: asked }
            &&& step matches Step::Failed(ConfigError::PresetUnparsable { path, cause })
            &&& path@ == asked@
            &&& cause@ == why@
        },
{
}

/// A directory that is there, a file that is there and a user who has been told are no reason to
/// refuse a configuration, except for what its directories stand in, for a preset file that none
/// names and for its notification settings.
pub proof fn good_answers_go_on(before: Resolver, reply: Reply, step: Step)
    requires
        before.wf(),
        fits(before.stage, reply),
        answered(before, reply, step),
        step is Failed,
    ensures
        !(reply matches Reply::WatchDir(Some(_))),
        !(reply matches Reply::Found(true)),
        reply matches Reply::Created(Ok(dir)) ==> {
            &&& before.stage matches Stage::Originals { output_dir }
            &&& match step->Failed_0 {
                ConfigError::Nested { dir: refused, watch_dir, .. } => {
                    &&& refused == output_dir || refused == dir
                    &&& before.watch_dirs@.contains(watch_dir)
                    &&& inside(refused@, watch_dir@)
                },
                ConfigError::NoPreset { folder } => {
                    &&& folder@ == before.current().name@
                    &&& before.current().preset_file is None
                    &&& before.raw.settings.preset_dir is None
                },
                _ => false,
            }
        },
        reply is Warned ==> {
            &&& step->Failed_0 is TopicRequired
            &&& before.raw.notifications.enabled
            &&& blank(before.raw.notifications.topic@)
        },
{
}

/// A preset that a folder asks for by name has that name, and one that it does not ask for by name is
/// the first of the file.
pub open spec fn preset_of(f: Folder, parsed: PresetFile, name: Seq<char>) -> bool {
    let presets = leaves(parsed.preset_list@);
    match f.preset_name {
        Some(wanted) => name == wanted@ && exists|i: int|
            0 <= i < presets.len() && ((#[trigger] presets[i]).preset_name matches Some(own)
                && own@ == name),
        None => presets.len() > 0 && (presets[0].preset_name matches Some(own) && own@ == name),
    }
}

/// The four questions from the `k`th one on are those for the directories and the preset of a folder
/// of the file, and what `folder` writes to and encodes with is what was answered.
pub open spec fn asked_for(
    raw: Config,
    home: Option<FilePath>,
    replies: Seq<Reply>,
    steps: Seq<Step>,
    k: int,
    f: Folder,
    folder: ResolvedFolder,
) -> bool {
    &&& 0 <= k
    &&& k + 3 < replies.len()
    &&& forall|m: int| k <= m <= k + 3 ==> #[trigger] steps[m] is Ask
    &&& steps[k]->request matches Request::CreateDir { dir: output }
    &&& output@ == expanded(f.output_dir@, path_view(home))
    &&& replies[k] == Reply::Created(Ok(folder.output_dir))
    &&& steps[k + 1]->request matches Request::CreateDir { dir: originals }
    &&& originals@ == expanded(f.originals_dir@, path_view(home))
    &&& replies[k + 1] == Reply::Created(Ok(folder.originals_dir))
    &&& steps[k + 2]->request == (Request::FindPreset { path: folder.preset_file })
    &&& Some(folder.preset_file@) == preset_path(f, raw.settings.preset_dir, path_view(home))
    &&& replies[k + 2] == Reply::Found(true)
    &&& steps[k + 3]->request == (Request::ReadPreset { path: folder.preset_file })
    &&& replies[k + 3] matches Reply::Preset(Ok(parsed))
    &&& preset_of(f, parsed, folder.preset_name@)
}

/// Folders that were asked for, each for the one of the file in its place.
pub open spec fn all_asked_for(
    raw: Config,
    home: Option<FilePath>,
    replies: Seq<Reply>,
    steps: Seq<Step>,
    folders: Seq<ResolvedFolder>,
) -> bool {
    forall|j: int|
        0 <= j < folders.len() ==> was_asked_for(
            raw,
            home,
            replies,
            steps,
            raw.folders@[j],
            #[trigger] folders[j],
        )
}

/// Somewhere in a run a folder was asked for.
pub open spec fn was_asked_for(
    raw: Config,
    home: Option<FilePath>,
    replies: Seq<Reply>,
    steps: Seq<Step>,
    f: Folder,
    folder: ResolvedFolder,
) -> bool {
    exists|k: int| #[trigger] asked_for(raw, home, replies, steps, k, f, folder)
}

/// What the questions of a run so far were answered for the folder at hand.
spec fn asked_so_far(
    raw: Config,
    home: Option<FilePath>,
    replies: Seq<Reply>,
    steps: Seq<Step>,
    k: int,
) -> bool {
    let r = steps[k]->resolver;
    let f = r.current();
    let full = path_view(home);
    &&& all_asked_for(raw, home, replies, steps, r.folders@)
    &&& match r.stage {
        Stage::Originals { output_dir } => k >= 1 && output_asked(
            replies,
            steps,
            k - 1,
            f,
            full,
            output_dir,
        ),
        Stage::FindPreset { output_dir, originals_dir, preset_file } => {
            &&& k >= 2
            &&& output_asked(replies, steps, k - 2, f, full, output_dir)
            &&& originals_asked(replies, steps, k - 1, f, full, originals_dir)
            &&& Some(preset_file@) == preset_path(f, raw.settings.preset_dir, full)
        },
        Stage::ReadPreset { output_dir, originals_dir, preset_file } => {
            &&& k >= 3
            &&& output_asked(replies, steps, k - 3, f, full, output_dir)
            &&& originals_asked(replies, steps, k - 2, f, full, originals_dir)
            &&& Some(preset_file@) == preset_path(f, raw.settings.preset_dir, full)
            &&& steps[k - 1] is Ask
            &&& steps[k - 1]->request == (Request::FindPreset { path: preset_file })
            &&& replies[k - 1] == Reply::Found(true)
        },
        Stage::Warn { folder } => asked_for(raw, home, replies, steps, k - 4, f, folder),
        _ => true,
    }
}

/// A question was for a folder's output directory.
spec fn output_asked(
    replies: Seq<Reply>,
    steps: Seq<Step>,
    k: int,
    f: Folder,
    home: Option<Seq<u8>>,
    answer: FilePath,
) -> bool {
    &&& steps[k] is Ask
    &&& steps[k]->request matches Request::CreateDir { dir }
    &&& dir@ == expanded(f.output_dir@, home)
    &&& replies[k] == Reply::Created(Ok(answer))
}

/// A question was for a folder's directory of originals.
spec fn originals_asked(
    replies: Seq<Reply>,
    steps: Seq<Step>,
    k: int,
    f: Folder,
    home: Option<Seq<u8>>,
    answer: FilePath,
) -> bool {
    &&& steps[k] is Ask
    &&& steps[k]->request matches Request::CreateDir { dir }
    &&& dir@ == expanded(f.originals_dir@, home)
    &&& replies[k] == Reply::Created(Ok(answer))
}

/// A selected preset is the one that a folder asks for.
proof fn selected_is_asked_for(f: Folder, parsed: PresetFile, path: FilePath, info: PresetInfo)
    requires
        preset_selected(f, parsed, path, Ok(info)),
    ensures
        preset_of(f, parsed, info.name@),
{
    let wanted = match f.preset_name {
        Some(name) => Some(name@),
        None => None,
    };
    first_preset_comes_out(parsed.preset_list@, wanted, path, Ok(info));
}

/// What a preset file leads to, where it does not end the run: a folder that was asked for, which the
/// user is told of or which is taken in.
proof fn preset_read(
    raw: Config,
    home: Option<FilePath>,
    replies: Seq<Reply>,
    steps: Seq<Step>,
    k: int,
) -> (folder: ResolvedFolder)
    requires
        is_run(raw, home, replies, steps),
        0 <= k < replies.len(),
        steps[k]->resolver.stage is ReadPreset,
        replies[k] matches Reply::Preset(Ok(_)),
        !(steps[k + 1] is Failed),
        asked_so_far(raw, home, replies, steps, k),
    ensures
        asked_for(
            raw,
            home,
            replies,
            steps,
            k - 3,
            raw.folders@[steps[k]->resolver.folders@.len() as int],
            folder,
        ),
        (steps[k + 1] is Ask && steps[k + 1]->resolver.stage == (Stage::Warn { folder })
            && steps[k + 1]->resolver.folders@ == steps[k]->resolver.folders@)
            || next_folder(steps[k]->resolver, folder, steps[k + 1]),
{
    let before = steps[k]->resolver;
    run_invariant(raw, home, replies, steps, k);
    assert(answered(before, replies[k], steps[k + 1]));
    let parsed = replies[k]->Preset_0->Ok_0;
    let (output_dir, originals_dir, preset_file) = (
        before.stage->ReadPreset_output_dir,
        before.stage->ReadPreset_originals_dir,
        before.stage->ReadPreset_preset_file,
    );
    let result = choose|result: Result<PresetInfo, PresetError>|
        {
            &&& #[trigger] preset_selected(before.current(), parsed, preset_file, result)
            &&& match result {
                Ok(info) => preset_known(
                    before,
                    output_dir,
                    originals_dir,
                    preset_file,
                    info,
                    steps[k + 1],
                ),
                Err(e) => steps[k + 1] == Step::Failed(ConfigError::Preset(e)),
            }
        };
    let info = result->Ok_0;
    assert(preset_known(before, output_dir, originals_dir, preset_file, info, steps[k + 1]));
    let f = before.current();
    let folder = choose|folder: ResolvedFolder|
        {
            &&& #[trigger] folder_resolved(
                f,
                path_view(before.home),
                output_dir,
                originals_dir,
                preset_file,
                info,
                folder,
            )
            &&& if format_mismatch(f, info) {
                &&& goes_on(before, before.watch_dirs@, before.folders@, steps[k + 1])
                &&& steps[k + 1]->resolver.stage == (Stage::Warn { folder })
                &&& steps[k + 1]->request matches Request::Warn {
                    folder: name,
                    output_extension,
                    preset_format,
                }
                &&& name == f.name
                &&& output_extension == f.output_extension
                &&& Some(preset_format) == info.file_format
            } else {
                next_folder(before, folder, steps[k + 1])
            }
        };
    selected_is_asked_for(f, parsed, preset_file, info);
    assert forall|m: int| k - 3 <= m <= k implies #[trigger] steps[m] is Ask by {
        assert(m == k - 3 || m == k - 2 || m == k - 1 || m == k);
    }
    folder
}

/// What was asked so far, at every question of a run.
#[verifier::rlimit(40)]
proof fn asked_invariant(
    raw: Config,
    home: Option<FilePath>,
    replies: Seq<Reply>,
    steps: Seq<Step>,
    k: int,
)
    requires
        is_run(raw, home, replies, steps),
        0 <= k < steps.len(),
        steps[k] is Ask,
    ensures
        asked_so_far(raw, home, replies, steps, k),
    decreases k,
{
    run_invariant(raw, home, replies, steps, k);
    if k > 0 {
        let before = steps[k - 1]->resolver;
        let after = steps[k]->resolver;
        assert(answered(before, replies[k - 1], steps[k]));
        run_invariant(raw, home, replies, steps, k - 1);
        asked_invariant(raw, home, replies, steps, k - 1);
        match before.stage {
            Stage::ReadPreset { .. } => {
                let folder = preset_read(raw, home, replies, steps, k - 1);
                if !(after.stage is Warn) {
                    taken_in(raw, home, replies, steps, before, folder, after.folders@, k - 4);
                }
            },
            Stage::Warn { folder } => {
                taken_in(raw, home, replies, steps, before, folder, after.folders@, k - 5);
            },
            _ => {
                assert(after.folders@ == before.folders@);
            },
        }
    }
}

/// One more folder that was asked for.
proof fn taken_in(
    raw: Config,
    home: Option<FilePath>,
    replies: Seq<Reply>,
    steps: Seq<Step>,
    before: Resolver,
    folder: ResolvedFolder,
    folders: Seq<ResolvedFolder>,
    k: int,
)
    requires
        all_asked_for(raw, home, replies, steps, before.folders@),
        asked_for(
            raw,
            home,
            replies,
            steps,
            k,
            raw.folders@[before.folders@.len() as int],
            folder,
        ),
        folders == before.folders@.push(folder),
    ensures
        all_asked_for(raw, home, replies, steps, folders),
{
    assert forall|j: int| 0 <= j < folders.len() implies was_asked_for(
        raw,
        home,
        replies,
        steps,
        raw.folders@[j],
        #[trigger] folders[j],
    ) by {
        if j < before.folders@.len() {
            assert(folders[j] == before.folders@[j]);
        }
    }
}

/// Every folder of an accepted configuration writes to the directories that were created for what the
/// file says of that folder, and encodes with the preset that it asks for out of the file that was
/// found and read for it. The rest is as the file has it, but for what clamping brings into range, a
/// blank server, and a leading `~`.
pub proof fn accepted_as_answered(
    raw: Config,
    home: Option<FilePath>,
    replies: Seq<Reply>,
    steps: Seq<Step>,
)
    requires
        is_run(raw, home, replies, steps),
        steps.last() is Done,
    ensures
        ({
            let cfg = steps.last()->Done_0;
            &&& forall|j: int|
                0 <= j < cfg.folders@.len() ==> {
                    &&& (#[trigger] cfg.folders@[j]).name@ == raw.folders@[j].name@
                    &&& cfg.folders@[j].watch_dir@ == expanded(
                        raw.folders@[j].watch_dir@,
                        path_view(home),
                    )
                    &&& cfg.folders@[j].output_extension@ == raw.folders@[j].output_extension@
                }
            &&& all_asked_for(raw, home, replies, steps, cfg.folders@)
            &&& cfg.server == raw.server
            &&& cfg.state_file@ == expanded(raw.settings.state_file@, path_view(home))
            &&& cfg.settings == clamped(raw.settings)
            &&& cfg.notifications.enabled == raw.notifications.enabled
            &&& cfg.notifications.topic@ == raw.notifications.topic@
            &&& cfg.notifications.token == raw.notifications.token
        }),
{
    let k = replies.len() as int;
    assert(k > 0);
    let before = steps[k - 1]->resolver;
    let cfg = steps[k]->Done_0;
    assert(answered(before, replies[k - 1], steps[k]));
    accepted_layout(raw, home, replies, steps);
    run_invariant(raw, home, replies, steps, k - 1);
    asked_invariant(raw, home, replies, steps, k - 1);
    match before.stage {
        Stage::ReadPreset { .. } => {
            let folder = preset_read(raw, home, replies, steps, k - 1);
            taken_in(raw, home, replies, steps, before, folder, cfg.folders@, k - 4);
        },
        Stage::Warn { folder } => {
            taken_in(raw, home, replies, steps, before, folder, cfg.folders@, k - 5);
        },
        _ => {},
    }
    assert forall|j: int| 0 <= j < cfg.folders@.len() implies of_file(
        #[trigger] cfg.folders@[j],
        raw.folders@[j],
        path_view(home),
    ) by {}
}

/// The preset at `i` is the first of a file under the name that a folder gives, or the first of all
/// where it gives none.
pub open spec fn first_asked_for(f: Folder, presets: Seq<PresetNode>, i: int) -> bool {
    &&& 0 <= i < presets.len()
    &&& match f.preset_name {
        Some(wanted) => {
            &&& presets[i].preset_name matches Some(own)
            &&& own@ == wanted@
            &&& forall|j: int|
                0 <= j < i ==> ((#[trigger] presets[j]).preset_name matches Some(earlier)
                    ==> earlier@ != wanted@)
        },
        None => i == 0,
    }
}

/// The user is told of a folder whose extension stands nowhere in the format of its preset, and of no
/// other. The preset is no reason to refuse the configuration.
pub proof fn told_of_other_formats(before: Resolver, parsed: PresetFile, i: int, step: Step)
    requires
        before.wf(),
        before.stage is ReadPreset,
        first_asked_for(before.current(), leaves(parsed.preset_list@), i),
        answered(before, Reply::Preset(Ok(parsed)), step),
    ensures
        ({
            let f = before.current();
            let told = step is Ask && step->request is Warn;
            match leaves(parsed.preset_list@)[i].file_format {
                Some(format) => {
                    &&& told <==> !(exists|a: Seq<char>, b: Seq<char>|
                        format@ == #[trigger] (a + f.output_extension@ + b))
                    &&& told ==> step->request == (Request::Warn {
                        folder: f.name,
                        output_extension: f.output_extension,
                        preset_format: format,
                    })
                },
                None => !told,
            }
        }),
        step matches Step::Failed(e) ==> e is TopicRequired,
{
    let f = before.current();
    let presets = leaves(parsed.preset_list@);
    let preset_file = before.stage->ReadPreset_preset_file;
    let wanted = match f.preset_name {
        Some(name) => Some(name@),
        None => None,
    };
    assert forall|result: Result<PresetInfo, PresetError>| #[trigger]
        preset_selected(f, parsed, preset_file, result) implies result matches Ok(info)
        && info.file_format == presets[i].file_format by {
        first_preset_comes_out(parsed.preset_list@, wanted, preset_file, result);
        if let Some(name) = wanted {
            if result is Ok {
                let at = choose|at: int|
                    {
                        &&& 0 <= at < presets.len()
                        &&& (#[trigger] presets[at]).preset_name matches Some(own)
                        &&& own@ == name
                        &&& result->Ok_0.file_format == presets[at].file_format
                        &&& forall|j: int|
                            0 <= j < at ==> ((
                            #[trigger] presets[j]).preset_name matches Some(earlier)
                                ==> earlier@ != name)
                    };
                assert(!(at < i) && !(i < at));
            }
        }
    }
    if let Some(format) = presets[i].file_format {
        contained_between(format@, f.output_extension@);
    }
}

/// A preset file without the preset that a folder asks for ends the run: the error names the file and
/// the preset.
pub proof fn missing_presets_end_the_run(before: Resolver, parsed: PresetFile, step: Step)
    requires
        before.wf(),
        before.stage is ReadPreset,
        answered(before, Reply::Preset(Ok(parsed)), step),
        forall|i: int| !#[trigger] first_asked_for(
            before.current(),
            leaves(parsed.preset_list@),
            i,
        ),
    ensures
        ({
            let preset_file = before.stage->ReadPreset_preset_file;
            &&& step matches Step::Failed(ConfigError::Preset(e))
            &&& match before.current().preset_name {
                Some(wanted) => e matches PresetError::NotFound { name, path } && name@ == wanted@
                    && path == preset_file,
                None => e matches PresetError::Empty { path } && path == preset_file,
            }
        }),
{
    let f = before.current();
    let presets = leaves(parsed.preset_list@);
    let preset_file = before.stage->ReadPreset_preset_file;
    let wanted = match f.preset_name {
        Some(name) => Some(name@),
        None => None,
    };
    assert forall|result: Result<PresetInfo, PresetError>| #[trigger]
        preset_selected(f, parsed, preset_file, result) implies result matches Err(e) && match wanted {
        Some(wanted) => e matches PresetError::NotFound { name, path } && name@ == wanted && path
            == preset_file,
        None => e matches PresetError::Empty { path } && path == preset_file,
    } by {
        first_preset_comes_out(parsed.preset_list@, wanted, preset_file, result);
        assert(!first_asked_for(f, presets, 0));
        if let Some(name) = wanted {
            if result is Ok {
                let at = choose|at: int|
                    {
                        &&& 0 <= at < presets.len()
                        &&& (#[trigger] presets[at]).preset_name matches Some(own)
                        &&& own@ == name
                        &&& forall|j: int|
                            0 <= j < at ==> ((
                            #[trigger] presets[j]).preset_name matches Some(earlier)
                                ==> earlier@ != name)
                    };
                assert(first_asked_for(f, presets, at));
            }
        }
    }
}

/// A configuration without folders is refused at once. Any other starts with the question for the
/// folder that it is to watch first.
pub proof fn starts_with_the_first_folder(raw: Config, home: Option<FilePath>, step: Step)
    requires
        started(raw, home, step),
    ensures
        raw.folders@.len() == 0 ==> (step matches Step::Failed(e) && e is NoFolders),
        raw.folders@.len() > 0 ==> {
            &&& step matches Step::Ask { request, .. }
            &&& request matches Request::WatchDir { dir }
            &&& dir@ == expanded(raw.folders@[0].watch_dir@, path_view(home))
        },
{
}


} // verus!
