//! The configuration: its settings, their defaults, and the rules that it has to meet.

use vstd::prelude::*;
use vstd::string::*;
use vstd::utf8::*;

use crate::path::{
    components, inside, inside_goes_on, join_adds_component, joined, shown, text_is_plain, FilePath,
};
use crate::preset::{PresetError, PresetInfo};
use crate::text::{
    blank, contained_between, contains, contains_text, contains_what_was_put_in, is_blank, same_text,
    strip_prefix, texts,
};

verus! {

/// Watch backend. `Poll` is required for network shares (NAS).
#[derive(Debug, Clone, Copy, PartialEq, Eq, Structural)]
pub enum WatchMode {
    Poll,
    Native,
}

/// The settings that hold for all folders.
#[derive(Debug, Clone)]
pub struct Settings {
    pub handbrake_cli: String,
    pub extensions: Vec<String>,
    pub watch_mode: WatchMode,
    pub poll_interval_secs: u64,
    pub rescan_interval_secs: u64,
    pub debounce_secs: u64,
    pub stabilize_interval_secs: u64,
    pub stabilize_checks: u32,
    pub workers: u32,
    pub max_attempts: u32,
    pub retry_delay_secs: u64,
    pub min_output_bytes: u64,
    pub encode_timeout_secs: u64,
    pub log_level: String,
    pub state_file: String,
    pub preset_dir: Option<String>,
}

/// Push notifications: where they go, and on which of the three occasions.
#[derive(Debug, Clone)]
pub struct Notifications {
    pub enabled: bool,
    pub server: String,
    pub topic: String,
    pub token: Option<String>,
    pub on_failure: bool,
    pub on_item_complete: bool,
    pub on_queue_drain: bool,
}

/// The embedded status server.
#[derive(Debug, Clone)]
pub struct Server {
    pub enabled: bool,
    pub bind: String,
    pub port: u16,
    pub token: Option<String>,
}

/// A watched folder as the configuration file gives it.
#[derive(Debug, Clone)]
pub struct Folder {
    pub name: String,
    pub watch_dir: String,
    pub preset_file: Option<String>,
    pub preset_name: Option<String>,
    pub output_dir: String,
    pub originals_dir: String,
    pub output_extension: String,
}

/// The configuration file.
#[derive(Debug, Clone)]
pub struct Config {
    pub settings: Settings,
    pub notifications: Notifications,
    pub server: Server,
    pub folders: Vec<Folder>,
}

/// A folder with all paths expanded and its preset resolved.
#[derive(Debug, Clone)]
pub struct ResolvedFolder {
    pub name: String,
    pub watch_dir: FilePath,
    pub output_dir: FilePath,
    pub originals_dir: FilePath,
    pub output_extension: String,
    pub preset_file: FilePath,
    pub preset_name: String,
}

/// A configuration that the daemon can run with.
#[derive(Debug, Clone)]
pub struct ResolvedConfig {
    pub settings: Settings,
    pub notifications: Notifications,
    pub server: Server,
    pub folders: Vec<ResolvedFolder>,
    pub state_file: FilePath,
}

/// Why a configuration is refused.
#[derive(Debug)]
pub enum ConfigError {
    /// There is no folder to watch.
    NoFolders,
    /// A watched folder is not there.
    WatchDirMissing { dir: FilePath },
    /// A directory could not be created.
    DirNotCreated { dir: FilePath, cause: String },
    /// A directory that is written to stands in a watched one.
    Nested { label: String, dir: FilePath, watch_dir: FilePath },
    /// Nothing says which preset a folder uses.
    NoPreset { folder: String },
    /// The preset file is not there.
    PresetMissing { path: FilePath },
    /// The preset file could not be read.
    PresetUnreadable { path: FilePath, cause: String },
    /// The preset file is not a preset export.
    PresetUnparsable { path: FilePath, cause: String },
    /// The preset file does not hold the preset.
    Preset(PresetError),
    /// Notifications are on, and no topic is set.
    TopicRequired,
}

impl ConfigError {
    /// What the error says.
    pub open spec fn text(self) -> Seq<char> {
        match self {
            ConfigError::NoFolders => "config has no [[folder]] entries"@,
            ConfigError::WatchDirMissing { dir } => "watch_dir does not exist: "@ + shown(dir@),
            ConfigError::DirNotCreated { dir, cause } => "failed to create directory: "@ + shown(
                dir@,
            ),
            ConfigError::Nested { label, dir, watch_dir } => label@ + " "@ + shown(dir@)
                + " must not be inside watch_dir "@ + shown(watch_dir@),
            ConfigError::NoPreset { folder } => "folder '"@ + folder@
                + "' has no preset_file and no preset_dir is set"@,
            ConfigError::PresetMissing { path } => "preset file not found: "@ + shown(path@),
            ConfigError::PresetUnreadable { path, cause } => "failed to read preset file: "@
                + shown(path@),
            ConfigError::PresetUnparsable { path, cause } => "failed to parse preset JSON: "@
                + shown(path@),
            ConfigError::Preset(error) => error.text(),
            ConfigError::TopicRequired => "notifications.enabled requires a topic"@,
        }
    }

    /// What the error says.
    pub fn message(&self) -> (message: String)
        ensures
            message@ == self.text(),
    {
        match self {
            ConfigError::NoFolders => "config has no [[folder]] entries".to_owned(),
            ConfigError::WatchDirMissing { dir } => about("watch_dir does not exist: ", dir),
            ConfigError::DirNotCreated { dir, cause: _ } => about(
                "failed to create directory: ",
                dir,
            ),
            ConfigError::Nested { label, dir, watch_dir } => {
                let mut out: String = label.clone();
                out.append(" ");
                out.append(dir.display().as_str());
                out.append(" must not be inside watch_dir ");
                out.append(watch_dir.display().as_str());
                out
            },
            ConfigError::NoPreset { folder } => {
                let mut out: String = "folder '".to_owned();
                out.append(folder.as_str());
                out.append("' has no preset_file and no preset_dir is set");
                out
            },
            ConfigError::PresetMissing { path } => about("preset file not found: ", path),
            ConfigError::PresetUnreadable { path, cause: _ } => about(
                "failed to read preset file: ",
                path,
            ),
            ConfigError::PresetUnparsable { path, cause: _ } => about(
                "failed to parse preset JSON: ",
                path,
            ),
            ConfigError::Preset(error) => error.message(),
            ConfigError::TopicRequired => "notifications.enabled requires a topic".to_owned(),
        }
    }
}

/// A text with a path behind it.
fn about(what: &str, path: &FilePath) -> (text: String)
    ensures
        text@ == what@ + shown(path@),
{
    let mut out: String = what.to_owned();
    out.append(path.display().as_str());
    out
}

impl Default for Notifications {
    fn default() -> (n: Self)
        ensures
            !n.enabled,
            n.server@ == "https://ntfy.sh"@,
            n.topic@ == Seq::<char>::empty(),
            n.token is None,
            !n.on_failure,
            !n.on_item_complete,
            !n.on_queue_drain,
    {
        Notifications {
            enabled: false,
            server: default_server(),
            topic: String::new(),
            token: None,
            on_failure: false,
            on_item_complete: false,
            on_queue_drain: false,
        }
    }
}

impl Default for Server {
    fn default() -> (s: Self)
        ensures
            !s.enabled,
            s.bind@ == "127.0.0.1"@,
            s.port == 9000,
            s.token is None,
    {
        Server { enabled: false, bind: default_bind(), port: default_port(), token: None }
    }
}

/// The encoder's program name.
pub fn default_handbrake() -> (program: String)
    ensures
        program@ == "HandBrakeCLI"@,
{
    "HandBrakeCLI".to_owned()
}

/// The extensions of media files.
pub open spec fn media_extensions() -> Seq<Seq<char>> {
    seq!["mkv"@, "mp4"@, "mov"@, "avi"@, "m4v"@, "ts"@, "wmv"@, "flv"@]
}

/// The extensions of the files that are picked up.
pub fn default_extensions() -> (extensions: Vec<String>)
    ensures
        texts(extensions@) == media_extensions(),
{
    let extensions: Vec<String> = vec![
        "mkv".to_owned(),
        "mp4".to_owned(),
        "mov".to_owned(),
        "avi".to_owned(),
        "m4v".to_owned(),
        "ts".to_owned(),
        "wmv".to_owned(),
        "flv".to_owned(),
    ];
    assert(texts(extensions@) =~= media_extensions());
    extensions
}

/// The watch backend: polling, which works on network shares too.
pub fn default_watch_mode() -> (mode: WatchMode)
    ensures
        mode == WatchMode::Poll,
{
    WatchMode::Poll
}

/// Seconds between two polls of a folder.
pub fn default_poll() -> (secs: u64)
    ensures
        secs == 30,
{
    30
}

/// Seconds to wait after an event on a file.
pub fn default_debounce() -> (secs: u64)
    ensures
        secs == 3,
{
    3
}

/// Seconds between two looks at a file's size.
pub fn default_stab_interval() -> (secs: u64)
    ensures
        secs == 2,
{
    2
}

/// How often a file's size has to stay the same.
pub fn default_stab_checks() -> (checks: u32)
    ensures
        checks == 2,
{
    2
}

/// How many encodes run at a time.
pub fn default_workers() -> (workers: u32)
    ensures
        workers == 1,
{
    1
}

/// Seconds between two scans of the watched folders.
pub fn default_rescan() -> (secs: u64)
    ensures
        secs == 300,
{
    300
}

/// How often an encode is tried.
pub fn default_max_attempts() -> (attempts: u32)
    ensures
        attempts == 3,
{
    3
}

/// Seconds between two tries of an encode.
pub fn default_retry_delay() -> (secs: u64)
    ensures
        secs == 60,
{
    60
}

/// The address that the status server listens on: this machine alone can reach it.
pub fn default_bind() -> (bind: String)
    ensures
        bind@ == "127.0.0.1"@,
{
    "127.0.0.1".to_owned()
}

/// The port that the status server listens on.
pub fn default_port() -> (port: u16)
    ensures
        port == 9000,
{
    9000
}

/// The size under which an encoded file counts as broken.
pub fn default_min_output() -> (bytes: u64)
    ensures
        bytes == 1_000_000,
{
    1_000_000
}

/// How much is logged.
pub fn default_log_level() -> (level: String)
    ensures
        level@ == "info"@,
{
    "info".to_owned()
}

/// Where the queue is kept.
pub fn default_state_file() -> (path: String)
    ensures
        path@ == "~/.config/hbwatch/queue-state.json"@,
{
    "~/.config/hbwatch/queue-state.json".to_owned()
}

/// The notification service.
pub fn default_server() -> (server: String)
    ensures
        server@ == "https://ntfy.sh"@,
{
    "https://ntfy.sh".to_owned()
}

/// The bytes of an optional path.
pub open spec fn path_view(path: Option<FilePath>) -> Option<Seq<u8>> {
    match path {
        Some(p) => Some(p@),
        None => None,
    }
}

/// A path whose first component is `~` taken from the home directory, where that is known: `~` alone
/// is the home directory itself.
pub open spec fn expanded(path: Seq<char>, home: Option<Seq<u8>>) -> Seq<u8> {
    match home {
        Some(h) => if path == "~"@ {
            h
        } else if "~/"@.is_prefix_of(path) {
            joined(h, encode_utf8(path.skip("~/"@.len() as int)))
        } else {
            encode_utf8(path)
        },
        None => encode_utf8(path),
    }
}

/// Expands a leading `~` to the user's home directory.
pub fn expand(path: &str, home: &Option<FilePath>) -> (full: FilePath)
    ensures
        full@ == expanded(path@, path_view(*home)),
{
    if let Some(dir) = home {
        if same_text(path, "~") {
            return dir.clone();
        }
        if let Some(rest) = strip_prefix(path, "~/") {
            return dir.join_text(rest);
        }
    }
    FilePath::from_text(path)
}

/// A directory stands in none of the watched ones.
pub open spec fn outside_all(dir: Seq<u8>, watch_dirs: Seq<FilePath>) -> bool {
    forall|i: int| 0 <= i < watch_dirs.len() ==> !inside(dir, #[trigger] watch_dirs[i]@)
}

/// `result` is the check that a directory stands in none of the watched ones: the first one that
/// it stands in is named.
pub open spec fn outside_checked(
    dir: FilePath,
    watch_dirs: Seq<FilePath>,
    label: Seq<char>,
    result: Result<(), ConfigError>,
) -> bool {
    match result {
        Ok(()) => outside_all(dir@, watch_dirs),
        Err(ConfigError::Nested { label: l, dir: d, watch_dir: w }) => {
            &&& l@ == label
            &&& d == dir
            &&& exists|i: int|
                {
                    &&& 0 <= i < watch_dirs.len()
                    &&& w == #[trigger] watch_dirs[i]
                    &&& inside(dir@, w@)
                    &&& outside_all(dir@, watch_dirs.take(i))
                }
        },
        Err(_) => false,
    }
}

/// Refuses a directory that stands in a watched one.
pub fn assert_outside(dir: &FilePath, watch_dirs: &Vec<FilePath>, label: &str) -> (result: Result<
    (),
    ConfigError,
>)
    ensures
        outside_checked(*dir, watch_dirs@, label@, result),
{
    let len: usize = watch_dirs.len();
    for i in 0..len
        invariant
            len == watch_dirs@.len(),
            outside_all(dir@, watch_dirs@.take(i as int)),
    {
        let watch_dir: &FilePath = &watch_dirs[i];
        if dir.starts_with(watch_dir) {
            return Err(
                ConfigError::Nested {
                    label: label.to_owned(),
                    dir: dir.clone(),
                    watch_dir: watch_dir.clone(),
                },
            );
        }
        assert(outside_all(dir@, watch_dirs@.take(i + 1))) by {
            assert forall|j: int| 0 <= j < i + 1 implies !inside(
                dir@,
                #[trigger] watch_dirs@.take(i + 1)[j]@,
            ) by {
                if j < i {
                    assert(watch_dirs@.take(i as int)[j] == watch_dirs@[j]);
                }
            }
        }
    }
    assert(watch_dirs@.take(len as int) =~= watch_dirs@);
    Ok(())
}

/// Where a folder's preset file is: as the folder says, else under the folder's name in the
/// preset directory.
pub open spec fn preset_path(f: Folder, preset_dir: Option<String>, home: Option<Seq<u8>>) -> Option<
    Seq<u8>,
> {
    match (f.preset_file, preset_dir) {
        (Some(file), _) => Some(expanded(file@, home)),
        (None, Some(dir)) => Some(
            joined(expanded(dir@, home), encode_utf8(f.name@ + ".json"@)),
        ),
        (None, None) => None,
    }
}

/// Where a folder's preset file is.
pub fn resolve_preset_file(f: &Folder, settings: &Settings, home: &Option<FilePath>) -> (result:
    Result<FilePath, ConfigError>)
    ensures
        match preset_path(*f, settings.preset_dir, path_view(*home)) {
            Some(path) => result matches Ok(p) && p@ == path,
            None => result matches Err(ConfigError::NoPreset { folder }) && folder@ == f.name@,
        },
{
    match (&f.preset_file, &settings.preset_dir) {
        (Some(file), _) => Ok(expand(file.as_str(), home)),
        (None, Some(dir)) => {
            let mut name: String = f.name.clone();
            name.append(".json");
            Ok(expand(dir.as_str(), home).join_text(name.as_str()))
        },
        (None, None) => Err(ConfigError::NoPreset { folder: f.name.clone() }),
    }
}

/// The preset names a format, and the output extension is not in it.
pub open spec fn format_mismatch(f: Folder, info: PresetInfo) -> bool {
    info.file_format matches Some(format) && !contains(format@, f.output_extension@)
}

/// Whether a folder's output extension does not match its preset's format.
pub fn warn_on_format_mismatch(f: &Folder, info: &PresetInfo) -> (warn: bool)
    ensures
        warn == format_mismatch(*f, *info),
{
    match &info.file_format {
        Some(format) => !contains_text(format.as_str(), f.output_extension.as_str()),
        None => false,
    }
}

/// `result` is the check of the notification settings: an empty server stands for the default
/// one, and a topic is required where notifications are on.
pub open spec fn notifications_checked(
    n: Notifications,
    result: Result<Notifications, ConfigError>,
) -> bool {
    if n.enabled && blank(n.topic@) {
        result == Err::<Notifications, ConfigError>(ConfigError::TopicRequired)
    } else {
        &&& result matches Ok(m)
        &&& m == (Notifications { server: m.server, ..n })
        &&& m.server@ == if blank(n.server@) {
            "https://ntfy.sh"@
        } else {
            n.server@
        }
    }
}

/// Checks the notification settings.
pub fn resolve_notifications(n: Notifications) -> (result: Result<Notifications, ConfigError>)
    ensures
        notifications_checked(n, result),
{
    let mut n: Notifications = n;
    if is_blank(n.server.as_str()) {
        n.server = default_server();
    }
    if n.enabled && is_blank(n.topic.as_str()) {
        return Err(ConfigError::TopicRequired);
    }
    Ok(n)
}

/// Settings with the number of workers and of size checks in range.
pub open spec fn clamped(s: Settings) -> Settings {
    Settings {
        workers: if s.workers < 1 {
            1
        } else if s.workers > 5 {
            5
        } else {
            s.workers
        },
        stabilize_checks: if s.stabilize_checks < 1 {
            1
        } else {
            s.stabilize_checks
        },
        ..s
    }
}

/// Brings the number of workers and of size checks into range.
pub fn clamp_settings(s: Settings) -> (r: Settings)
    ensures
        r == clamped(s),
{
    let mut s: Settings = s;
    if s.workers < 1 {
        s.workers = 1;
    } else if s.workers > 5 {
        s.workers = 5;
    }
    if s.stabilize_checks < 1 {
        s.stabilize_checks = 1;
    }
    s
}

/// A path under `~/` is taken from the home directory, `~` alone is that directory, and any other
/// path stays as it is, as every path does where no home directory is known.
pub proof fn home_comes_in(rest: Seq<char>, path: Seq<char>, home: Seq<u8>)
    ensures
        expanded("~/"@ + rest, Some(home)) == joined(home, encode_utf8(rest)),
        expanded("~"@, Some(home)) == home,
        path != "~"@ && !(exists|tail: Seq<char>| path == #[trigger] ("~/"@ + tail)) ==> expanded(
            path,
            Some(home),
        ) == encode_utf8(path),
        expanded(path, None) == encode_utf8(path),
{
    reveal_strlit("~");
    reveal_strlit("~/");
    let whole = "~/"@ + rest;
    assert("~/"@ =~= whole.subrange(0, "~/"@.len() as int));
    assert(whole.skip("~/"@.len() as int) =~= rest);
    assert(whole != "~"@) by {
        assert(whole.len() >= 2);
    }
    if "~/"@.is_prefix_of(path) {
        assert(path =~= "~/"@ + path.skip("~/"@.len() as int));
    }
}

/// A directory is refused exactly where it stands in one of the watched ones, at whatever depth: where
/// the components of one of these are the first of its own. The error names the directory, what it is
/// for, and the first watched folder that it stands in.
pub proof fn refused_where_inside(
    dir: FilePath,
    watch_dirs: Seq<FilePath>,
    label: Seq<char>,
    result: Result<(), ConfigError>,
)
    requires
        outside_checked(dir, watch_dirs, label, result),
    ensures
        result is Err <==> exists|i: int|
            0 <= i < watch_dirs.len() && components((#[trigger] watch_dirs[i])@).is_prefix_of(
                components(dir@),
            ),
        result matches Err(e) ==> {
            &&& e matches ConfigError::Nested { label: l, dir: d, watch_dir: w }
            &&& l@ == label
            &&& d@ == dir@
            &&& exists|i: int|
                {
                    &&& 0 <= i < watch_dirs.len()
                    &&& w == #[trigger] watch_dirs[i]
                    &&& components(w@).is_prefix_of(components(dir@))
                    &&& forall|j: int|
                        0 <= j < i ==> !components((#[trigger] watch_dirs[j])@).is_prefix_of(
                            components(dir@),
                        )
                }
        },
{
    assert forall|i: int| 0 <= i < watch_dirs.len() implies inside(
        dir@,
        (#[trigger] watch_dirs[i])@,
    ) == components(watch_dirs[i]@).is_prefix_of(components(dir@)) by {
        prefix_is_inside(dir@, watch_dirs[i]@);
    }
    if let Err(ConfigError::Nested { label: l, dir: d, watch_dir: w }) = result {
        let i = choose|i: int|
            {
                &&& 0 <= i < watch_dirs.len()
                &&& w == #[trigger] watch_dirs[i]
                &&& inside(dir@, w@)
                &&& outside_all(dir@, watch_dirs.take(i))
            };
        assert(watch_dirs[i] == w);
        assert forall|j: int| 0 <= j < i implies !components(
            (#[trigger] watch_dirs[j])@,
        ).is_prefix_of(components(dir@)) by {
            assert(watch_dirs.take(i)[j] == watch_dirs[j]);
            assert(!inside(dir@, watch_dirs.take(i)[j]@));
        }
    }
}

/// A directory right in a watched one, or deeper, is refused, and so is the watched one itself.
pub proof fn refused_at_every_depth(
    dir: FilePath,
    watch_dirs: Seq<FilePath>,
    i: int,
    tail: Seq<Seq<u8>>,
    label: Seq<char>,
    result: Result<(), ConfigError>,
)
    requires
        outside_checked(dir, watch_dirs, label, result),
        0 <= i < watch_dirs.len(),
        components(dir@) == components(watch_dirs[i]@) + tail,
    ensures
        result is Err,
{
    refused_where_inside(dir, watch_dirs, label, result);
    let (own, outer) = (components(dir@), components(watch_dirs[i]@));
    assert(outer =~= own.subrange(0, outer.len() as int));
    assert(components(watch_dirs[i]@).is_prefix_of(own));
}

/// Standing in a path, by its components.
proof fn prefix_is_inside(p: Seq<u8>, base: Seq<u8>)
    ensures
        inside(p, base) == components(base).is_prefix_of(components(p)),
{
    inside_goes_on(p, base);
    let (own, outer) = (components(p), components(base));
    if outer.is_prefix_of(own) {
        assert(own.take(outer.len() as int) =~= outer);
    }
    if inside(p, base) {
        assert(outer =~= own.subrange(0, outer.len() as int));
    }
}

/// A folder's own preset file is used where it names one, whatever the preset directory; else the
/// file under its name in that directory, right in it where the name is plain.
pub proof fn preset_by_name(f: Folder, preset_dir: Option<String>, home: Option<Seq<u8>>)
    ensures
        f.preset_file matches Some(file) ==> preset_path(f, preset_dir, home) == Some(
            expanded(file@, home),
        ),
        f.preset_file is None && preset_dir is None ==> preset_path(f, preset_dir, home) is None,
        f.preset_file is None && preset_dir is Some && !f.name@.contains('/') ==> {
            &&& preset_path(f, preset_dir, home) matches Some(path)
            &&& components(path) == components(expanded(preset_dir->0@, home)).push(
                encode_utf8(f.name@ + ".json"@),
            )
        },
{
    if f.preset_file is None && preset_dir is Some && !f.name@.contains('/') {
        reveal_strlit(".json");
        let text = f.name@ + ".json"@;
        assert forall|i: int| 0 <= i < text.len() implies text[i] != '/' by {
            if i < f.name@.len() {
                assert(text[i] == f.name@[i]);
            }
        }
        text_is_plain(text);
        join_adds_component(expanded(preset_dir->0@, home), encode_utf8(text));
    }
}

/// A format is a match where the output extension stands somewhere in it, or none is given.
pub proof fn format_matches_anywhere(f: Folder, info: PresetInfo)
    ensures
        info.file_format is None ==> !format_mismatch(f, info),
        info.file_format matches Some(format) ==> (format_mismatch(f, info) <==> !(exists|
            a: Seq<char>,
            b: Seq<char>,
        | format@ == #[trigger] (a + f.output_extension@ + b))),
{
    if let Some(format) = info.file_format {
        contained_between(format@, f.output_extension@);
    }
}

/// Notification settings are refused exactly where they are on without a topic. Accepted ones keep
/// everything but a blank server, in whose place the default one comes.
pub proof fn topic_where_enabled(n: Notifications, result: Result<Notifications, ConfigError>)
    requires
        notifications_checked(n, result),
    ensures
        result is Err <==> n.enabled && blank(n.topic@),
        result matches Err(e) ==> e is TopicRequired,
        result matches Ok(m) ==> {
            &&& m.enabled == n.enabled
            &&& m.topic@ == n.topic@
            &&& m.token == n.token
            &&& m.on_failure == n.on_failure
            &&& m.on_item_complete == n.on_item_complete
            &&& m.on_queue_drain == n.on_queue_drain
            &&& !blank(n.server@) ==> m.server@ == n.server@
            &&& blank(n.server@) ==> m.server@ == "https://ntfy.sh"@
        },
{
}

/// Clamping brings the workers between one and five and the size checks to one at the least, leaves
/// what is in range as it is, moves what is not to the nearest bound, and changes nothing else.
pub proof fn clamping_stays_near(s: Settings)
    ensures
        1 <= clamped(s).workers <= 5,
        1 <= s.workers <= 5 ==> clamped(s).workers == s.workers,
        s.workers > 5 ==> clamped(s).workers == 5,
        s.workers < 1 ==> clamped(s).workers == 1,
        clamped(s).stabilize_checks >= 1,
        s.stabilize_checks >= 1 ==> clamped(s).stabilize_checks == s.stabilize_checks,
        s.stabilize_checks == 0 ==> clamped(s).stabilize_checks == 1,
        clamped(clamped(s)) == clamped(s),
        s == (Settings {
            workers: s.workers,
            stabilize_checks: s.stabilize_checks,
            ..clamped(s)
        }),
{
}

/// What an error says names what is wrong: the path, the folder or the directories that it is about.
pub proof fn errors_name_their_cause(e: ConfigError)
    ensures
        e matches ConfigError::WatchDirMissing { dir } ==> e.text() == "watch_dir does not exist: "@
            + shown(dir@),
        e matches ConfigError::Nested { label, dir, watch_dir } ==> contains(e.text(), label@)
            && contains(e.text(), shown(dir@)) && contains(e.text(), shown(watch_dir@)),
        e matches ConfigError::DirNotCreated { dir, .. } ==> e.text()
            == "failed to create directory: "@ + shown(dir@),
        e matches ConfigError::NoPreset { folder } ==> contains(e.text(), folder@)
            && "' has no preset_file and no preset_dir is set"@.is_suffix_of(e.text()),
        e matches ConfigError::PresetMissing { path } ==> e.text() == "preset file not found: "@
            + shown(path@),
        e matches ConfigError::PresetUnreadable { path, .. } ==> e.text()
            == "failed to read preset file: "@ + shown(path@),
        e matches ConfigError::PresetUnparsable { path, .. } ==> e.text()
            == "failed to parse preset JSON: "@ + shown(path@),
        e is NoFolders ==> e.text() == "config has no [[folder]] entries"@,
        e is TopicRequired ==> e.text() == "notifications.enabled requires a topic"@,
        e matches ConfigError::Preset(inner) ==> e.text() == inner.text(),
{
    let none = Seq::<char>::empty();
    match e {
        ConfigError::Nested { label, dir, watch_dir } => {
            let text = e.text();
            let (d, w) = (shown(dir@), shown(watch_dir@));
            let middle = " must not be inside watch_dir "@;
            contains_what_was_put_in(none, label@, " "@ + d + middle + w);
            assert(none + label@ + (" "@ + d + middle + w) =~= text);
            contains_what_was_put_in(label@ + " "@, d, middle + w);
            assert(label@ + " "@ + d + (middle + w) =~= text);
            contains_what_was_put_in(label@ + " "@ + d + middle, w, none);
            assert(label@ + " "@ + d + middle + w + none =~= text);
        },
        ConfigError::NoPreset { folder } => {
            let end = "' has no preset_file and no preset_dir is set"@;
            contains_what_was_put_in("folder '"@, folder@, end);
            let text = e.text();
            assert(end =~= text.subrange(text.len() - end.len(), text.len() as int));
        },
        _ => {},
    }
}

} // verus!
