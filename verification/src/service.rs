//! The background service: launchd on macOS, systemd on Linux.

use vstd::prelude::*;
use vstd::string::*;
use vstd::utf8::*;

use crate::path::{joined, joined_holds_both, parent_of, shown, FilePath};
use crate::text::{contains, contains_what_was_put_in, texts};

verus! {

/// The kind of system that the service is for.
#[derive(Debug, Clone, Copy, PartialEq, Eq, Structural)]
pub enum Platform {
    MacOs,
    Linux,
    Other,
}

/// Why there is no service to install or remove.
#[derive(Debug, Clone, Copy, PartialEq, Eq, Structural)]
pub enum ServiceError {
    InstallUnsupported,
    UninstallUnsupported,
    NoHome,
}

impl ServiceError {
    /// What the error says.
    pub open spec fn text(self) -> Seq<char> {
        match self {
            ServiceError::InstallUnsupported => "install is only supported on macOS and Linux"@,
            ServiceError::UninstallUnsupported => "uninstall is only supported on macOS and Linux"@,
            ServiceError::NoHome => "HOME is not set"@,
        }
    }

    /// What the error says.
    pub fn message(&self) -> (message: String)
        ensures
            message@ == self.text(),
    {
        match self {
            ServiceError::InstallUnsupported => "install is only supported on macOS and Linux".to_owned(),
            ServiceError::UninstallUnsupported => "uninstall is only supported on macOS and Linux".to_owned(),
            ServiceError::NoHome => "HOME is not set".to_owned(),
        }
    }
}

/// A service unit to write, and what to tell the user then.
#[derive(Debug)]
pub struct Unit {
    pub path: FilePath,
    pub contents: String,
    pub messages: Vec<String>,
}

/// A service unit to remove, and what to tell the user then.
#[derive(Debug)]
pub struct Removal {
    pub path: FilePath,
    pub hint: String,
}

pub const LAUNCHD_HEAD: &'static str = "<?xml version=\"1.0\" encoding=\"UTF-8\"?>
<!DOCTYPE plist PUBLIC \"-//Apple//DTD PLIST 1.0//EN\" \"http://www.apple.com/DTDs/PropertyList-1.0.dtd\">
<plist version=\"1.0\">
<dict>
    <key>Label</key><string>com.user.hbwatch</string>
    <key>ProgramArguments</key>
    <array>
        <string>";

pub const LAUNCHD_CONFIG: &'static str = "</string>
        <string>run</string>
        <string>--config</string>
        <string>";

pub const LAUNCHD_LOG: &'static str = "</string>
    </array>
    <key>RunAtLoad</key><true/>
    <key>KeepAlive</key><true/>
    <key>StandardOutPath</key><string>";

pub const LAUNCHD_ERROR_LOG: &'static str = "/hbwatch.log</string>
    <key>StandardErrorPath</key><string>";

pub const LAUNCHD_TAIL: &'static str = "/hbwatch.err.log</string>
</dict>
</plist>
";

pub const SYSTEMD_HEAD: &'static str = "[Unit]
Description=hbwatch HandBrake auto-transcode watcher
After=network-online.target remote-fs.target
Wants=network-online.target

[Service]
ExecStart=";

pub const SYSTEMD_TAIL: &'static str = "
Restart=always
RestartSec=10

[Install]
WantedBy=default.target
";

pub const LAUNCHD_UNLOAD: &'static str = "Unload it with:\n  launchctl unload ~/Library/LaunchAgents/com.user.hbwatch.plist";

pub const SYSTEMD_DISABLE: &'static str = "Disable it with:\n  systemctl --user disable --now hbwatch.service";

/// Where the service unit of a system stands under a home directory.
pub open spec fn unit_path(platform: Platform, home: Seq<u8>) -> Seq<u8> {
    if platform == Platform::MacOs {
        joined(home, encode_utf8("Library/LaunchAgents/com.user.hbwatch.plist"@))
    } else {
        joined(home, encode_utf8(".config/systemd/user/hbwatch.service"@))
    }
}

/// Where the launchd agent stands.
pub fn launchd_path(home: &FilePath) -> (path: FilePath)
    ensures
        path@ == unit_path(Platform::MacOs, home@),
{
    home.join_text("Library/LaunchAgents/com.user.hbwatch.plist")
}

/// Where the systemd user unit stands.
pub fn systemd_path(home: &FilePath) -> (path: FilePath)
    ensures
        path@ == unit_path(Platform::Linux, home@),
{
    home.join_text(".config/systemd/user/hbwatch.service")
}

/// The directory of the configuration file, which the logs go to.
pub open spec fn log_dir(config: Seq<u8>) -> Seq<u8> {
    match parent_of(config) {
        Some(parent) => parent,
        None => encode_utf8("."@),
    }
}

/// The directory of the configuration file.
pub fn config_dir(config: &FilePath) -> (dir: FilePath)
    ensures
        dir@ == log_dir(config@),
{
    match config.parent() {
        Some(parent) => parent,
        None => FilePath::from_text("."),
    }
}

/// The launchd agent.
pub open spec fn launchd_unit(bin: Seq<u8>, config: Seq<u8>) -> Seq<char> {
    LAUNCHD_HEAD@ + shown(bin) + LAUNCHD_CONFIG@ + shown(config) + LAUNCHD_LOG@ + shown(
        log_dir(config),
    ) + LAUNCHD_ERROR_LOG@ + shown(log_dir(config)) + LAUNCHD_TAIL@
}

/// The systemd user unit.
pub open spec fn systemd_unit(bin: Seq<u8>, config: Seq<u8>) -> Seq<char> {
    SYSTEMD_HEAD@ + shown(bin) + " run --config "@ + shown(config) + SYSTEMD_TAIL@
}

/// The launchd agent that runs `bin` with this configuration, and how to load it.
pub fn install_launchd(bin: &FilePath, config: &FilePath, home: &FilePath) -> (unit: Unit)
    ensures
        unit.path@ == unit_path(Platform::MacOs, home@),
        unit.contents@ == launchd_unit(bin@, config@),
        texts(unit.messages@) == seq![
            "Installed launchd agent: "@ + shown(unit.path@),
            "Load it with:\n  launchctl load "@ + shown(unit.path@),
        ],
{
    let logs: String = config_dir(config).display();
    let mut contents: String = LAUNCHD_HEAD.to_owned();
    contents.append(bin.display().as_str());
    contents.append(LAUNCHD_CONFIG);
    contents.append(config.display().as_str());
    contents.append(LAUNCHD_LOG);
    contents.append(logs.as_str());
    contents.append(LAUNCHD_ERROR_LOG);
    contents.append(logs.as_str());
    contents.append(LAUNCHD_TAIL);
    let path: FilePath = launchd_path(home);
    let mut installed: String = "Installed launchd agent: ".to_owned();
    installed.append(path.display().as_str());
    let mut load: String = "Load it with:\n  launchctl load ".to_owned();
    load.append(path.display().as_str());
    let messages: Vec<String> = vec![installed, load];
    assert(texts(messages@) =~= seq![
        "Installed launchd agent: "@ + shown(path@),
        "Load it with:\n  launchctl load "@ + shown(path@),
    ]);
    Unit { path, contents, messages }
}

/// The systemd user unit that runs `bin` with this configuration, and how to enable it.
pub fn install_systemd(bin: &FilePath, config: &FilePath, home: &FilePath) -> (unit: Unit)
    ensures
        unit.path@ == unit_path(Platform::Linux, home@),
        unit.contents@ == systemd_unit(bin@, config@),
        texts(unit.messages@) == seq![
            "Installed systemd user unit: "@ + shown(unit.path@),
            "Enable it with:"@,
            "  systemctl --user daemon-reload"@,
            "  systemctl --user enable --now hbwatch.service"@,
            "  loginctl enable-linger \"$USER\"   # survive logout on a 24/7 box"@,
        ],
{
    let mut contents: String = SYSTEMD_HEAD.to_owned();
    contents.append(bin.display().as_str());
    contents.append(" run --config ");
    contents.append(config.display().as_str());
    contents.append(SYSTEMD_TAIL);
    let path: FilePath = systemd_path(home);
    let mut installed: String = "Installed systemd user unit: ".to_owned();
    installed.append(path.display().as_str());
    let messages: Vec<String> = vec![
        installed,
        "Enable it with:".to_owned(),
        "  systemctl --user daemon-reload".to_owned(),
        "  systemctl --user enable --now hbwatch.service".to_owned(),
        "  loginctl enable-linger \"$USER\"   # survive logout on a 24/7 box".to_owned(),
    ];
    assert(texts(messages@) =~= seq![
        "Installed systemd user unit: "@ + shown(path@),
        "Enable it with:"@,
        "  systemctl --user daemon-reload"@,
        "  systemctl --user enable --now hbwatch.service"@,
        "  loginctl enable-linger \"$USER\"   # survive logout on a 24/7 box"@,
    ]);
    Unit { path, contents, messages }
}

/// The service unit for a system, with the real paths in it.
pub fn install(
    platform: Platform,
    bin: &FilePath,
    config: &FilePath,
    home: &Option<FilePath>,
) -> (result: Result<Unit, ServiceError>)
    ensures
        match (platform, *home) {
            (Platform::Other, _) => result == Err::<Unit, ServiceError>(
                ServiceError::InstallUnsupported,
            ),
            (_, None) => result == Err::<Unit, ServiceError>(ServiceError::NoHome),
            (Platform::MacOs, Some(h)) => result matches Ok(unit) && {
                &&& unit.path@ == unit_path(platform, h@)
                &&& unit.contents@ == launchd_unit(bin@, config@)
                &&& texts(unit.messages@) == seq![
                    "Installed launchd agent: "@ + shown(unit.path@),
                    "Load it with:\n  launchctl load "@ + shown(unit.path@),
                ]
            },
            (Platform::Linux, Some(h)) => result matches Ok(unit) && {
                &&& unit.path@ == unit_path(platform, h@)
                &&& unit.contents@ == systemd_unit(bin@, config@)
                &&& texts(unit.messages@) == seq![
                    "Installed systemd user unit: "@ + shown(unit.path@),
                    "Enable it with:"@,
                    "  systemctl --user daemon-reload"@,
                    "  systemctl --user enable --now hbwatch.service"@,
                    "  loginctl enable-linger \"$USER\"   # survive logout on a 24/7 box"@,
                ]
            },
        },
{
    match (platform, home) {
        (Platform::Other, _) => Err(ServiceError::InstallUnsupported),
        (_, None) => Err(ServiceError::NoHome),
        (Platform::MacOs, Some(h)) => Ok(install_launchd(bin, config, h)),
        (Platform::Linux, Some(h)) => Ok(install_systemd(bin, config, h)),
    }
}

/// The service unit of a system that is to be removed.
pub fn uninstall(platform: Platform, home: &Option<FilePath>) -> (result: Result<
    Removal,
    ServiceError,
>)
    ensures
        match (platform, *home) {
            (Platform::Other, _) => result == Err::<Removal, ServiceError>(
                ServiceError::UninstallUnsupported,
            ),
            (_, None) => result == Err::<Removal, ServiceError>(ServiceError::NoHome),
            (Platform::MacOs, Some(h)) => result matches Ok(unit) && {
                &&& unit.path@ == unit_path(platform, h@)
                &&& unit.hint@ == LAUNCHD_UNLOAD@
            },
            (Platform::Linux, Some(h)) => result matches Ok(unit) && {
                &&& unit.path@ == unit_path(platform, h@)
                &&& unit.hint@ == SYSTEMD_DISABLE@
            },
        },
{
    match (platform, home) {
        (Platform::Other, _) => Err(ServiceError::UninstallUnsupported),
        (_, None) => Err(ServiceError::NoHome),
        (Platform::MacOs, Some(h)) => Ok(
            Removal { path: launchd_path(h), hint: LAUNCHD_UNLOAD.to_owned() },
        ),
        (Platform::Linux, Some(h)) => Ok(
            Removal { path: systemd_path(h), hint: SYSTEMD_DISABLE.to_owned() },
        ),
    }
}

/// What to tell of a removal: whether there was anything to remove, and how to stop the service.
pub fn remove_unit(removal: &Removal, existed: bool) -> (messages: Vec<String>)
    ensures
        texts(messages@) == seq![
            if existed {
                "Removed "@ + shown(removal.path@)
            } else {
                "Nothing to remove at "@ + shown(removal.path@)
            },
            removal.hint@,
        ],
{
    let mut first: String = if existed {
        "Removed ".to_owned()
    } else {
        "Nothing to remove at ".to_owned()
    };
    first.append(removal.path.display().as_str());
    let messages: Vec<String> = vec![first, removal.hint.clone()];
    assert(texts(messages@) =~= seq![
        if existed {
            "Removed "@ + shown(removal.path@)
        } else {
            "Nothing to remove at "@ + shown(removal.path@)
        },
        removal.hint@,
    ]);
    messages
}

/// The service of a system has its own place under the home directory: never the other's, and always
/// in that directory.
pub proof fn units_stand_under_home(home: Seq<u8>)
    ensures
        unit_path(Platform::MacOs, home) == joined(
            home,
            encode_utf8("Library/LaunchAgents/com.user.hbwatch.plist"@),
        ),
        home.is_prefix_of(unit_path(Platform::MacOs, home)),
        home.is_prefix_of(unit_path(Platform::Linux, home)),
        encode_utf8(".config/systemd/user/hbwatch.service"@).is_suffix_of(
            unit_path(Platform::Linux, home),
        ),
        unit_path(Platform::MacOs, home) != unit_path(Platform::Linux, home),
{
    let mac = "Library/LaunchAgents/com.user.hbwatch.plist"@;
    let linux = ".config/systemd/user/hbwatch.service"@;
    reveal_strlit("Library/LaunchAgents/com.user.hbwatch.plist");
    reveal_strlit(".config/systemd/user/hbwatch.service");
    is_ascii_chars_encode_utf8(mac);
    is_ascii_chars_encode_utf8(linux);
    joined_holds_both(home, encode_utf8(mac));
    joined_holds_both(home, encode_utf8(linux));
    assert(encode_utf8(mac)[0] != 47);
    assert(encode_utf8(linux)[0] != 47);
}

/// A service unit starts this program with this configuration, and an agent writes both of its logs
/// to the directory that the configuration stands in.
pub proof fn units_start_the_program(bin: Seq<u8>, config: Seq<u8>)
    ensures
        contains(systemd_unit(bin, config), shown(bin) + " run --config "@ + shown(config)),
        (LAUNCHD_HEAD@ + shown(bin) + LAUNCHD_CONFIG@ + shown(config) + LAUNCHD_LOG@).is_prefix_of(
            launchd_unit(bin, config),
        ),
        contains(launchd_unit(bin, config), LAUNCHD_LOG@ + shown(log_dir(config))),
        (LAUNCHD_ERROR_LOG@ + shown(log_dir(config)) + LAUNCHD_TAIL@).is_suffix_of(
            launchd_unit(bin, config),
        ),
        parent_of(config) matches Some(parent) ==> log_dir(config) == parent,
        parent_of(config) is None ==> log_dir(config) == encode_utf8("."@),
{
    let (b, c, l) = (shown(bin), shown(config), shown(log_dir(config)));
    let command = b + " run --config "@ + c;
    contains_what_was_put_in(SYSTEMD_HEAD@, command, SYSTEMD_TAIL@);
    assert(SYSTEMD_HEAD@ + command + SYSTEMD_TAIL@ =~= systemd_unit(bin, config));
    let text = launchd_unit(bin, config);
    let head = LAUNCHD_HEAD@ + b + LAUNCHD_CONFIG@ + c;
    let tail = LAUNCHD_ERROR_LOG@ + l + LAUNCHD_TAIL@;
    contains_what_was_put_in(head, LAUNCHD_LOG@ + l, tail);
    assert(head + (LAUNCHD_LOG@ + l) + tail =~= text);
    assert(head + LAUNCHD_LOG@ =~= text.subrange(0, (head + LAUNCHD_LOG@).len() as int));
    assert(tail =~= text.subrange(text.len() - tail.len(), text.len() as int));
}

/// What an error says tells what cannot be done, or what is missing.
pub proof fn service_errors_tell_what_is_wrong(e: ServiceError)
    ensures
        e is InstallUnsupported ==> e.text() == "install is only supported on macOS and Linux"@,
        e is UninstallUnsupported ==> e.text() == "un"@
            + "install is only supported on macOS and Linux"@,
        e is NoHome ==> "HOME"@.is_prefix_of(e.text()) && " is not set"@.is_suffix_of(e.text()),
{
    let install = "install is only supported on macOS and Linux"@;
    if e is UninstallUnsupported {
        reveal_strlit("un");
        reveal_strlit("install is only supported on macOS and Linux");
        reveal_strlit("uninstall is only supported on macOS and Linux");
        assert(e.text() =~= "un"@ + install);
    }
    if e is NoHome {
        reveal_strlit("HOME");
        reveal_strlit(" is not set");
        reveal_strlit("HOME is not set");
        let text = e.text();
        assert("HOME"@ =~= text.subrange(0, 4));
        assert(" is not set"@ =~= text.subrange(4, 15));
    }
}


} // verus!
