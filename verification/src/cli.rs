//! What the command line shows: the resolved plan, where the configuration file is looked for, and
//! how much is logged.

use vstd::prelude::*;
use vstd::string::*;
use vstd::utf8::*;

use crate::config::{Notifications, ResolvedConfig, ResolvedFolder, WatchMode};
use crate::path::{joined, shown, FilePath};
use crate::text::{contains, contains_what_was_put_in, decimal, push_decimal, texts};

verus! {

/// Where the configuration file is looked for.
pub fn default_config_path(home: &Option<FilePath>) -> (path: FilePath)
    ensures
        path@ == joined(
            match *home {
                Some(h) => h@,
                None => Seq::empty(),
            },
            encode_utf8(".config/hbwatch/config.toml"@),
        ),
{
    match home {
        Some(h) => h.join_text(".config/hbwatch/config.toml"),
        None => FilePath::from_bytes(Vec::new()).join_text(".config/hbwatch/config.toml"),
    }
}

/// How much is logged: little on a terminal, where the bars own the screen.
pub fn log_level<'a>(interactive: bool, level: &'a str) -> (chosen: &'a str)
    ensures
        chosen@ == if interactive {
            "warn"@
        } else {
            level@
        },
{
    if interactive {
        "warn"
    } else {
        level
    }
}

/// The name of a watch backend.
pub open spec fn mode_name(mode: WatchMode) -> Seq<char> {
    match mode {
        WatchMode::Poll => "Poll"@,
        WatchMode::Native => "Native"@,
    }
}

/// A truth value in words.
pub open spec fn truth(b: bool) -> Seq<char> {
    if b {
        "true"@
    } else {
        "false"@
    }
}

/// Appends a truth value in words.
fn push_truth(out: &mut String, b: bool)
    ensures
        final(out)@ == old(out)@ + truth(b),
{
    if b {
        out.append("true");
    } else {
        out.append("false");
    }
}

/// The plan of one folder.
pub open spec fn folder_plan(f: ResolvedFolder) -> Seq<Seq<char>> {
    seq![
        "  ["@ + f.name@ + "]"@,
        "    watch:     "@ + shown(f.watch_dir@),
        "    preset:    "@ + shown(f.preset_file@) + " (-Z \""@ + f.preset_name@ + "\")"@,
        "    output:    "@ + shown(f.output_dir@) + "/*."@ + f.output_extension@,
        "    originals: "@ + shown(f.originals_dir@) + "\n"@,
    ]
}

/// The plans of some folders, one behind the other.
pub open spec fn folder_plans(folders: Seq<ResolvedFolder>) -> Seq<Seq<char>>
    decreases folders.len(),
{
    if folders.len() == 0 {
        Seq::empty()
    } else {
        folder_plans(folders.drop_last()) + folder_plan(folders.last())
    }
}

/// The line of the notification settings.
pub open spec fn notification_plan(n: Notifications) -> Seq<char> {
    "  notifications: enabled="@ + truth(n.enabled) + " failure="@ + truth(n.on_failure) + " item="@
        + truth(n.on_item_complete) + " drain="@ + truth(n.on_queue_drain)
}

/// The resolved plan, line by line.
pub open spec fn plan(cfg: ResolvedConfig) -> Seq<Seq<char>> {
    seq![
        "hbwatch configuration ("@ + decimal(cfg.folders@.len()) + " folder(s)):\n"@,
        "  watch_mode: "@ + mode_name(cfg.settings.watch_mode),
        "  handbrake:  "@ + cfg.settings.handbrake_cli@,
        "  state_file: "@ + shown(cfg.state_file@) + "\n"@,
    ] + folder_plans(cfg.folders@) + seq![notification_plan(cfg.notifications)]
}

/// A text with another one behind it.
fn line_of(label: &str, value: &str) -> (line: String)
    ensures
        line@ == label@ + value@,
{
    let mut line: String = label.to_owned();
    line.append(value);
    line
}

/// Appends the plan of one folder.
fn push_folder_plan(lines: &mut Vec<String>, f: &ResolvedFolder)
    ensures
        texts(final(lines)@) == texts(old(lines)@) + folder_plan(*f),
{
    let mut name: String = line_of("  [", f.name.as_str());
    name.append("]");
    let watch: String = line_of("    watch:     ", f.watch_dir.display().as_str());
    let mut preset: String = line_of("    preset:    ", f.preset_file.display().as_str());
    preset.append(" (-Z \"");
    preset.append(f.preset_name.as_str());
    preset.append("\")");
    let mut output: String = line_of("    output:    ", f.output_dir.display().as_str());
    output.append("/*.");
    output.append(f.output_extension.as_str());
    let mut originals: String = line_of("    originals: ", f.originals_dir.display().as_str());
    originals.append("\n");
    lines.push(name);
    lines.push(watch);
    lines.push(preset);
    lines.push(output);
    lines.push(originals);
    assert(texts(lines@) =~= texts(old(lines)@) + folder_plan(*f));
}

/// The lines of the resolved plan.
pub fn print_plan(cfg: &ResolvedConfig) -> (lines: Vec<String>)
    ensures
        texts(lines@) == plan(*cfg),
{
    let mut head: String = "hbwatch configuration (".to_owned();
    push_decimal(&mut head, cfg.folders.len() as u64);
    head.append(" folder(s)):\n");
    let mode: String = match cfg.settings.watch_mode {
        WatchMode::Poll => line_of("  watch_mode: ", "Poll"),
        WatchMode::Native => line_of("  watch_mode: ", "Native"),
    };
    let handbrake: String = line_of("  handbrake:  ", cfg.settings.handbrake_cli.as_str());
    let mut state: String = line_of("  state_file: ", cfg.state_file.display().as_str());
    state.append("\n");
    let mut lines: Vec<String> = vec![head, mode, handbrake, state];
    let ghost first = texts(lines@);
    let ghost folders = cfg.folders@;
    let len: usize = cfg.folders.len();
    assert(texts(lines@) =~= first + folder_plans(folders.take(0)));
    for i in 0..len
        invariant
            len == cfg.folders@.len(),
            folders == cfg.folders@,
            texts(lines@) == first + folder_plans(folders.take(i as int)),
    {
        push_folder_plan(&mut lines, &cfg.folders[i]);
        assert(folders.take(i + 1).drop_last() =~= folders.take(i as int));
        assert(texts(lines@) =~= first + folder_plans(folders.take(i + 1)));
    }
    assert(folders.take(len as int) =~= folders);
    let n: &Notifications = &cfg.notifications;
    let mut tail: String = "  notifications: enabled=".to_owned();
    push_truth(&mut tail, n.enabled);
    tail.append(" failure=");
    push_truth(&mut tail, n.on_failure);
    tail.append(" item=");
    push_truth(&mut tail, n.on_item_complete);
    tail.append(" drain=");
    push_truth(&mut tail, n.on_queue_drain);
    let ghost before = texts(lines@);
    lines.push(tail);
    assert(texts(lines@) =~= before.push(tail@));
    assert(first =~= plan(*cfg).take(4));
    assert(texts(lines@) =~= plan(*cfg));
    lines
}

/// The plan has four lines on the whole, five on each folder in order, and one on the notifications.
/// Those of a folder give its name, where it is watched, its preset, where its output goes and under
/// which extension, and where its originals go.
pub proof fn plan_tells_of_each_folder(cfg: ResolvedConfig, i: int)
    requires
        0 <= i < cfg.folders@.len(),
    ensures
        plan(cfg).len() == 5 + 5 * cfg.folders@.len(),
        ({
            let f = cfg.folders@[i];
            let at = 4 + 5 * i;
            &&& contains(plan(cfg)[at], f.name@)
            &&& shown(f.watch_dir@).is_suffix_of(plan(cfg)[at + 1])
            &&& contains(plan(cfg)[at + 2], shown(f.preset_file@))
            &&& contains(plan(cfg)[at + 2], "-Z "@ + seq!['"'] + f.preset_name@ + seq!['"'])
            &&& contains(plan(cfg)[at + 3], shown(f.output_dir@))
            &&& ("."@ + f.output_extension@).is_suffix_of(plan(cfg)[at + 3])
            &&& contains(plan(cfg)[at + 4], shown(f.originals_dir@))
        }),
{
    plans_one_by_one(cfg.folders@, i);
    folder_plan_parts(cfg.folders@[i]);
    let all = folder_plans(cfg.folders@);
    let at = 4 + 5 * i;
    assert(plan(cfg)[at] == all[5 * i]);
    assert(plan(cfg)[at + 1] == all[5 * i + 1]);
    assert(plan(cfg)[at + 2] == all[5 * i + 2]);
    assert(plan(cfg)[at + 3] == all[5 * i + 3]);
    assert(plan(cfg)[at + 4] == all[5 * i + 4]);
}

/// The lines of each folder stand behind those of the folders before it.
proof fn plans_one_by_one(folders: Seq<ResolvedFolder>, i: int)
    ensures
        folder_plans(folders).len() == 5 * folders.len(),
        0 <= i < folders.len() ==> forall|k: int|
            0 <= k < 5 ==> folder_plans(folders)[5 * i + k] == #[trigger] folder_plan(folders[i])[k],
    decreases folders.len(),
{
    if folders.len() > 0 {
        let less = folders.drop_last();
        plans_one_by_one(less, i);
        if 0 <= i < less.len() {
            assert(less[i] == folders[i]);
            assert forall|k: int| 0 <= k < 5 implies folder_plans(folders)[5 * i + k]
                == #[trigger] folder_plan(folders[i])[k] by {
                assert(folder_plans(less)[5 * i + k] == folder_plan(less[i])[k]);
            }
        }
    }
}

/// What the lines of a folder hold.
proof fn folder_plan_parts(f: ResolvedFolder)
    ensures
        contains(folder_plan(f)[0], f.name@),
        shown(f.watch_dir@).is_suffix_of(folder_plan(f)[1]),
        contains(folder_plan(f)[2], shown(f.preset_file@)),
        contains(folder_plan(f)[2], "-Z "@ + seq!['"'] + f.preset_name@ + seq!['"']),
        contains(folder_plan(f)[3], shown(f.output_dir@)),
        ("."@ + f.output_extension@).is_suffix_of(folder_plan(f)[3]),
        contains(folder_plan(f)[4], shown(f.originals_dir@)),
{
    let lines = folder_plan(f);
    let (watch, preset, out, aside) = (
        shown(f.watch_dir@),
        shown(f.preset_file@),
        shown(f.output_dir@),
        shown(f.originals_dir@),
    );
    contains_what_was_put_in("  ["@, f.name@, "]"@);
    assert(watch =~= lines[1].subrange(lines[1].len() - watch.len(), lines[1].len() as int));
    preset_line_parts(preset, f.preset_name@);
    output_line_parts(out, f.output_extension@);
    contains_what_was_put_in("    originals: "@, aside, "\n"@);
}

/// What the line of a folder's preset holds.
proof fn preset_line_parts(preset: Seq<char>, name: Seq<char>)
    ensures
        ({
            let line = "    preset:    "@ + preset + " (-Z \""@ + name + "\")"@;
            &&& contains(line, preset)
            &&& contains(line, "-Z "@ + seq!['"'] + name + seq!['"'])
        }),
{
    let (head, z, close) = ("    preset:    "@, " (-Z \""@, "\")"@);
    let line = head + preset + z + name + close;
    contains_what_was_put_in(head, preset, z + name + close);
    assert(head + preset + (z + name + close) =~= line);
    let (start, flag, quote, end) = (" ("@, "-Z "@, seq!['"'], ")"@);
    assert(z == start + flag + quote && close == quote + end) by {
        reveal_strlit(" (-Z \"");
        reveal_strlit("-Z ");
        reveal_strlit(" (");
        reveal_strlit("\")");
        reveal_strlit(")");
        assert(z =~= start + flag + quote);
        assert(close =~= quote + end);
    }
    contains_what_was_put_in(head + preset + start, flag + quote + name + quote, end);
    assert((head + preset + start) + (flag + quote + name + quote) + end =~= line);
}

/// What the line of a folder's output holds.
proof fn output_line_parts(out: Seq<char>, extension: Seq<char>)
    ensures
        ({
            let line = "    output:    "@ + out + "/*."@ + extension;
            &&& contains(line, out)
            &&& ("."@ + extension).is_suffix_of(line)
        }),
{
    let (head, stars, dot) = ("    output:    "@, "/*."@, "."@);
    let line = head + out + stars + extension;
    contains_what_was_put_in(head, out, stars + extension);
    assert(head + out + (stars + extension) =~= line);
    reveal_strlit("/*.");
    reveal_strlit(".");
    let end = dot + extension;
    assert(end =~= line.subrange(line.len() - end.len(), line.len() as int));
}

/// The first and the last lines of the plan give the number of folders, the watch mode, the encoder,
/// the state file, and each switch of the notifications.
pub proof fn plan_tells_of_the_whole(cfg: ResolvedConfig)
    ensures
        contains(plan(cfg)[0], decimal(cfg.folders@.len())),
        cfg.settings.watch_mode is Poll ==> "Poll"@.is_suffix_of(plan(cfg)[1]),
        cfg.settings.watch_mode is Native ==> "Native"@.is_suffix_of(plan(cfg)[1]),
        cfg.settings.handbrake_cli@.is_suffix_of(plan(cfg)[2]),
        contains(plan(cfg)[3], shown(cfg.state_file@)),
        contains(plan(cfg).last(), " failure="@ + truth(cfg.notifications.on_failure) + " item="@),
        contains(
            plan(cfg).last(),
            " item="@ + truth(cfg.notifications.on_item_complete) + " drain="@,
        ),
        (" drain="@ + truth(cfg.notifications.on_queue_drain)).is_suffix_of(plan(cfg).last()),
        contains(plan(cfg).last(), "enabled="@ + truth(cfg.notifications.enabled) + " failure="@),
        truth(true) == "true"@ && truth(false) == "false"@,
{
    plans_one_by_one(cfg.folders@, 0);
    let lines = plan(cfg);
    contains_what_was_put_in(
        "hbwatch configuration ("@,
        decimal(cfg.folders@.len()),
        " folder(s)):\n"@,
    );
    let mode = mode_name(cfg.settings.watch_mode);
    assert(mode =~= lines[1].subrange(lines[1].len() - mode.len(), lines[1].len() as int));
    let program = cfg.settings.handbrake_cli@;
    assert(program =~= lines[2].subrange(lines[2].len() - program.len(), lines[2].len() as int));
    contains_what_was_put_in("  state_file: "@, shown(cfg.state_file@), "\n"@);
    notification_plan_parts(cfg.notifications);
    assert(lines.last() == notification_plan(cfg.notifications));
}

/// What the line of the notifications holds.
proof fn notification_plan_parts(n: Notifications)
    ensures
        ({
            let line = notification_plan(n);
            &&& contains(line, "enabled="@ + truth(n.enabled) + " failure="@)
            &&& contains(line, " failure="@ + truth(n.on_failure) + " item="@)
            &&& contains(line, " item="@ + truth(n.on_item_complete) + " drain="@)
            &&& (" drain="@ + truth(n.on_queue_drain)).is_suffix_of(line)
        }),
{
    let (h, pre, on) = ("  notifications: enabled="@, "  notifications: "@, "enabled="@);
    assert(h == pre + on) by {
        reveal_strlit("  notifications: enabled=");
        reveal_strlit("  notifications: ");
        reveal_strlit("enabled=");
        assert(h =~= pre + on);
    }
    four_switches(
        pre,
        on,
        truth(n.enabled),
        " failure="@,
        truth(n.on_failure),
        " item="@,
        truth(n.on_item_complete),
        " drain="@,
        truth(n.on_queue_drain),
    );
}

/// Four labels, each with a value behind it.
proof fn four_switches(
    pre: Seq<char>,
    on: Seq<char>,
    e: Seq<char>,
    pf: Seq<char>,
    f: Seq<char>,
    pi: Seq<char>,
    i: Seq<char>,
    pd: Seq<char>,
    d: Seq<char>,
)
    ensures
        ({
            let line = (pre + on) + e + pf + f + pi + i + pd + d;
            &&& contains(line, on + e + pf)
            &&& contains(line, pf + f + pi)
            &&& contains(line, pi + i + pd)
            &&& (pd + d).is_suffix_of(line)
        }),
{
    let line = (pre + on) + e + pf + f + pi + i + pd + d;
    contains_what_was_put_in(pre, on + e + pf, f + pi + i + pd + d);
    assert(pre + (on + e + pf) + (f + pi + i + pd + d) =~= line);
    contains_what_was_put_in(pre + on + e, pf + f + pi, i + pd + d);
    assert((pre + on + e) + (pf + f + pi) + (i + pd + d) =~= line);
    contains_what_was_put_in(pre + on + e + pf + f, pi + i + pd, d);
    assert((pre + on + e + pf + f) + (pi + i + pd) + d =~= line);
    let end = pd + d;
    assert(end =~= line.subrange(line.len() - end.len(), line.len() as int));
}

} // verus!
