//! The `status` command: where it asks the running daemon, and what it prints of the answer, or of
//! the saved queue when the daemon is not reachable.

use vstd::prelude::*;
use vstd::string::*;

use crate::config::{ResolvedConfig, Server};
use crate::path::{name_text, shown};
use crate::progress::{queued_text, queued_words};
use crate::queue::{pending_in, FolderCounts, Queue, QueueModel};
use crate::status::{Current, FolderStatus, StatusResponse};
use crate::text::{
    contains, contains_what_was_put_in, decimal, decimal_padded, padded, padding_fills,
    push_decimal, push_decimal_padded, push_padded, same_text, texts,
};

verus! {

/// The address under which a server is reached on its own machine.
pub open spec fn loopback(bind: Seq<char>) -> Seq<char> {
    if bind == "0.0.0.0"@ || bind == "::"@ || bind == "[::]"@ {
        "127.0.0.1"@
    } else {
        bind
    }
}

/// Loopback address to reach a server that may be bound to all interfaces.
pub fn local_host(bind: &str) -> (host: String)
    ensures
        host@ == loopback(bind@),
{
    if same_text(bind, "0.0.0.0") || same_text(bind, "::") || same_text(bind, "[::]") {
        "127.0.0.1".to_owned()
    } else {
        bind.to_owned()
    }
}

/// The address of the status payload.
pub open spec fn status_address(server: Server) -> Seq<char> {
    let url = "http://"@ + loopback(server.bind@) + ":"@ + decimal(server.port as nat)
        + "/status.json"@;
    match server.token {
        Some(token) => url + "?token="@ + token@,
        None => url,
    }
}

/// Where the running daemon tells its status, where it does.
pub fn fetch(server: &Server) -> (url: Option<String>)
    ensures
        match url {
            Some(u) => server.enabled && u@ == status_address(*server),
            None => !server.enabled,
        },
{
    if !server.enabled {
        return None;
    }
    let mut url: String = "http://".to_owned();
    url.append(local_host(server.bind.as_str()).as_str());
    url.append(":");
    push_decimal(&mut url, server.port as u64);
    url.append("/status.json");
    if let Some(token) = &server.token {
        url.append("?token=");
        url.append(token.as_str());
    }
    Some(url)
}

/// A duration in its two largest units.
pub open spec fn duration_words(secs: nat) -> Seq<char> {
    let (d, h, m) = (secs / 86400, secs % 86400 / 3600, secs % 3600 / 60);
    if d > 0 {
        decimal(d) + "d "@ + decimal(h) + "h"@
    } else if h > 0 {
        decimal(h) + "h "@ + decimal(m) + "m"@
    } else {
        decimal(m) + "m"@
    }
}

/// A duration in its two largest units.
pub fn fmt_dur(secs: u64) -> (text: String)
    ensures
        text@ == duration_words(secs as nat),
{
    let d: u64 = secs / 86400;
    let h: u64 = secs % 86400 / 3600;
    let m: u64 = secs % 3600 / 60;
    let mut out: String = String::new();
    if d > 0 {
        push_decimal(&mut out, d);
        out.append("d ");
        push_decimal(&mut out, h);
        out.append("h");
    } else if h > 0 {
        push_decimal(&mut out, h);
        out.append("h ");
        push_decimal(&mut out, m);
        out.append("m");
    } else {
        push_decimal(&mut out, m);
        out.append("m");
    }
    assert(out@ =~= duration_words(secs as nat));
    out
}

/// The time left, where it is known.
pub open spec fn eta_words(eta: Option<i64>) -> Seq<char> {
    match eta {
        Some(s) => if s > 0 {
            "ETA "@ + decimal((s / 60) as nat) + "m"@ + decimal_padded((s % 60) as nat) + "s"@
        } else {
            "ETA —"@
        },
        None => "ETA —"@,
    }
}

/// The time left, where it is known.
pub fn fmt_eta(eta: Option<i64>) -> (text: String)
    ensures
        text@ == eta_words(eta),
{
    match eta {
        Some(s) => if s > 0 {
            let secs: u64 = s as u64;
            let mut out: String = "ETA ".to_owned();
            push_decimal(&mut out, secs / 60);
            out.append("m");
            push_decimal_padded(&mut out, secs % 60);
            out.append("s");
            out
        } else {
            "ETA —".to_owned()
        },
        None => "ETA —".to_owned(),
    }
}

/// The line of a folder: its name in a column, then a text.
pub open spec fn column_line(name: Seq<char>, state: Seq<char>) -> Seq<char> {
    "    "@ + padded(name, 20) + " "@ + state
}

/// The line of a folder.
fn push_column(name: &str, state: &str) -> (line: String)
    ensures
        line@ == column_line(name@, state@),
{
    let mut line: String = "    ".to_owned();
    push_padded(&mut line, name, 20);
    line.append(" ");
    line.append(state);
    line
}

/// What is going on in a folder.
pub open spec fn folder_words(folder: FolderStatus) -> Seq<char> {
    if folder.encoding {
        "encoding ("@ + decimal(folder.pending as nat) + " queued)"@
    } else {
        queued_words(folder.pending as nat)
    }
}

/// What is going on in a folder.
fn folder_state(folder: &FolderStatus) -> (text: String)
    ensures
        text@ == folder_words(*folder),
{
    if !folder.encoding {
        return queued_text(folder.pending);
    }
    let mut out: String = "encoding (".to_owned();
    push_decimal(&mut out, folder.pending as u64);
    out.append(" queued)");
    out
}

/// The line of the current encode. `percent` is how much of it is done.
pub open spec fn current_line(current: Option<Current>, percent: u64) -> Seq<char> {
    match current {
        Some(c) => "  encoding: "@ + c.film@ + " ["@ + c.folder@ + "]  "@ + decimal(percent as nat)
            + "%  "@ + eta_words(c.eta_secs),
        None => "  idle"@,
    }
}

/// What is printed of the daemon's answer.
pub open spec fn live_text(status: StatusResponse, percent: u64) -> Seq<Seq<char>> {
    seq![
        "hbwatch — up "@ + duration_words(status.uptime_secs as nat),
        current_line(status.current, percent),
        "  queued "@ + decimal(status.pending_total as nat) + " · done "@ + decimal(
            status.processed as nat,
        ) + " · failed "@ + decimal(status.failed as nat),
    ] + Seq::new(
        status.folders@.len(),
        |i: int| column_line(status.folders@[i].name@, folder_words(status.folders@[i])),
    )
}

/// The lines that tell of the daemon's answer. `percent` is how much of the current encode is done.
pub fn print_live(status: &StatusResponse, percent: u64) -> (lines: Vec<String>)
    ensures
        texts(lines@) == live_text(*status, percent),
{
    let mut up: String = "hbwatch — up ".to_owned();
    up.append(fmt_dur(status.uptime_secs).as_str());
    let current: String = match &status.current {
        Some(c) => {
            let mut out: String = "  encoding: ".to_owned();
            out.append(c.film.as_str());
            out.append(" [");
            out.append(c.folder.as_str());
            out.append("]  ");
            push_decimal(&mut out, percent);
            out.append("%  ");
            out.append(fmt_eta(c.eta_secs).as_str());
            out
        },
        None => "  idle".to_owned(),
    };
    let mut totals: String = "  queued ".to_owned();
    push_decimal(&mut totals, status.pending_total as u64);
    totals.append(" · done ");
    push_decimal(&mut totals, status.processed);
    totals.append(" · failed ");
    push_decimal(&mut totals, status.failed);
    let mut lines: Vec<String> = vec![up, current, totals];
    let len: usize = status.folders.len();
    let ghost all = live_text(*status, percent);
    assert(texts(lines@) =~= all.take(3));
    for i in 0..len
        invariant
            len == status.folders@.len(),
            all == live_text(*status, percent),
            texts(lines@) == all.take(3 + i),
    {
        let folder: &FolderStatus = &status.folders[i];
        let ghost before = lines@;
        let line: String = push_column(folder.name.as_str(), folder_state(folder).as_str());
        lines.push(line);
        assert(texts(lines@) =~= texts(before).push(line@));
        assert(all[3 + i] == line@);
        assert(all.take(3 + i + 1) =~= all.take(3 + i).push(all[3 + i]));
    }
    assert(all.take(3 + len as int) =~= all);
    lines
}

/// The line of the job that was being encoded.
pub open spec fn last_line(queue: QueueModel) -> Seq<char> {
    match queue.in_flight {
        Some(job) => "  last in-flight: "@ + name_text(job.input_path@) + " ["@ + job.folder_name@
            + "]"@,
        None => "  idle"@,
    }
}

/// What is printed of the saved queue.
pub open spec fn offline_text(cfg: ResolvedConfig, queue: QueueModel) -> Seq<Seq<char>> {
    seq![
        "(daemon not reachable — reading queue file "@ + shown(cfg.state_file@) + ")"@,
        last_line(queue),
        "  queued "@ + decimal(queue.pending.len()),
    ] + Seq::new(
        cfg.folders@.len(),
        |i: int|
            column_line(
                cfg.folders@[i].name@,
                queued_words(pending_in(queue.pending, cfg.folders@[i].name@)),
            ),
    )
}

/// The lines that tell of the saved queue.
pub fn print_offline(cfg: &ResolvedConfig, queue: &Queue) -> (lines: Vec<String>)
    ensures
        texts(lines@) == offline_text(*cfg, queue@),
{
    let mut head: String = "(daemon not reachable — reading queue file ".to_owned();
    head.append(cfg.state_file.display().as_str());
    head.append(")");
    let counts: FolderCounts = queue.pending_counts();
    let last: String = match queue.in_flight_name() {
        Some((folder, film)) => {
            let mut out: String = "  last in-flight: ".to_owned();
            out.append(film.as_str());
            out.append(" [");
            out.append(folder.as_str());
            out.append("]");
            out
        },
        None => "  idle".to_owned(),
    };
    let mut queued: String = "  queued ".to_owned();
    push_decimal(&mut queued, counts.total() as u64);
    let mut lines: Vec<String> = vec![head, last, queued];
    let len: usize = cfg.folders.len();
    let ghost all = offline_text(*cfg, queue@);
    assert(texts(lines@) =~= all.take(3));
    for i in 0..len
        invariant
            len == cfg.folders@.len(),
            all == offline_text(*cfg, queue@),
            forall|name: Seq<char>| #[trigger]
                counts.of(name) == pending_in(queue@.pending, name),
            texts(lines@) == all.take(3 + i),
    {
        let name: &str = cfg.folders[i].name.as_str();
        let ghost before = lines@;
        let line: String = push_column(name, queued_text(counts.get(name)).as_str());
        lines.push(line);
        assert(texts(lines@) =~= texts(before).push(line@));
        assert(all[3 + i] == line@);
        assert(all.take(3 + i + 1) =~= all.take(3 + i).push(all[3 + i]));
    }
    assert(all.take(3 + len as int) =~= all);
    lines
}

/// A server on all interfaces is reached on this machine, and any other one where it listens.
pub proof fn wildcards_are_local(bind: Seq<char>)
    ensures
        loopback("0.0.0.0"@) == "127.0.0.1"@,
        loopback("::"@) == "127.0.0.1"@,
        loopback("[::]"@) == "127.0.0.1"@,
        bind != "0.0.0.0"@ && bind != "::"@ && bind != "[::]"@ ==> loopback(bind) == bind,
{
}

/// The status is asked for under the server's own host and port, and with its token where it has one.
pub proof fn status_is_asked_for(server: Server)
    ensures
        ("http://"@ + loopback(server.bind@) + ":"@).is_prefix_of(status_address(server)),
        contains(status_address(server), ":"@ + decimal(server.port as nat) + "/status.json"@),
        server.token matches Some(token) ==> ("/status.json?token="@ + token@).is_suffix_of(
            status_address(server),
        ),
        server.token is None ==> "/status.json"@.is_suffix_of(status_address(server)),
{
    let url = status_address(server);
    let head = "http://"@ + loopback(server.bind@);
    let port = decimal(server.port as nat);
    let tail = match server.token {
        Some(token) => "?token="@ + token@,
        None => Seq::empty(),
    };
    assert(url =~= head + (":"@ + port + "/status.json"@) + tail);
    contains_what_was_put_in(head, ":"@ + port + "/status.json"@, tail);
    assert(head + ":"@ =~= url.subrange(0, (head + ":"@).len() as int));
    let json = "/status.json"@;
    match server.token {
        Some(token) => {
            reveal_strlit("/status.json");
            reveal_strlit("?token=");
            reveal_strlit("/status.json?token=");
            assert("/status.json?token="@ =~= json + "?token="@);
            let end = "/status.json?token="@ + token@;
            assert(end =~= url.subrange(url.len() - end.len(), url.len() as int));
        },
        None => {
            assert(json =~= url.subrange(url.len() - json.len(), url.len() as int));
        },
    }
}

/// A duration is given in days and hours, in hours and minutes, or in minutes, the larger units first:
/// these make it up, but for what is less than the smallest unit given.
pub proof fn durations_add_up(secs: nat)
    ensures
        secs < 3600 ==> exists|m: nat|
            60 * m <= secs < 60 * m + 60 && duration_words(secs) == #[trigger] decimal(m) + "m"@,
        3600 <= secs < 86400 ==> exists|h: nat, m: nat|
            {
                &&& 3600 * h + 60 * m <= secs < 3600 * h + 60 * m + 60
                &&& m < 60
                &&& duration_words(secs) == #[trigger] decimal(h) + "h "@ + #[trigger] decimal(m)
                    + "m"@
            },
        secs >= 86400 ==> exists|d: nat, h: nat|
            {
                &&& 86400 * d + 3600 * h <= secs < 86400 * d + 3600 * h + 3600
                &&& h < 24
                &&& duration_words(secs) == #[trigger] decimal(d) + "d "@ + #[trigger] decimal(h)
                    + "h"@
            },
{
    let (d, h, m) = (secs / 86400, secs % 86400 / 3600, secs % 3600 / 60);
    if secs < 3600 {
        assert(60 * m <= secs < 60 * m + 60);
        assert(duration_words(secs) == decimal(m) + "m"@);
    } else if secs < 86400 {
        assert(3600 * h + 60 * m <= secs < 3600 * h + 60 * m + 60);
        assert(duration_words(secs) == decimal(h) + "h "@ + decimal(m) + "m"@);
    } else {
        assert(86400 * d + 3600 * h <= secs < 86400 * d + 3600 * h + 3600);
        assert(duration_words(secs) == decimal(d) + "d "@ + decimal(h) + "h"@);
    }
}

/// The time left is given in minutes and the seconds over, which together make it.
pub proof fn eta_adds_up(secs: i64)
    ensures
        secs > 0 ==> exists|m: nat, s: nat|
            {
                &&& 60 * m + s == secs
                &&& s < 60
                &&& eta_words(Some(secs)) == "ETA "@ + #[trigger] decimal(m) + "m"@
                    + #[trigger] decimal_padded(s) + "s"@
            },
        secs <= 0 ==> eta_words(Some(secs)) == eta_words(None),
{
    if secs > 0 {
        let (m, s) = ((secs / 60) as nat, (secs % 60) as nat);
        assert(60 * m + s == secs);
        assert(eta_words(Some(secs)) == "ETA "@ + decimal(m) + "m"@ + decimal_padded(s) + "s"@);
    }
}

/// The line of a folder has its name at the left and its state at the right, and the states of folders
/// with names of up to twenty characters stand below each other.
pub proof fn columns_line_up(name: Seq<char>, state: Seq<char>)
    ensures
        ("    "@ + name).is_prefix_of(column_line(name, state)),
        state.is_suffix_of(column_line(name, state)),
        name.len() <= 20 ==> column_line(name, state).len() == 25 + state.len(),
{
    reveal_strlit("    ");
    reveal_strlit(" ");
    padding_fills(name, 20);
    let line = column_line(name, state);
    assert("    "@ + name =~= line.subrange(0, ("    "@ + name).len() as int)) by {
        assert(name =~= padded(name, 20).subrange(0, name.len() as int));
    }
    assert(state =~= line.subrange(line.len() - state.len(), line.len() as int));
}

/// What is printed of a daemon's answer: how long it has run, the film being encoded with its folder
/// and how much of it is done, how many jobs wait, are done and failed, and each folder in order.
pub proof fn live_lines(status: StatusResponse, percent: u64, i: int)
    ensures
        live_text(status, percent).len() == 3 + status.folders@.len(),
        contains(live_text(status, percent)[0], duration_words(status.uptime_secs as nat)),
        status.current is None ==> live_text(status, percent)[1] == "  idle"@,
        status.current matches Some(current) ==> {
            let line = live_text(status, percent)[1];
            &&& contains(line, current.film@)
            &&& contains(line, "["@ + current.folder@ + "]"@)
            &&& contains(line, decimal(percent as nat) + "%"@)
            &&& eta_words(current.eta_secs).is_suffix_of(line)
        },
        contains(live_text(status, percent)[2], "queued "@ + decimal(status.pending_total as nat)),
        contains(live_text(status, percent)[2], "done "@ + decimal(status.processed as nat)),
        ("failed "@ + decimal(status.failed as nat)).is_suffix_of(live_text(status, percent)[2]),
        0 <= i < status.folders@.len() ==> live_text(status, percent)[3 + i] == column_line(
            status.folders@[i].name@,
            if status.folders@[i].encoding {
                "encoding ("@ + decimal(status.folders@[i].pending as nat) + " queued)"@
            } else {
                queued_words(status.folders@[i].pending as nat)
            },
        ),
{
    let lines = live_text(status, percent);
    let none = Seq::<char>::empty();
    let up = duration_words(status.uptime_secs as nat);
    contains_what_was_put_in("hbwatch — up "@, up, none);
    assert("hbwatch — up "@ + up + none =~= lines[0]);
    if let Some(c) = status.current {
        current_line_parts(c, percent);
    }
    totals_parts(status, percent);
}

/// The parts of the line of the current encode.
proof fn current_line_parts(c: Current, percent: u64)
    ensures
        ({
            let line = current_line(Some(c), percent);
            &&& contains(line, c.film@)
            &&& contains(line, "["@ + c.folder@ + "]"@)
            &&& contains(line, decimal(percent as nat) + "%"@)
            &&& eta_words(c.eta_secs).is_suffix_of(line)
        }),
{
    reveal_strlit(" [");
    reveal_strlit(" ");
    reveal_strlit("[");
    reveal_strlit("]  ");
    reveal_strlit("]");
    reveal_strlit("  ");
    reveal_strlit("%  ");
    reveal_strlit("%");
    let line = current_line(Some(c), percent);
    let (film, folder, n, eta) = (
        c.film@,
        c.folder@,
        decimal(percent as nat),
        eta_words(c.eta_secs),
    );
    let head = "  encoding: "@;
    assert(line =~= head + film + (" ["@ + folder + "]  "@ + n + "%  "@ + eta));
    contains_what_was_put_in(head, film, " ["@ + folder + "]  "@ + n + "%  "@ + eta);
    contains_what_was_put_in(
        head + film + " "@,
        "["@ + folder + "]"@,
        "  "@ + n + "%  "@ + eta,
    );
    assert((head + film + " "@) + ("["@ + folder + "]"@) + ("  "@ + n + "%  "@ + eta) =~= line);
    let before = head + film + " ["@ + folder + "]  "@;
    contains_what_was_put_in(before, n + "%"@, "  "@ + eta);
    assert(before + (n + "%"@) + ("  "@ + eta) =~= line);
    assert(eta =~= line.subrange(line.len() - eta.len(), line.len() as int));
}

/// The parts of the line of totals.
proof fn totals_parts(status: StatusResponse, percent: u64)
    ensures
        ({
            let line = live_text(status, percent)[2];
            &&& contains(line, "queued "@ + decimal(status.pending_total as nat))
            &&& contains(line, "done "@ + decimal(status.processed as nat))
            &&& ("failed "@ + decimal(status.failed as nat)).is_suffix_of(line)
        }),
{
    reveal_strlit("  queued ");
    reveal_strlit("  ");
    reveal_strlit("queued ");
    reveal_strlit(" · done ");
    reveal_strlit(" · failed ");
    reveal_strlit(" · ");
    reveal_strlit("done ");
    reveal_strlit("failed ");
    let line = live_text(status, percent)[2];
    let (q, d, f) = (
        decimal(status.pending_total as nat),
        decimal(status.processed as nat),
        decimal(status.failed as nat),
    );
    assert("  queued "@ =~= "  "@ + "queued "@);
    assert(" · done "@ =~= " · "@ + "done "@);
    assert(" · failed "@ =~= " · "@ + "failed "@);
    contains_what_was_put_in("  "@, "queued "@ + q, " · done "@ + d + " · failed "@ + f);
    assert("  "@ + ("queued "@ + q) + (" · done "@ + d + " · failed "@ + f) =~= line);
    contains_what_was_put_in("  queued "@ + q + " · "@, "done "@ + d, " · failed "@ + f);
    assert(("  queued "@ + q + " · "@) + ("done "@ + d) + (" · failed "@ + f) =~= line);
    let end = "failed "@ + f;
    assert(end =~= line.subrange(line.len() - end.len(), line.len() as int));
}

/// What is printed of a saved queue: the file that it was read from, the job that was being encoded,
/// how many jobs wait in all, and in each folder, in order.
pub proof fn offline_lines(cfg: ResolvedConfig, queue: QueueModel, i: int)
    ensures
        offline_text(cfg, queue).len() == 3 + cfg.folders@.len(),
        contains(offline_text(cfg, queue)[0], shown(cfg.state_file@)),
        queue.in_flight is None ==> offline_text(cfg, queue)[1] == "  idle"@,
        queue.in_flight matches Some(job) ==> contains(
            offline_text(cfg, queue)[1],
            name_text(job.input_path@),
        ) && contains(offline_text(cfg, queue)[1], job.folder_name@),
        decimal(queue.pending.len()).is_suffix_of(offline_text(cfg, queue)[2]),
        0 <= i < cfg.folders@.len() ==> offline_text(cfg, queue)[3 + i] == column_line(
            cfg.folders@[i].name@,
            queued_words(pending_in(queue.pending, cfg.folders@[i].name@)),
        ),
{
    let lines = offline_text(cfg, queue);
    let file = shown(cfg.state_file@);
    contains_what_was_put_in("(daemon not reachable — reading queue file "@, file, ")"@);
    if let Some(job) = queue.in_flight {
        let (film, folder) = (name_text(job.input_path@), job.folder_name@);
        contains_what_was_put_in("  last in-flight: "@, film, " ["@ + folder + "]"@);
        assert("  last in-flight: "@ + film + (" ["@ + folder + "]"@) =~= lines[1]);
        contains_what_was_put_in("  last in-flight: "@ + film + " ["@, folder, "]"@);
    }
    let n = decimal(queue.pending.len());
    assert(n =~= lines[2].subrange(lines[2].len() - n.len(), lines[2].len() as int));
}

} // verus!
