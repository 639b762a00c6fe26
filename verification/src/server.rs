//! The embedded status server: who may read, what is served.
//!
//! Bind it to your LAN and reach it over your home VPN; do not expose it to the public internet. An
//! optional token guards the data endpoints.

use vstd::prelude::*;
use vstd::string::*;

use crate::config::Server;
use crate::queue::FolderCounts;
use crate::status::{FolderStatus, Snapshot, StatusResponse};
use crate::text::{
    contained_between, contains, contains_what_was_put_in, decimal, push_decimal, same_text,
    strip_prefix, text_view,
};

verus! {

/// Where the server listens, where it is on.
pub fn listen_addr(cfg: &Server) -> (addr: Option<String>)
    ensures
        match addr {
            Some(a) => cfg.enabled && a@ == cfg.bind@ + ":"@ + decimal(cfg.port as nat),
            None => !cfg.enabled,
        },
{
    if !cfg.enabled {
        return None;
    }
    let mut addr: String = cfg.bind.clone();
    addr.append(":");
    push_decimal(&mut addr, cfg.port as u64);
    Some(addr)
}

/// A request may read: no token is set, or the request carries it, behind `Bearer ` in its
/// authorization header or as its token parameter.
pub open spec fn may_read(
    token: Option<String>,
    authorization: Option<Seq<char>>,
    query_token: Option<Seq<char>>,
) -> bool {
    match token {
        None => true,
        Some(required) => {
            ||| authorization == Some("Bearer "@ + required@)
            ||| query_token == Some(required@)
        },
    }
}

/// Whether a request may read.
pub fn authorized(
    token: &Option<String>,
    authorization: Option<&str>,
    query_token: Option<&str>,
) -> (allowed: bool)
    ensures
        allowed == may_read(*token, text_view(authorization), text_view(query_token)),
{
    let required: &str = match token {
        None => {
            return true;
        },
        Some(required) => required.as_str(),
    };
    let from_header: bool = match authorization {
        Some(header) => match strip_prefix(header, "Bearer ") {
            Some(given) => {
                proof {
                    assert(header@ =~= "Bearer "@ + given@);
                    if header@ == "Bearer "@ + required@ {
                        assert(given@ =~= required@);
                    }
                }
                same_text(given, required)
            },
            None => {
                proof {
                    if header@ == "Bearer "@ + required@ {
                        assert("Bearer "@ =~= header@.subrange(0, "Bearer "@.len() as int));
                    }
                }
                false
            },
        },
        None => false,
    };
    let from_query: bool = match query_token {
        Some(given) => same_text(given, required),
        None => false,
    };
    from_header || from_query
}

/// A folder's live state is told as it is.
pub open spec fn folder_told(
    name: Seq<char>,
    counts: FolderCounts,
    snapshot: Snapshot,
    status: FolderStatus,
) -> bool {
    &&& status.name@ == name
    &&& status.pending == counts.of(name)
    &&& status.encoding == (snapshot.current matches Some(current) && current.folder@ == name)
}

/// The status payload: the snapshot, the jobs that wait in all, and each folder in order.
pub open spec fn status_of(
    snapshot: Snapshot,
    counts: FolderCounts,
    folders: Seq<String>,
    status: StatusResponse,
) -> bool {
    &&& status.uptime_secs == snapshot.uptime_secs
    &&& status.processed == snapshot.processed
    &&& status.failed == snapshot.failed
    &&& status.pending_total == counts.sum()
    &&& status.current == snapshot.current
    &&& status.folders@.len() == folders.len()
    &&& forall|i: int|
        0 <= i < folders.len() ==> folder_told(
            folders[i]@,
            counts,
            snapshot,
            #[trigger] status.folders@[i],
        )
}

/// Builds the status payload.
pub fn build_status(snapshot: Snapshot, counts: &FolderCounts, folders: &Vec<String>) -> (status:
    StatusResponse)
    ensures
        status_of(snapshot, *counts, folders@, status),
{
    let mut list: Vec<FolderStatus> = Vec::new();
    let len: usize = folders.len();
    for i in 0..len
        invariant
            len == folders@.len(),
            list@.len() == i,
            forall|j: int|
                0 <= j < i ==> folder_told(folders@[j]@, *counts, snapshot, #[trigger] list@[j]),
    {
        let name: &String = &folders[i];
        let encoding: bool = match &snapshot.current {
            Some(current) => same_text(current.folder.as_str(), name.as_str()),
            None => false,
        };
        list.push(
            FolderStatus { name: name.clone(), pending: counts.get(name.as_str()), encoding },
        );
    }
    StatusResponse {
        uptime_secs: snapshot.uptime_secs,
        processed: snapshot.processed,
        failed: snapshot.failed,
        pending_total: counts.total(),
        current: snapshot.current,
        folders: list,
    }
}

/// The status payload, for a request that may read it.
pub fn status_json(
    token: &Option<String>,
    authorization: Option<&str>,
    query_token: Option<&str>,
    snapshot: Snapshot,
    counts: &FolderCounts,
    folders: &Vec<String>,
) -> (answer: Option<StatusResponse>)
    ensures
        match answer {
            Some(status) => may_read(*token, text_view(authorization), text_view(query_token))
                && status_of(snapshot, *counts, folders@, status),
            None => !may_read(*token, text_view(authorization), text_view(query_token)),
        },
{
    if authorized(token, authorization, query_token) {
        Some(build_status(snapshot, counts, folders))
    } else {
        None
    }
}

/// The metric of one folder.
pub open spec fn folder_metric(folder: FolderStatus) -> Seq<char> {
    "hbwatch_queue_pending{folder=\""@ + folder.name@ + "\"} "@ + decimal(folder.pending as nat)
        + "\n"@
}

/// The metrics of some folders, one behind the other.
pub open spec fn folder_metrics(folders: Seq<FolderStatus>) -> Seq<char>
    decreases folders.len(),
{
    if folders.len() == 0 {
        Seq::empty()
    } else {
        folder_metrics(folders.drop_last()) + folder_metric(folders.last())
    }
}

/// The status in the Prometheus text format. `progress` is the fraction done of the active encode.
pub open spec fn metrics_text(status: StatusResponse, progress: Seq<char>) -> Seq<char> {
    "# HELP hbwatch_uptime_seconds Daemon uptime.\n"@ + "hbwatch_uptime_seconds "@ + decimal(
        status.uptime_secs as nat,
    ) + "\n"@ + "# HELP hbwatch_processed_total Successful encodes.\n"@
        + "hbwatch_processed_total "@ + decimal(status.processed as nat) + "\n"@
        + "# HELP hbwatch_failed_total Permanently failed encodes.\n"@ + "hbwatch_failed_total "@
        + decimal(status.failed as nat) + "\n"@
        + "# HELP hbwatch_queue_pending Jobs waiting per folder.\n"@ + folder_metrics(
        status.folders@,
    ) + "# HELP hbwatch_current_progress Progress of the active encode (0-1).\n"@
        + "hbwatch_current_progress "@ + progress + "\n"@
}

/// Renders the status in the Prometheus text format. `progress` is the fraction done of the active
/// encode, as a number in text.
pub fn render_metrics(status: &StatusResponse, progress: &str) -> (text: String)
    ensures
        text@ == metrics_text(*status, progress@),
{
    let mut out: String = String::new();
    out.append("# HELP hbwatch_uptime_seconds Daemon uptime.\n");
    out.append("hbwatch_uptime_seconds ");
    push_decimal(&mut out, status.uptime_secs);
    out.append("\n");
    out.append("# HELP hbwatch_processed_total Successful encodes.\n");
    out.append("hbwatch_processed_total ");
    push_decimal(&mut out, status.processed);
    out.append("\n");
    out.append("# HELP hbwatch_failed_total Permanently failed encodes.\n");
    out.append("hbwatch_failed_total ");
    push_decimal(&mut out, status.failed);
    out.append("\n");
    out.append("# HELP hbwatch_queue_pending Jobs waiting per folder.\n");
    let len: usize = status.folders.len();
    let ghost head = out@;
    let ghost all = status.folders@;
    assert(out@ =~= head + folder_metrics(all.take(0)));
    for i in 0..len
        invariant
            len == status.folders@.len(),
            all == status.folders@,
            out@ == head + folder_metrics(all.take(i as int)),
    {
        let folder: &FolderStatus = &status.folders[i];
        out.append("hbwatch_queue_pending{folder=\"");
        out.append(folder.name.as_str());
        out.append("\"} ");
        push_decimal(&mut out, folder.pending as u64);
        out.append("\n");
        assert(all.take(i + 1).drop_last() =~= all.take(i as int));
        assert(out@ =~= head + folder_metrics(all.take(i + 1)));
    }
    assert(all.take(len as int) =~= all);
    out.append("# HELP hbwatch_current_progress Progress of the active encode (0-1).\n");
    out.append("hbwatch_current_progress ");
    out.append(progress);
    out.append("\n");
    assert(head =~= "# HELP hbwatch_uptime_seconds Daemon uptime.\n"@ + "hbwatch_uptime_seconds "@
        + decimal(status.uptime_secs as nat) + "\n"@
        + "# HELP hbwatch_processed_total Successful encodes.\n"@ + "hbwatch_processed_total "@
        + decimal(status.processed as nat) + "\n"@
        + "# HELP hbwatch_failed_total Permanently failed encodes.\n"@ + "hbwatch_failed_total "@
        + decimal(status.failed as nat) + "\n"@
        + "# HELP hbwatch_queue_pending Jobs waiting per folder.\n"@);
    out
}

/// The metrics, for a request that may read them.
pub fn metrics(
    token: &Option<String>,
    authorization: Option<&str>,
    query_token: Option<&str>,
    snapshot: Snapshot,
    counts: &FolderCounts,
    folders: &Vec<String>,
    progress: &str,
) -> (answer: Option<String>)
    ensures
        match answer {
            Some(text) => {
                &&& may_read(*token, text_view(authorization), text_view(query_token))
                &&& exists|status: StatusResponse|
                    {
                        &&& #[trigger] status_of(snapshot, *counts, folders@, status)
                        &&& text@ == metrics_text(status, progress@)
                    }
            },
            None => !may_read(*token, text_view(authorization), text_view(query_token)),
        },
{
    if authorized(token, authorization, query_token) {
        let status: StatusResponse = build_status(snapshot, counts, folders);
        Some(render_metrics(&status, progress))
    } else {
        None
    }
}

/// Where a token is set, a request that does not carry it is refused.
pub proof fn token_guards(
    required: String,
    authorization: Option<Seq<char>>,
    query_token: Option<Seq<char>>,
)
    requires
        authorization != Some("Bearer "@ + required@),
        query_token != Some(required@),
    ensures
        !may_read(Some(required), authorization, query_token),
{
}

/// A request may read where no token is set, whatever it carries, and where it carries the token that
/// is set in either way, whatever it carries in the other.
pub proof fn token_opens(
    required: String,
    authorization: Option<Seq<char>>,
    query_token: Option<Seq<char>>,
)
    ensures
        may_read(None, authorization, query_token),
        may_read(Some(required), Some("Bearer "@ + required@), query_token),
        may_read(Some(required), authorization, Some(required@)),
{
}

/// The status payload shows the snapshot, and has one entry for each folder, in order: with its name,
/// the number of its jobs that wait, and whether the current film is its own.
pub proof fn status_shows_each_folder(
    snapshot: Snapshot,
    counts: FolderCounts,
    folders: Seq<String>,
    status: StatusResponse,
    i: int,
)
    requires
        status_of(snapshot, counts, folders, status),
        0 <= i < folders.len(),
    ensures
        status.folders@.len() == folders.len(),
        status.folders@[i].name@ == folders[i]@,
        status.folders@[i].pending == counts.of(folders[i]@),
        status.folders@[i].encoding <==> snapshot.current is Some && snapshot.current->0.folder@
            == folders[i]@,
        status.pending_total == counts.sum(),
        status.uptime_secs == snapshot.uptime_secs,
        status.processed == snapshot.processed && status.failed == snapshot.failed,
        status.current == snapshot.current,
{
    assert(folder_told(folders[i]@, counts, snapshot, status.folders@[i]));
}

/// The metrics of each folder stand in those of all of them.
proof fn metric_among(folders: Seq<FolderStatus>, i: int)
    requires
        0 <= i < folders.len(),
    ensures
        contains(folder_metrics(folders), folder_metric(folders[i])),
    decreases folders.len(),
{
    let less = folders.drop_last();
    let (head, last) = (folder_metrics(less), folder_metric(folders.last()));
    let none = Seq::<char>::empty();
    if i == folders.len() - 1 {
        contains_what_was_put_in(head, last, none);
        assert(head + last + none =~= folder_metrics(folders));
    } else {
        metric_among(less, i);
        assert(less[i] == folders[i]);
        let own = folder_metric(folders[i]);
        contained_between(head, own);
        let (a, b) = choose|a: Seq<char>, b: Seq<char>| head == #[trigger] (a + own + b);
        contains_what_was_put_in(a, own, b + last);
        assert(a + own + (b + last) =~= folder_metrics(folders));
    }
}

/// The metrics hold, each up to the end of its line, how long the daemon has run, how many encodes it
/// finished and how many failed for good, the jobs that wait in each folder, and the progress.
pub proof fn metrics_hold_each_number(status: StatusResponse, progress: Seq<char>, i: int)
    requires
        0 <= i < status.folders@.len(),
    ensures
        contains(
            metrics_text(status, progress),
            "hbwatch_uptime_seconds "@ + decimal(status.uptime_secs as nat) + "\n"@,
        ),
        contains(
            metrics_text(status, progress),
            "hbwatch_processed_total "@ + decimal(status.processed as nat) + "\n"@,
        ),
        contains(
            metrics_text(status, progress),
            "hbwatch_failed_total "@ + decimal(status.failed as nat) + "\n"@,
        ),
        contains(
            metrics_text(status, progress),
            "hbwatch_queue_pending{folder=\""@ + status.folders@[i].name@ + "\"} "@ + decimal(
                status.folders@[i].pending as nat,
            ) + "\n"@,
        ),
        ("hbwatch_current_progress "@ + progress + "\n"@).is_suffix_of(
            metrics_text(status, progress),
        ),
{
    let text = metrics_text(status, progress);
    let end = "\n"@;
    let l1 = "hbwatch_uptime_seconds "@ + decimal(status.uptime_secs as nat) + end;
    let l2 = "hbwatch_processed_total "@ + decimal(status.processed as nat) + end;
    let l3 = "hbwatch_failed_total "@ + decimal(status.failed as nat) + end;
    let l4 = folder_metrics(status.folders@);
    let l5 = "hbwatch_current_progress "@ + progress + end;
    let h1 = "# HELP hbwatch_uptime_seconds Daemon uptime.\n"@;
    let h2 = "# HELP hbwatch_processed_total Successful encodes.\n"@;
    let h3 = "# HELP hbwatch_failed_total Permanently failed encodes.\n"@;
    let h4 = "# HELP hbwatch_queue_pending Jobs waiting per folder.\n"@;
    let h5 = "# HELP hbwatch_current_progress Progress of the active encode (0-1).\n"@;
    assert(text =~= h1 + l1 + h2 + l2 + h3 + l3 + h4 + l4 + h5 + l5);
    metric_among(status.folders@, i);
    five_parts(h1, l1, h2, l2, h3, l3, h4, l4, h5, l5, folder_metric(status.folders@[i]));
}

/// What stands in one of five parts stands in the whole.
proof fn five_parts(
    h1: Seq<char>,
    l1: Seq<char>,
    h2: Seq<char>,
    l2: Seq<char>,
    h3: Seq<char>,
    l3: Seq<char>,
    h4: Seq<char>,
    l4: Seq<char>,
    h5: Seq<char>,
    l5: Seq<char>,
    own: Seq<char>,
)
    requires
        contains(l4, own),
    ensures
        ({
            let text = h1 + l1 + h2 + l2 + h3 + l3 + h4 + l4 + h5 + l5;
            &&& contains(text, l1)
            &&& contains(text, l2)
            &&& contains(text, l3)
            &&& contains(text, own)
            &&& l5.is_suffix_of(text)
        }),
{
    let text = h1 + l1 + h2 + l2 + h3 + l3 + h4 + l4 + h5 + l5;
    contains_what_was_put_in(h1, l1, h2 + l2 + h3 + l3 + h4 + l4 + h5 + l5);
    assert(h1 + l1 + (h2 + l2 + h3 + l3 + h4 + l4 + h5 + l5) =~= text);
    contains_what_was_put_in(h1 + l1 + h2, l2, h3 + l3 + h4 + l4 + h5 + l5);
    assert(h1 + l1 + h2 + l2 + (h3 + l3 + h4 + l4 + h5 + l5) =~= text);
    contains_what_was_put_in(h1 + l1 + h2 + l2 + h3, l3, h4 + l4 + h5 + l5);
    assert(h1 + l1 + h2 + l2 + h3 + l3 + (h4 + l4 + h5 + l5) =~= text);
    contained_between(l4, own);
    let (a, b) = choose|a: Seq<char>, b: Seq<char>| l4 == #[trigger] (a + own + b);
    let head = h1 + l1 + h2 + l2 + h3 + l3 + h4;
    contains_what_was_put_in(head + a, own, b + h5 + l5);
    assert((head + a) + own + (b + h5 + l5) =~= text);
    assert(l5 =~= text.subrange(text.len() - l5.len(), text.len() as int));
}

} // verus!
