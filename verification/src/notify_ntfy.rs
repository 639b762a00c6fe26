//! Push notifications over ntfy: what is sent, and when.

use vstd::prelude::*;
use vstd::string::*;

use crate::config::Notifications;
use crate::path::{name_text, shown};
use crate::queue::Job;
use crate::text::{
    contains, contains_what_was_put_in, cut_slashes, decimal, push_decimal, trim_end_slashes,
    without_end_slashes,
};

verus! {

/// Decides on notifications.
#[derive(Debug)]
pub struct Notifier {
    pub cfg: Notifications,
}

/// A notification to post.
#[derive(Debug)]
pub struct Push {
    pub url: String,
    pub title: String,
    pub priority: String,
    pub tags: String,
    pub body: String,
    pub token: Option<String>,
}

/// A notification goes out where notifications are on and this occasion is, and not else.
pub open spec fn notified(
    cfg: Notifications,
    occasion: bool,
    title: Seq<char>,
    priority: Seq<char>,
    tags: Seq<char>,
    body: Seq<char>,
    push: Option<Push>,
) -> bool {
    match push {
        Some(p) => {
            &&& cfg.enabled
            &&& occasion
            &&& p.url@ == without_end_slashes(cfg.server@) + "/"@ + cfg.topic@
            &&& p.title@ == title
            &&& p.priority@ == priority
            &&& p.tags@ == tags
            &&& p.body@ == body
            &&& p.token == cfg.token
        },
        None => !cfg.enabled || !occasion,
    }
}

/// The notification of a job that failed for good.
pub open spec fn failure_push(
    cfg: Notifications,
    job: Job,
    reason: Seq<char>,
    push: Option<Push>,
) -> bool {
    notified(
        cfg,
        cfg.on_failure,
        "hbwatch: encode failed"@,
        "high"@,
        "warning"@,
        job.folder_name@ + " / "@ + name_text(job.input_path@) + "\n"@ + reason,
        push,
    )
}

/// The notification of a file that is encoded.
pub open spec fn item_push(cfg: Notifications, job: Job, push: Option<Push>) -> bool {
    notified(
        cfg,
        cfg.on_item_complete,
        "hbwatch: done"@,
        "default"@,
        "white_check_mark"@,
        name_text(job.input_path@) + " → "@ + shown(job.output_path@),
        push,
    )
}

/// The notification of a queue that has become empty.
pub open spec fn drain_push(cfg: Notifications, count: u64, secs: u64, push: Option<Push>) -> bool {
    notified(
        cfg,
        cfg.on_queue_drain,
        "hbwatch: queue empty"@,
        "low"@,
        "checkered_flag"@,
        "processed "@ + decimal(count as nat) + " item(s) in "@ + decimal(secs as nat) + "s"@,
        push,
    )
}

impl Notifier {
    /// A notifier with these settings.
    pub fn new(cfg: Notifications) -> (notifier: Notifier)
        ensures
            notifier.cfg == cfg,
    {
        Notifier { cfg }
    }

    /// Tells of a job that failed for good.
    pub fn failure(&self, job: &Job, reason: &str) -> (push: Option<Push>)
        ensures
            failure_push(self.cfg, *job, reason@, push),
    {
        if !self.cfg.on_failure {
            return None;
        }
        let mut body: String = job.folder_name.clone();
        body.append(" / ");
        body.append(job.input_path.display_name().as_str());
        body.append("\n");
        body.append(reason);
        self.send("hbwatch: encode failed", "high", "warning", body)
    }

    /// Tells of a file that is encoded.
    pub fn item_complete(&self, job: &Job) -> (push: Option<Push>)
        ensures
            item_push(self.cfg, *job, push),
    {
        if !self.cfg.on_item_complete {
            return None;
        }
        let mut body: String = job.input_path.display_name();
        body.append(" → ");
        body.append(job.output_path.display().as_str());
        self.send("hbwatch: done", "default", "white_check_mark", body)
    }

    /// Tells of a queue that has become empty.
    pub fn queue_drain(&self, count: u64, secs: u64) -> (push: Option<Push>)
        ensures
            drain_push(self.cfg, count, secs, push),
    {
        if !self.cfg.on_queue_drain {
            return None;
        }
        let mut body: String = "processed ".to_owned();
        push_decimal(&mut body, count);
        body.append(" item(s) in ");
        push_decimal(&mut body, secs);
        body.append("s");
        self.send("hbwatch: queue empty", "low", "checkered_flag", body)
    }

    /// Addresses a notification, where notifications are on.
    fn send(&self, title: &str, priority: &str, tags: &str, body: String) -> (push: Option<Push>)
        ensures
            notified(self.cfg, true, title@, priority@, tags@, body@, push),
    {
        if !self.cfg.enabled {
            return None;
        }
        let mut url: String = trim_end_slashes(self.cfg.server.as_str()).to_owned();
        url.append("/");
        url.append(self.cfg.topic.as_str());
        Some(
            Push {
                url,
                title: title.to_owned(),
                priority: priority.to_owned(),
                tags: tags.to_owned(),
                body,
                token: self.cfg.token.clone(),
            },
        )
    }
}

/// A notification is sent exactly where notifications are on and this kind of it is: each kind has a
/// switch of its own.
pub proof fn switches_are_independent(
    cfg: Notifications,
    job: Job,
    reason: Seq<char>,
    count: u64,
    secs: u64,
    failure: Option<Push>,
    item: Option<Push>,
    drain: Option<Push>,
)
    requires
        failure_push(cfg, job, reason, failure),
        item_push(cfg, job, item),
        drain_push(cfg, count, secs, drain),
    ensures
        failure is Some <==> cfg.enabled && cfg.on_failure,
        item is Some <==> cfg.enabled && cfg.on_item_complete,
        drain is Some <==> cfg.enabled && cfg.on_queue_drain,
{
}

/// A notification goes to the topic on the server, with one slash between the two however the server
/// is written, and with the token that is set.
pub proof fn sent_to_the_topic(
    cfg: Notifications,
    occasion: bool,
    title: Seq<char>,
    priority: Seq<char>,
    tags: Seq<char>,
    body: Seq<char>,
    push: Push,
)
    requires
        notified(cfg, occasion, title, priority, tags, body, Some(push)),
    ensures
        push.body@ == body && push.title@ == title && push.priority@ == priority && push.tags@ == tags,
        push.token == cfg.token,
        cfg.topic@.is_suffix_of(push.url@),
        ({
            let server = push.url@.take(push.url@.len() - cfg.topic@.len() - 1);
            &&& push.url@[server.len() as int] == '/'
            &&& server.is_prefix_of(cfg.server@)
            &&& server.len() > 0 ==> server.last() != '/'
            &&& forall|i: int| server.len() <= i < cfg.server@.len() ==> #[trigger] cfg.server@[i]
                == '/'
        }),
{
    reveal_strlit("/");
    cut_slashes(cfg.server@);
    let url = push.url@;
    let server = url.take(url.len() - cfg.topic@.len() - 1);
    assert(server =~= without_end_slashes(cfg.server@));
    assert(cfg.topic@ =~= url.subrange(url.len() - cfg.topic@.len(), url.len() as int));
}

/// What a notification says names what it is about: a failure its folder, file and reason; a finished
/// file itself and its output; an empty queue how many jobs there were and how long they took. A
/// failure has the highest priority.
pub proof fn notifications_name_their_cause(
    cfg: Notifications,
    job: Job,
    reason: Seq<char>,
    count: u64,
    secs: u64,
    failure: Push,
    item: Push,
    drain: Push,
)
    requires
        failure_push(cfg, job, reason, Some(failure)),
        item_push(cfg, job, Some(item)),
        drain_push(cfg, count, secs, Some(drain)),
    ensures
        contains(failure.body@, job.folder_name@),
        contains(failure.body@, name_text(job.input_path@)),
        contains(failure.body@, reason),
        failure.priority@ == "high"@,
        contains(item.body@, name_text(job.input_path@)),
        contains(item.body@, shown(job.output_path@)),
        contains(drain.body@, decimal(count as nat)),
        contains(drain.body@, decimal(secs as nat)),
{
    let none = Seq::<char>::empty();
    let (folder, name, out) = (job.folder_name@, name_text(job.input_path@), shown(job.output_path@));
    contains_what_was_put_in(none, folder, " / "@ + name + "\n"@ + reason);
    assert(none + folder + (" / "@ + name + "\n"@ + reason) =~= failure.body@);
    contains_what_was_put_in(folder + " / "@, name, "\n"@ + reason);
    assert(folder + " / "@ + name + ("\n"@ + reason) =~= failure.body@);
    contains_what_was_put_in(folder + " / "@ + name + "\n"@, reason, none);
    assert(folder + " / "@ + name + "\n"@ + reason + none =~= failure.body@);
    contains_what_was_put_in(none, name, " → "@ + out);
    assert(none + name + (" → "@ + out) =~= item.body@);
    contains_what_was_put_in(name + " → "@, out, none);
    assert(name + " → "@ + out + none =~= item.body@);
    let (n, s) = (decimal(count as nat), decimal(secs as nat));
    contains_what_was_put_in("processed "@, n, " item(s) in "@ + s + "s"@);
    assert("processed "@ + n + (" item(s) in "@ + s + "s"@) =~= drain.body@);
    contains_what_was_put_in("processed "@ + n + " item(s) in "@, s, "s"@);
}

} // verus!
