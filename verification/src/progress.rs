//! The texts of the progress display.

use vstd::prelude::*;
use vstd::string::*;
use vstd::utf8::*;

use crate::queue::FolderCounts;
use crate::text::{
    contains, contains_what_was_put_in, decimal, decimal_padded, push_decimal, push_decimal_padded,
    same_text,
};

verus! {

/// The folder and the film being encoded.
#[derive(Debug)]
pub struct Current {
    pub folder: Option<String>,
    pub film: Option<String>,
}

impl Default for Current {
    fn default() -> (current: Self)
        ensures
            current == (Current { folder: None, film: None }),
    {
        Current { folder: None, film: None }
    }
}

/// How many jobs wait, in words.
pub open spec fn queued_words(pending: nat) -> Seq<char> {
    if pending == 0 {
        "idle"@
    } else {
        decimal(pending) + " queued"@
    }
}

/// How many jobs wait, in words.
pub fn queued_text(pending: usize) -> (text: String)
    ensures
        text@ == queued_words(pending as nat),
{
    if pending == 0 {
        return "idle".to_owned();
    }
    let mut out: String = String::new();
    push_decimal(&mut out, pending as u64);
    out.append(" queued");
    out
}

/// The line of a folder: what is being encoded from it, and how many of its jobs wait.
pub open spec fn folder_line(name: Seq<char>, pending: nat, current: Current) -> Seq<char> {
    if current.folder matches Some(folder) && folder@ == name {
        let film = match current.film {
            Some(film) => film@,
            None => Seq::empty(),
        };
        "encoding "@ + film + " ("@ + decimal(pending) + " queued)"@
    } else {
        queued_words(pending)
    }
}

/// The line of a folder.
pub fn folder_message(name: &str, counts: &FolderCounts, current: &Current) -> (line: String)
    ensures
        line@ == folder_line(name@, counts.of(name@), *current),
{
    let pending: usize = counts.get(name);
    let encoding: bool = match &current.folder {
        Some(folder) => same_text(folder.as_str(), name),
        None => false,
    };
    if !encoding {
        return queued_text(pending);
    }
    let mut out: String = "encoding ".to_owned();
    if let Some(film) = &current.film {
        out.append(film.as_str());
    }
    out.append(" (");
    push_decimal(&mut out, pending as u64);
    out.append(" queued)");
    assert(out@ =~= folder_line(name@, counts.of(name@), *current));
    out
}

/// A duration in minutes and seconds, where there is one.
pub open spec fn eta_words(eta: Option<i64>) -> Seq<char> {
    match eta {
        Some(s) => if s > 0 {
            decimal((s / 60) as nat) + "m"@ + decimal_padded((s % 60) as nat) + "s"@
        } else {
            "--"@
        },
        None => "--"@,
    }
}

/// A duration in minutes and seconds, where there is one.
pub fn fmt_eta(eta: Option<i64>) -> (text: String)
    ensures
        text@ == eta_words(eta),
{
    match eta {
        Some(s) => if s > 0 {
            let secs: u64 = s as u64;
            let mut out: String = String::new();
            push_decimal(&mut out, secs / 60);
            out.append("m");
            push_decimal_padded(&mut out, secs % 60);
            out.append("s");
            out
        } else {
            "--".to_owned()
        },
        None => "--".to_owned(),
    }
}

/// `str::to_lowercase` on a text that is not all ASCII.
pub uninterp spec fn unicode_lowercase(text: Seq<char>) -> Seq<char>;

/// A character with an upper-case ASCII letter in lower case.
pub open spec fn ascii_lowercase(c: char) -> char {
    if 'A' <= c <= 'Z' {
        (c as u32 + 32) as char
    } else {
        c
    }
}

/// A text in lower case.
pub open spec fn lowercased(text: Seq<char>) -> Seq<char> {
    if is_ascii_chars(text) {
        text.map_values(|c: char| ascii_lowercase(c))
    } else {
        unicode_lowercase(text)
    }
}

/// `str::to_lowercase`: upper-case letters become lower-case ones. Of letters beyond ASCII, which
/// Unicode maps, nothing more is stated.
pub assume_specification[ str::to_lowercase ](text: &str) -> (lower: String)
    ensures
        lower@ == (if is_ascii_chars(text@) {
            text@.map_values(|c: char| ascii_lowercase(c))
        } else {
            unicode_lowercase(text@)
        }),
;

/// What is told of an encode: the time left and the speed while it works, else its state.
pub fn tick_message(state: &str, eta: Option<i64>, fps: &str) -> (message: String)
    ensures
        message@ == if state@ == "WORKING"@ {
            "ETA "@ + eta_words(eta) + " "@ + fps@
        } else {
            lowercased(state@)
        },
{
    if same_text(state, "WORKING") {
        let mut out: String = "ETA ".to_owned();
        out.append(fmt_eta(eta).as_str());
        out.append(" ");
        out.append(fps);
        out
    } else {
        state.to_lowercase()
    }
}

/// A text cut to a number of characters, the last of which then tells of the cut.
pub open spec fn cut(s: Seq<char>, max: nat) -> Seq<char> {
    if s.len() > max {
        s.take(max - 1) + "…"@
    } else {
        s
    }
}

/// Cuts a text to a number of characters.
pub fn truncate(s: &str, max: usize) -> (short: String)
    requires
        max > 0 || s@.len() == 0,
    ensures
        short@ == cut(s@, max as nat),
{
    if s.unicode_len() > max {
        let mut out: String = s.substring_char(0, max - 1).to_owned();
        out.append("…");
        assert(s@.subrange(0, max - 1) =~= s@.take(max - 1));
        out
    } else {
        s.to_owned()
    }
}

/// The overall bar: how long it is, and what it says.
#[derive(Debug)]
pub struct Overall {
    pub total: u64,
    pub message: String,
}

/// The overall bar when a job starts: the jobs finished, this one, and those that wait.
pub fn overall(completed: u64, pending: usize) -> (bar: Overall)
    requires
        completed + 1 + pending <= u64::MAX,
    ensures
        bar.total == completed + 1 + pending,
        bar.message@ == decimal((completed + 1) as nat) + "/"@ + decimal(bar.total as nat),
{
    let total: u64 = completed + 1 + pending as u64;
    let mut message: String = String::new();
    push_decimal(&mut message, completed + 1);
    message.append("/");
    push_decimal(&mut message, total);
    Overall { total, message }
}

/// A folder without jobs that wait is idle, and one with any says how many.
pub proof fn queued_words_count(pending: nat)
    ensures
        queued_words(0) == "idle"@,
        pending > 0 ==> contains(queued_words(pending), decimal(pending)),
{
    if pending > 0 {
        let none = Seq::<char>::empty();
        contains_what_was_put_in(none, decimal(pending), " queued"@);
        assert(none + decimal(pending) + " queued"@ =~= queued_words(pending));
    }
}

/// The line of a folder tells of the film where, and only where, it is this folder's; and always how
/// many of the folder's jobs wait, but for an idle one.
pub proof fn folder_lines_tell_the_film(name: Seq<char>, pending: nat, current: Current)
    ensures
        !(current.folder matches Some(folder) && folder@ == name) ==> folder_line(
            name,
            pending,
            current,
        ) == queued_words(pending),
        current.folder matches Some(folder) ==> folder@ == name ==> {
            &&& "encoding "@.is_prefix_of(folder_line(name, pending, current))
            &&& contains(folder_line(name, pending, current), decimal(pending))
            &&& current.film matches Some(film) ==> contains(
                folder_line(name, pending, current),
                film@,
            )
        },
{
    if current.folder matches Some(folder) && folder@ == name {
        let film = match current.film {
            Some(film) => film@,
            None => Seq::empty(),
        };
        let line = folder_line(name, pending, current);
        let n = decimal(pending);
        assert("encoding "@ =~= line.subrange(0, "encoding "@.len() as int));
        contains_what_was_put_in("encoding "@, film, " ("@ + n + " queued)"@);
        assert("encoding "@ + film + (" ("@ + n + " queued)"@) =~= line);
        contains_what_was_put_in("encoding "@ + film + " ("@, n, " queued)"@);
    }
}

/// The time left is given in whole minutes and the seconds over, which together make it; a time that
/// is not known or has run out is not given.
pub proof fn eta_adds_up(secs: i64, none: Option<i64>)
    ensures
        secs > 0 ==> exists|m: nat, s: nat|
            {
                &&& 60 * m + s == secs
                &&& s < 60
                &&& eta_words(Some(secs)) == #[trigger] (decimal(m) + "m"@) + #[trigger] (
                decimal_padded(s)) + "s"@
            },
        secs <= 0 ==> eta_words(Some(secs)) == "--"@,
        none is None ==> eta_words(none) == "--"@,
{
    if secs > 0 {
        let (m, s) = ((secs / 60) as nat, (secs % 60) as nat);
        assert(60 * m + s == secs);
        assert(eta_words(Some(secs)) == (decimal(m) + "m"@) + decimal_padded(s) + "s"@);
    }
}

/// A cut text is no longer than asked for, starts as the text does, and tells of the cut; a text that
/// is short enough stays as it is.
pub proof fn cut_is_short(s: Seq<char>, max: nat)
    requires
        max > 0,
    ensures
        cut(s, max).len() <= max,
        s.len() <= max ==> cut(s, max) == s,
        s.len() > max ==> cut(s, max).len() == max && cut(s, max).last() == '…' && cut(
            s,
            max,
        ).drop_last().is_prefix_of(s),
{
    reveal_strlit("…");
    if s.len() > max {
        let short = cut(s, max);
        assert(short.drop_last() =~= s.subrange(0, max - 1));
    }
}

/// Lower case changes the letters from `A` to `Z` in ASCII text, each to its own small letter, and
/// nothing else.
pub proof fn lower_case_of_ascii(text: Seq<char>)
    requires
        is_ascii_chars(text),
    ensures
        lowercased(text).len() == text.len(),
        forall|i: int|
            0 <= i < text.len() ==> {
                &&& 'A' <= #[trigger] text[i] <= 'Z' ==> lowercased(text)[i] as u32 == text[i] as u32
                    + 32
                &&& !('A' <= text[i] <= 'Z') ==> lowercased(text)[i] == text[i]
            },
{
}

} // verus!
