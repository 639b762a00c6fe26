//! The encoder's command line, and whether an encode genuinely succeeded.

use vstd::prelude::*;
use vstd::string::*;
use vstd::utf8::*;

use crate::config::Settings;
use crate::path::{lossy_text, shown, views, FilePath};
use crate::queue::Job;
use crate::text::{
    contained_between, contains, contains_text, contains_what_was_put_in, decimal, push_decimal,
    push_signed_decimal, same_text, signed_decimal,
};

verus! {

/// Why an encode does not count as done.
#[derive(Debug)]
pub enum EncodeError {
    /// The encoder could not be started.
    NotStarted { program: String },
    /// The encoder could not be waited for.
    NotWaited { cause: String },
    /// The encoder took too long.
    TimedOut { secs: u64 },
    /// The encoder ended with an error.
    BadExit { code: Option<i32> },
    /// There is no output.
    NoOutput,
    /// The output is too small to be a film.
    TooSmall { len: u64, min: u64 },
    /// The encoder wrote of a failure.
    Reported,
    /// The encoder's last word on its work is an error.
    WorkError { error: i64 },
}

impl EncodeError {
    /// What the error says.
    pub open spec fn text(self) -> Seq<char> {
        match self {
            EncodeError::NotStarted { program } => "failed to spawn "@ + program@,
            EncodeError::NotWaited { cause } => cause@,
            EncodeError::TimedOut { secs } => "encode timed out after "@ + decimal(secs as nat)
                + "s"@,
            EncodeError::BadExit { code: Some(code) } => "HandBrakeCLI exited with status Some("@
                + signed_decimal(code as int) + ")"@,
            EncodeError::BadExit { code: None } => "HandBrakeCLI exited with status None"@,
            EncodeError::NoOutput => "output file missing after encode"@,
            EncodeError::TooSmall { len, min } => "output too small: "@ + decimal(len as nat)
                + " bytes (min "@ + decimal(min as nat) + ")"@,
            EncodeError::Reported => "HandBrakeCLI reported a failure in its output"@,
            EncodeError::WorkError { error } => "HandBrakeCLI reported error "@ + signed_decimal(
                error as int,
            ),
        }
    }

    /// What the error says.
    pub fn message(&self) -> (message: String)
        ensures
            message@ == self.text(),
    {
        match self {
            EncodeError::NotStarted { program } => {
                let mut out: String = "failed to spawn ".to_owned();
                out.append(program.as_str());
                out
            },
            EncodeError::NotWaited { cause } => cause.clone(),
            EncodeError::TimedOut { secs } => {
                let mut out: String = "encode timed out after ".to_owned();
                push_decimal(&mut out, *secs);
                out.append("s");
                out
            },
            EncodeError::BadExit { code: Some(code) } => {
                let mut out: String = "HandBrakeCLI exited with status Some(".to_owned();
                push_signed_decimal(&mut out, *code as i64);
                out.append(")");
                out
            },
            EncodeError::BadExit { code: None } => "HandBrakeCLI exited with status None".to_owned(),
            EncodeError::NoOutput => "output file missing after encode".to_owned(),
            EncodeError::TooSmall { len, min } => {
                let mut out: String = "output too small: ".to_owned();
                push_decimal(&mut out, *len);
                out.append(" bytes (min ");
                push_decimal(&mut out, *min);
                out.append(")");
                out
            },
            EncodeError::Reported => "HandBrakeCLI reported a failure in its output".to_owned(),
            EncodeError::WorkError { error } => {
                let mut out: String = "HandBrakeCLI reported error ".to_owned();
                push_signed_decimal(&mut out, *error);
                out
            },
        }
    }
}

/// The arguments for the encoder: the preset file and the preset in it, the input, the temporary
/// output, and that its progress is written as JSON.
pub open spec fn arguments(job: Job, temp: Seq<u8>) -> Seq<Seq<u8>> {
    seq![
        encode_utf8("--preset-import-file"@),
        job.preset_file@,
        encode_utf8("-Z"@),
        encode_utf8(job.preset_name@),
        encode_utf8("-i"@),
        job.input_path@,
        encode_utf8("-o"@),
        temp,
        encode_utf8("--json"@),
    ]
}

/// The arguments for the encoder.
pub fn command_args(job: &Job, temp: &FilePath) -> (args: Vec<Vec<u8>>)
    ensures
        views(args@) == arguments(*job, temp@),
{
    let args: Vec<Vec<u8>> = vec![
        "--preset-import-file".as_bytes_vec(),
        vstd::slice::slice_to_vec(job.preset_file.as_bytes()),
        "-Z".as_bytes_vec(),
        job.preset_name.as_str().as_bytes_vec(),
        "-i".as_bytes_vec(),
        vstd::slice::slice_to_vec(job.input_path.as_bytes()),
        "-o".as_bytes_vec(),
        vstd::slice::slice_to_vec(temp.as_bytes()),
        "--json".as_bytes_vec(),
    ];
    assert(views(args@) =~= arguments(*job, temp@));
    args
}

/// How long an encode may take: without end where the setting is zero.
pub fn time_limit(timeout_secs: u64) -> (limit: Option<u64>)
    ensures
        limit == if timeout_secs == 0 {
            None
        } else {
            Some(timeout_secs)
        },
{
    if timeout_secs == 0 {
        None
    } else {
        Some(timeout_secs)
    }
}

/// The encoder's output tells of a failure.
pub open spec fn failure_marked(output: Seq<char>) -> bool {
    contains(output, "Encode failed"@) || contains(output, "Error:"@)
}

/// Whether the encoder's output tells of a failure.
pub fn has_failure_marker(stderr: &str) -> (failed: bool)
    ensures
        failed == failure_marked(stderr@),
{
    contains_text(stderr, "Encode failed") || contains_text(stderr, "Error:")
}

/// What the end of an encode comes to, the first thing that is wrong first.
pub open spec fn verdict(
    min_output_bytes: u64,
    success: bool,
    code: Option<i32>,
    output_len: Option<u64>,
    stderr: Seq<char>,
    work_error: Option<i64>,
) -> Result<(), EncodeError> {
    if !success {
        Err(EncodeError::BadExit { code })
    } else {
        match output_len {
            None => Err(EncodeError::NoOutput),
            Some(len) => if len < min_output_bytes {
                Err(EncodeError::TooSmall { len, min: min_output_bytes })
            } else if failure_marked(stderr) {
                Err(EncodeError::Reported)
            } else if work_error is Some && work_error->0 != 0 {
                Err(EncodeError::WorkError { error: work_error->0 })
            } else {
                Ok(())
            },
        }
    }
}

/// Whether an encode genuinely succeeded: the encoder ended well, the output is there and large
/// enough, and nothing that the encoder wrote tells of a failure. `work_error` is the error that its
/// last report on finished work gives, zero for none.
pub fn verify(
    settings: &Settings,
    success: bool,
    code: Option<i32>,
    output_len: Option<u64>,
    stderr: &[u8],
    work_error: Option<i64>,
) -> (result: Result<(), EncodeError>)
    ensures
        result == verdict(
            settings.min_output_bytes,
            success,
            code,
            output_len,
            shown(stderr@),
            work_error,
        ),
        result is Ok <==> {
            &&& success
            &&& output_len is Some
            &&& output_len->0 >= settings.min_output_bytes
            &&& !failure_marked(shown(stderr@))
            &&& work_error is None || work_error->0 == 0
        },
{
    if !success {
        return Err(EncodeError::BadExit { code });
    }
    let len: u64 = match output_len {
        Some(len) => len,
        None => {
            return Err(EncodeError::NoOutput);
        },
    };
    if len < settings.min_output_bytes {
        return Err(EncodeError::TooSmall { len, min: settings.min_output_bytes });
    }
    if has_failure_marker(lossy_text(stderr).as_str()) {
        return Err(EncodeError::Reported);
    }
    match work_error {
        Some(error) if error != 0 => Err(EncodeError::WorkError { error }),
        _ => Ok(()),
    }
}

/// Where a reader of the encoder's output stands behind a line, and the block that the line closed.
/// A block opens with a line that names it and holds its opening brace, and ends with a closing brace
/// on a line of its own.
pub open spec fn behind_line(open: Option<Seq<char>>, line: Seq<char>) -> (
    Option<Seq<char>>,
    Option<Seq<char>>,
) {
    match open {
        None => if line == "Progress: {"@ {
            (Some("{"@), None)
        } else {
            (None, None)
        },
        Some(block) => {
            let longer = block + "\n"@ + line;
            if line == "}"@ {
                (None, Some(longer))
            } else {
                (Some(longer), None)
            }
        },
    }
}

/// Where a reader that starts between two blocks stands behind some lines.
pub open spec fn behind_lines(lines: Seq<Seq<char>>) -> Option<Seq<char>>
    decreases lines.len(),
{
    if lines.len() == 0 {
        None
    } else {
        behind_line(behind_lines(lines.drop_last()), lines.last()).0
    }
}

/// Takes the blocks of progress out of the encoder's output, line by line.
#[derive(Debug)]
pub struct ProgressReader {
    block: Option<String>,
}

impl View for ProgressReader {
    type V = Option<Seq<char>>;

    closed spec fn view(&self) -> Option<Seq<char>> {
        match self.block {
            Some(block) => Some(block@),
            None => None,
        }
    }
}

impl ProgressReader {
    /// A reader between two blocks.
    pub fn new() -> (reader: ProgressReader)
        ensures
            reader@ is None,
    {
        ProgressReader { block: None }
    }

    /// Reads a line, and gives the block that it closes, if it does.
    pub fn feed(&mut self, line: &str) -> (block: Option<String>)
        ensures
            final(self)@ == behind_line(old(self)@, line@).0,
            behind_line(old(self)@, line@).1 == match block {
                Some(block) => Some(block@),
                None => None,
            },
    {
        match self.block.take() {
            None => {
                if same_text(line, "Progress: {") {
                    self.block = Some("{".to_owned());
                }
                None
            },
            Some(mut block) => {
                block.append("\n");
                block.append(line);
                if same_text(line, "}") {
                    return Some(block);
                }
                self.block = Some(block);
                None
            },
        }
    }
}

/// Lines with line breaks between them.
pub open spec fn joined_lines(lines: Seq<Seq<char>>) -> Seq<char>
    decreases lines.len(),
{
    if lines.len() == 0 {
        Seq::empty()
    } else if lines.len() == 1 {
        lines[0]
    } else {
        joined_lines(lines.drop_last()) + "\n"@ + lines.last()
    }
}

/// A block comes out as it was written, however many lines it has: behind its opening line and the
/// lines in it, the reader holds just those, and the closing line gives them back with itself.
pub proof fn block_comes_back(inner: Seq<Seq<char>>)
    requires
        forall|i: int| 0 <= i < inner.len() ==> #[trigger] inner[i] != "}"@,
    ensures
        behind_lines(seq!["Progress: {"@] + inner) == Some(joined_lines(seq!["{"@] + inner)),
        behind_line(behind_lines(seq!["Progress: {"@] + inner), "}"@) == (
            None::<Seq<char>>,
            Some(joined_lines(seq!["{"@] + inner + seq!["}"@])),
        ),
    decreases inner.len(),
{
    let lines = seq!["Progress: {"@] + inner;
    let block = seq!["{"@] + inner;
    if inner.len() == 0 {
        assert(lines.drop_last() =~= Seq::empty());
        assert(behind_lines(lines.drop_last()) is None);
        assert(lines.last() == "Progress: {"@);
    } else {
        block_comes_back(inner.drop_last());
        assert(lines.drop_last() =~= seq!["Progress: {"@] + inner.drop_last());
        assert(block.drop_last() =~= seq!["{"@] + inner.drop_last());
        assert(lines.last() == inner.last());
        assert(block.last() == inner.last());
        assert(inner[inner.len() - 1] != "}"@);
        assert(joined_lines(block) == joined_lines(block.drop_last()) + "\n"@ + block.last());
    }
    let whole = block + seq!["}"@];
    assert(whole.drop_last() =~= block);
    assert(whole.last() == "}"@);
    assert(joined_lines(whole) == joined_lines(block) + "\n"@ + "}"@);
}

/// A marker of failure counts wherever it stands in the output, and nothing else counts.
pub proof fn failure_marked_anywhere(a: Seq<char>, b: Seq<char>, output: Seq<char>)
    ensures
        failure_marked(a + "Encode failed"@ + b),
        failure_marked(a + "Error:"@ + b),
        failure_marked(output) <==> {
            ||| exists|x: Seq<char>, y: Seq<char>| output == #[trigger] (x + "Encode failed"@ + y)
            ||| exists|x: Seq<char>, y: Seq<char>| output == #[trigger] (x + "Error:"@ + y)
        },
{
    contains_what_was_put_in(a, "Encode failed"@, b);
    contains_what_was_put_in(a, "Error:"@, b);
    contained_between(output, "Encode failed"@);
    contained_between(output, "Error:"@);
}

/// A failure stays a failure whatever else the encoder writes before or behind it.
pub proof fn more_output_hides_nothing(before: Seq<char>, output: Seq<char>, behind: Seq<char>)
    requires
        failure_marked(output),
    ensures
        failure_marked(before + output + behind),
{
    failure_marked_anywhere(before, behind, output);
    if exists|x: Seq<char>, y: Seq<char>| output == #[trigger] (x + "Encode failed"@ + y) {
        let (x, y) = choose|x: Seq<char>, y: Seq<char>|
            output == #[trigger] (x + "Encode failed"@ + y);
        failure_marked_anywhere(before + x, y + behind, output);
        assert((before + x) + "Encode failed"@ + (y + behind) =~= before + output + behind);
    } else {
        let (x, y) = choose|x: Seq<char>, y: Seq<char>| output == #[trigger] (x + "Error:"@ + y);
        failure_marked_anywhere(before + x, y + behind, output);
        assert((before + x) + "Error:"@ + (y + behind) =~= before + output + behind);
    }
}

/// What each end of an encode comes to: it counts only where the encoder ended well, wrote an output
/// that is large enough, and told of no failure in any way; what is wrong first is what is told.
pub proof fn each_fault_is_told(
    min: u64,
    success: bool,
    code: Option<i32>,
    len: Option<u64>,
    stderr: Seq<char>,
    work_error: Option<i64>,
)
    ensures
        ({
            let result = verdict(min, success, code, len, stderr, work_error);
            let small = len matches Some(n) && n < min;
            let reported = failure_marked(stderr);
            let failed = work_error matches Some(e) && e != 0;
            &&& !success <==> result == Err::<(), EncodeError>(EncodeError::BadExit { code })
            &&& success && len is None <==> result == Err::<(), EncodeError>(EncodeError::NoOutput)
            &&& success && small ==> result == Err::<(), EncodeError>(
                EncodeError::TooSmall { len: len->0, min },
            )
            &&& success && len is Some && !small && reported <==> result == Err::<(), EncodeError>(
                EncodeError::Reported,
            )
            &&& success && len is Some && !small && !reported && failed ==> result == Err::<
                (),
                EncodeError,
            >(EncodeError::WorkError { error: work_error->0 })
            &&& result is Ok <==> success && len is Some && !small && !reported && !failed
        }),
{
}

/// An argument stands right behind a flag.
pub open spec fn given_as(args: Seq<Seq<u8>>, flag: Seq<char>, value: Seq<u8>) -> bool {
    exists|i: int|
        0 <= i < args.len() - 1 && #[trigger] args[i] == encode_utf8(flag) && args[i + 1] == value
}

/// The encoder is told the preset file, the preset in it, the input and the temporary output, each
/// behind its flag, and to write its progress as JSON; and nothing else.
pub proof fn encoder_is_told(job: Job, temp: Seq<u8>)
    ensures
        given_as(arguments(job, temp), "--preset-import-file"@, job.preset_file@),
        given_as(arguments(job, temp), "-Z"@, encode_utf8(job.preset_name@)),
        given_as(arguments(job, temp), "-i"@, job.input_path@),
        given_as(arguments(job, temp), "-o"@, temp),
        arguments(job, temp).contains(encode_utf8("--json"@)),
        arguments(job, temp).len() == 9,
{
    let args = arguments(job, temp);
    assert(args[0] == encode_utf8("--preset-import-file"@) && args[1] == job.preset_file@);
    assert(args[2] == encode_utf8("-Z"@) && args[3] == encode_utf8(job.preset_name@));
    assert(args[4] == encode_utf8("-i"@) && args[5] == job.input_path@);
    assert(args[6] == encode_utf8("-o"@) && args[7] == temp);
    assert(args[8] == encode_utf8("--json"@));
}

/// Between two blocks, nothing but the line that opens one matters; lines are put together with a
/// line break between each two.
pub proof fn other_lines_are_skipped(line: Seq<char>, lines: Seq<Seq<char>>)
    ensures
        line != "Progress: {"@ ==> behind_line(None, line) == (None::<Seq<char>>, None::<Seq<char>>),
        behind_line(None, line).1 is None,
        lines.len() > 0 ==> joined_lines(lines.push(line)) == joined_lines(lines) + "\n"@ + line,
        joined_lines(seq![line]) == line,
{
    assert(lines.push(line).drop_last() =~= lines);
}

/// What an error says starts with what happened and gives its numbers and causes whole.
pub proof fn encode_errors_tell_their_numbers(e: EncodeError)
    ensures
        e matches EncodeError::NotStarted { program } ==> "failed to spawn "@.is_prefix_of(e.text())
            && program@.is_suffix_of(e.text()),
        e matches EncodeError::NotWaited { cause } ==> e.text() == cause@,
        e matches EncodeError::TimedOut { secs } ==> {
            &&& ("encode timed out after "@ + decimal(secs as nat)).is_prefix_of(e.text())
            &&& (decimal(secs as nat) + "s"@).is_suffix_of(e.text())
        },
        e matches EncodeError::BadExit { code: Some(code) } ==> {
            &&& ("HandBrakeCLI exited with status Some("@ + signed_decimal(
                code as int,
            )).is_prefix_of(e.text())
            &&& (signed_decimal(code as int) + ")"@).is_suffix_of(e.text())
        },
        e matches EncodeError::BadExit { code: None } ==> e.text()
            == "HandBrakeCLI exited with status None"@,
        e matches EncodeError::NoOutput ==> e.text() == "output file missing after encode"@,
        e matches EncodeError::TooSmall { len, min } ==> {
            &&& ("output too small: "@ + decimal(len as nat) + " bytes (min "@).is_prefix_of(
                e.text(),
            )
            &&& (" bytes (min "@ + decimal(min as nat) + ")"@).is_suffix_of(e.text())
        },
        e matches EncodeError::Reported ==> e.text()
            == "HandBrakeCLI reported a failure in its output"@,
        e matches EncodeError::WorkError { error } ==> {
            &&& "HandBrakeCLI reported error "@.is_prefix_of(e.text())
            &&& signed_decimal(error as int).is_suffix_of(e.text())
        },
{
    let none = Seq::<char>::empty();
    match e {
        EncodeError::NotStarted { program } => {
            three_parts("failed to spawn "@, program@, none);
            assert("failed to spawn "@ + program@ + none =~= e.text());
        },
        EncodeError::TimedOut { secs } => {
            three_parts("encode timed out after "@, decimal(secs as nat), "s"@);
        },
        EncodeError::BadExit { code: Some(code) } => {
            three_parts("HandBrakeCLI exited with status Some("@, signed_decimal(code as int), ")"@);
        },
        EncodeError::TooSmall { len, min } => {
            let (head, middle) = ("output too small: "@, " bytes (min "@);
            let (l, m) = (decimal(len as nat), decimal(min as nat));
            three_parts(head + l, middle, m + ")"@);
            assert(head + l + middle + (m + ")"@) =~= e.text());
            assert(middle + (m + ")"@) =~= middle + m + ")"@);
        },
        EncodeError::WorkError { error } => {
            let number = signed_decimal(error as int);
            three_parts("HandBrakeCLI reported error "@, number, none);
            assert("HandBrakeCLI reported error "@ + number + none =~= e.text());
            assert(number + none =~= number);
        },
        _ => {},
    }
}

/// The first two of three parts stand at the start, and the last two at the end.
proof fn three_parts(a: Seq<char>, b: Seq<char>, c: Seq<char>)
    ensures
        a.is_prefix_of(a + b + c),
        (a + b).is_prefix_of(a + b + c),
        (b + c).is_suffix_of(a + b + c),
        c.len() == 0 ==> b.is_suffix_of(a + b + c),
{
    let whole = a + b + c;
    assert(a =~= whole.subrange(0, a.len() as int));
    assert(a + b =~= whole.subrange(0, (a + b).len() as int));
    assert(b + c =~= whole.subrange(whole.len() - (b + c).len(), whole.len() as int));
    if c.len() == 0 {
        assert(b =~= whole.subrange(whole.len() - b.len(), whole.len() as int));
    }
}


} // verus!
