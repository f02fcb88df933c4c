//! The line protocol spoken with a resident worker.
//!
//! Both directions are exactly one line of tab-separated fields, ended by
//! a newline:
//!
//! ```text
//! request:   program \t arg1 \t ... \t argN \t working_dir \t timeout_seconds
//! response:  exit_code \t stdout_len \t stdout \t stderr_len \t stderr
//! ```
//!
//! An empty `working_dir` stands for the current directory, and a
//! `timeout_seconds` of `0` for no timeout.  The fields that carry text or
//! the bytes of a stream are escaped (see [`crate::escape`]), so that a
//! tab or a newline inside them breaks neither the fields nor the line;
//! the two lengths of a response count the bytes of the streams as the
//! process wrote them.  Whatever is sent is read back as it was: the round
//! trips are proved at the end of this file.

use crate::clock::duration_secs;
use crate::config::{is_whole_seconds, CommandConfig, CommandConfigView};
use crate::error::ExecuteError;
use crate::escape::{
    all_readable, escape, escaped, escaped_all, lemma_escape_round_trip, lemma_escaped_all,
    lemma_escaped_is_clean, plain, plain_all, readable, unescape, unescape_fields,
};
use crate::output::{ProcessOutput, ProcessOutputView, NO_EXIT_CODE};
use crate::text::{
    all_free_of, contents, copy_bytes, decimal_digits, format_decimal, format_integer, free_of,
    integer_text, integer_value, is_one_line, join, join_fields, lemma_decimal_digits,
    lemma_decimal_is_free, lemma_fields_make_one_line, lemma_integer_round_trip,
    lemma_integer_text_is_free, lemma_split_join, lemma_unsigned_round_trip, parse_i32,
    parse_size, parse_unsigned, split, split_fields, strip_line_end, strip_newline,
    unsigned_value, NEWLINE, TAB,
};
use std::time::Duration;
use vstd::prelude::*;
use vstd::string::StringSliceAdditionalSpecFns;
use vstd::utf8::{
    decode_utf8, encode_utf8, encode_utf8_decode_utf8, encode_utf8_valid_utf8, valid_utf8,
};

verus! {

/// A request as a worker reads it off the wire.
#[derive(Debug)]
pub struct WorkerRequest {
    /// The program to run.
    pub program: Vec<u8>,
    /// Its arguments, in order.
    pub args: Vec<Vec<u8>>,
    /// The directory to run it in, or `None` for the current one.
    pub working_dir: Option<Vec<u8>>,
    /// The time limit in whole seconds; zero means none.
    pub timeout_secs: u64,
}

/// The mathematical content of a [`WorkerRequest`].
pub struct WorkerRequestView {
    pub program: Seq<u8>,
    pub args: Seq<Seq<u8>>,
    pub working_dir: Option<Seq<u8>>,
    pub timeout_secs: u64,
}

impl View for WorkerRequest {
    type V = WorkerRequestView;

    open spec fn view(&self) -> WorkerRequestView {
        WorkerRequestView {
            program: self.program@,
            args: contents(self.args@),
            working_dir: match self.working_dir {
                Some(dir) => Some(dir@),
                None => None,
            },
            timeout_secs: self.timeout_secs,
        }
    }
}

/// What is wrong with a response line.
pub enum ResponseDefect {
    /// It does not have five fields.
    FieldCount,
    /// Its first field is not an exit code.
    BadExitCode,
    /// One of its two length fields is not a number.
    BadLength,
    /// One of its two streams is not well written.
    BadEscape,
    /// One of its two streams is not as long as its length field says.
    LengthMismatch,
}

/// The time limit of a command as it travels on the wire: its whole
/// seconds, or zero where there is none.
pub open spec fn wire_timeout(config: CommandConfigView) -> u64 {
    match config.timeout {
        Some(limit) => duration_secs(limit),
        None => 0,
    }
}

/// The working directory of a command as it travels on the wire: its
/// bytes, or nothing where there is none.
pub open spec fn wire_working_dir(config: CommandConfigView) -> Seq<u8> {
    match config.working_dir {
        Some(dir) => encode_utf8(dir),
        None => Seq::empty(),
    }
}

/// The arguments of a command as bytes.
pub open spec fn wire_args(config: CommandConfigView) -> Seq<Seq<u8>> {
    Seq::new(config.args.len(), |k: int| encode_utf8(config.args[k]))
}

/// What a request says in its text fields: the program, the arguments and
/// the working directory of the command, as bytes.
pub open spec fn request_texts(config: CommandConfigView) -> Seq<Seq<u8>> {
    seq![encode_utf8(config.program)] + wire_args(config) + seq![wire_working_dir(config)]
}

/// The fields of the request for a command: its texts, escaped, and its
/// time limit in whole seconds.
pub open spec fn request_fields(config: CommandConfigView) -> Seq<Seq<u8>> {
    escaped_all(request_texts(config)).push(decimal_digits(wire_timeout(config) as nat))
}

/// The request line for a command.
pub open spec fn request_line(config: CommandConfigView) -> Seq<u8> {
    join(request_fields(config), TAB).push(NEWLINE)
}

/// The time limit that a request's last field asks for: the number it
/// writes, or zero where it writes none that fits in 64 bits.
pub open spec fn timeout_field_value(field: Seq<u8>) -> u64 {
    match unsigned_value(field) {
        Some(n) => if n <= u64::MAX {
            n as u64
        } else {
            0
        },
        None => 0,
    }
}

/// The fields of a request that carry text: the only field of a line of
/// one field, and all but the last field of any other line.
pub open spec fn text_fields(fields: Seq<Seq<u8>>) -> Seq<Seq<u8>> {
    if fields.len() == 1 {
        fields
    } else {
        fields.drop_last()
    }
}

/// What a worker reads from a request line.
///
/// An empty line asks for nothing.  A line of one field is a bare program.
/// A line of two fields has no reading: a request with a second field
/// carries a working directory and a timeout after the program.  Nor has a
/// line with a text field that is not well written.
pub open spec fn parsed_request(line: Seq<u8>) -> Option<WorkerRequestView> {
    let body = strip_newline(line);
    let fields = split(body, TAB);
    let n = fields.len() as int;
    let texts = plain_all(text_fields(fields));
    if body.len() == 0 || n == 2 || !all_readable(text_fields(fields)) {
        None
    } else if n == 1 {
        Some(
            WorkerRequestView {
                program: texts[0],
                args: Seq::empty(),
                working_dir: None,
                timeout_secs: 0,
            },
        )
    } else {
        Some(
            WorkerRequestView {
                program: texts[0],
                args: texts.subrange(1, n - 2),
                working_dir: if texts[n - 2].len() == 0 {
                    None
                } else {
                    Some(texts[n - 2])
                },
                timeout_secs: timeout_field_value(fields[n - 1]),
            },
        )
    }
}

/// The fields of the response that reports `output`: the exit code, and
/// for each stream its length in bytes and its bytes, escaped.
pub open spec fn response_fields(output: ProcessOutputView) -> Seq<Seq<u8>> {
    seq![
        integer_text(output.reported_code() as int),
        decimal_digits(output.stdout.len()),
        escaped(output.stdout),
        decimal_digits(output.stderr.len()),
        escaped(output.stderr),
    ]
}

/// The response line that reports `output`.
pub open spec fn response_line(output: ProcessOutputView) -> Seq<u8> {
    join(response_fields(output), TAB).push(NEWLINE)
}

/// What is reported for a command that could not be run: exit code `-1`,
/// no output, and the reason as the error stream.
pub open spec fn failure_output(reason: Seq<u8>) -> ProcessOutputView {
    ProcessOutputView { exit_code: Some(NO_EXIT_CODE), stdout: Seq::empty(), stderr: reason }
}

/// The response line that reports a command that could not be run.
pub open spec fn failure_line(reason: Seq<u8>) -> Seq<u8> {
    response_line(failure_output(reason))
}

/// Whether `field` writes a length that fits in `usize`.
pub open spec fn is_length(field: Seq<u8>) -> bool {
    unsigned_value(field) matches Some(n) && n <= usize::MAX
}

/// Whether `field` writes an exit code.
pub open spec fn is_exit_code(field: Seq<u8>) -> bool {
    integer_value(field) matches Some(v) && i32::MIN <= v <= i32::MAX
}

/// Whether the stream written in `text` is as long as `length` says.
pub open spec fn length_agrees(length: Seq<u8>, text: Seq<u8>) -> bool {
    unsigned_value(length) == Some(plain(text).len())
}

/// What is wrong with a response line, if anything.  The defects are
/// looked for in this order: a number of fields other than five, a first
/// field that is no exit code, a length field that is no number, a stream
/// that is not well written, and a stream that is not as long as its
/// length field says.
pub open spec fn response_defect(line: Seq<u8>) -> Option<ResponseDefect> {
    let fields = split(strip_newline(line), TAB);
    if fields.len() != 5 {
        Some(ResponseDefect::FieldCount)
    } else if !is_exit_code(fields[0]) {
        Some(ResponseDefect::BadExitCode)
    } else if !is_length(fields[1]) || !is_length(fields[3]) {
        Some(ResponseDefect::BadLength)
    } else if !readable(fields[2]) || !readable(fields[4]) {
        Some(ResponseDefect::BadEscape)
    } else if !length_agrees(fields[1], fields[2]) || !length_agrees(fields[3], fields[4]) {
        Some(ResponseDefect::LengthMismatch)
    } else {
        None
    }
}

/// The output that a response line without defect reports: the exit code
/// of its first field, and the bytes written in its third and fifth
/// fields as the two streams.
pub open spec fn parsed_response(line: Seq<u8>) -> ProcessOutputView {
    let fields = split(strip_newline(line), TAB);
    ProcessOutputView {
        exit_code: Some(integer_value(fields[0]).unwrap() as i32),
        stdout: plain(fields[2]),
        stderr: plain(fields[4]),
    }
}

/// How each defect of a response is described in the error.
pub open spec fn defect_message(defect: ResponseDefect) -> Seq<char> {
    match defect {
        ResponseDefect::FieldCount => "invalid response format"@,
        ResponseDefect::BadExitCode => "invalid exit code in response"@,
        ResponseDefect::BadLength => "invalid length in response"@,
        ResponseDefect::BadEscape => "invalid escape in response"@,
        ResponseDefect::LengthMismatch => "length mismatch in response"@,
    }
}

/// The request for any command is exactly one line.
pub proof fn lemma_request_is_one_line(config: CommandConfigView)
    ensures
        is_one_line(request_line(config)),
        all_free_of(request_fields(config), TAB),
{
    let texts = request_texts(config);
    let fields = request_fields(config);
    let secs = wire_timeout(config) as nat;
    lemma_escaped_all(texts);
    lemma_decimal_digits(secs);
    lemma_decimal_is_free(decimal_digits(secs), TAB);
    lemma_decimal_is_free(decimal_digits(secs), NEWLINE);
    assert forall|k: int| 0 <= k < fields.len() implies free_of(#[trigger] fields[k], TAB)
        && free_of(fields[k], NEWLINE) by {
        if k < texts.len() {
            assert(fields[k] == escaped_all(texts)[k]);
        }
    }
    lemma_fields_make_one_line(fields, TAB);
}

/// The response that reports any output is exactly one line.
pub proof fn lemma_response_is_one_line(output: ProcessOutputView)
    ensures
        is_one_line(response_line(output)),
        all_free_of(response_fields(output), TAB),
{
    let fields = response_fields(output);
    let code = output.reported_code() as int;
    lemma_integer_text_is_free(code, TAB);
    lemma_integer_text_is_free(code, NEWLINE);
    lemma_decimal_digits(output.stdout.len());
    lemma_decimal_digits(output.stderr.len());
    lemma_decimal_is_free(fields[1], TAB);
    lemma_decimal_is_free(fields[1], NEWLINE);
    lemma_decimal_is_free(fields[3], TAB);
    lemma_decimal_is_free(fields[3], NEWLINE);
    lemma_escaped_is_clean(output.stdout);
    lemma_escaped_is_clean(output.stderr);
    assert(all_free_of(fields, TAB));
    assert(all_free_of(fields, NEWLINE));
    lemma_fields_make_one_line(fields, TAB);
}

/// The request line for `config`.  It is exactly one line, whatever the
/// command holds.
pub fn encode_request(config: &CommandConfig) -> (line: Vec<u8>)
    ensures
        line@ == request_line(config@),
        is_one_line(line@),
{
    let mut fields: Vec<Vec<u8>> = Vec::new();
    fields.push(escape(config.program().as_bytes()));
    let args = config.args();
    let ghost texts = request_texts(config@);
    let ghost all = escaped_all(texts);
    assert(contents(fields@) =~~= all.take(1));
    let mut i: usize = 0;
    while i < args.len()
        invariant
            i <= args.len(),
            args.deep_view() == config@.args,
            texts == request_texts(config@),
            all == escaped_all(texts),
            contents(fields@) == all.take(1 + i),
        decreases args.len() - i,
    {
        let ghost before = contents(fields@);
        let arg = escape(args[i].as_str().as_bytes());
        assert(args.deep_view()[i as int] == args[i as int]@);
        assert(texts[1 + i] == wire_args(config@)[i as int]);
        assert(arg@ == all[1 + i]);
        fields.push(arg);
        assert(contents(fields@) =~~= before.push(all[1 + i]));
        assert(before.push(all[1 + i]) =~~= all.take(2 + i));
        i += 1;
    }
    let working_dir = match config.working_dir() {
        Some(dir) => escape(dir.as_bytes()),
        None => escape(Vec::new().as_slice()),
    };
    let secs: u64 = match config.timeout() {
        Some(limit) => limit.as_secs(),
        None => 0,
    };
    let ghost before = contents(fields@);
    assert(texts[1 + i] == wire_working_dir(config@));
    assert(working_dir@ == all[1 + i]);
    fields.push(working_dir);
    fields.push(format_decimal(secs));
    assert(contents(fields@) =~~= before.push(all[1 + i]).push(decimal_digits(secs as nat)));
    assert(before.push(all[1 + i]) =~~= all);
    assert(contents(fields@) =~~= request_fields(config@));
    let mut line = join_fields(&fields, TAB);
    line.push(NEWLINE);
    proof {
        lemma_request_is_one_line(config@);
    }
    line
}

/// Reads a request line.  The newline at its end may be missing.
pub fn parse_request(line: &[u8]) -> (request: Option<WorkerRequest>)
    ensures
        match parsed_request(line@) {
            Some(expected) => request matches Some(r) && r@ == expected,
            None => request is None,
        },
{
    let body = strip_line_end(line);
    if body.len() == 0 {
        return None;
    }
    let mut fields = split_fields(body, TAB);
    let ghost all = contents(fields@);
    let n = fields.len();
    if n == 2 {
        return None;
    }
    let timeout_secs: u64 = if n == 1 {
        0
    } else {
        let last = fields.pop().unwrap();
        assert(last@ == all[n - 1]);
        match parse_unsigned(last.as_slice()) {
            Some(secs) => secs,
            None => 0,
        }
    };
    assert(contents(fields@) =~~= text_fields(all));
    let mut texts = match unescape_fields(&fields) {
        Some(texts) => texts,
        None => {
            return None;
        },
    };
    let ghost plains = plain_all(text_fields(all));
    assert(contents(texts@) == plains);
    assert(texts.len() == plains.len());
    assert forall|k: int| 0 <= k < texts.len() implies texts[k]@ == plains[k] by {
        assert(contents(texts@)[k] == texts[k]@);
    }
    if n == 1 {
        let program = texts.pop().unwrap();
        assert(program@ == plains[0]);
        let request = WorkerRequest {
            program,
            args: Vec::new(),
            working_dir: None,
            timeout_secs,
        };
        assert(request@.args =~~= Seq::<Seq<u8>>::empty());
        return Some(request);
    }
    let dir = texts.pop().unwrap();
    let args = texts.split_off(1);
    let program = texts.pop().unwrap();
    assert(dir@ == plains[n - 2]);
    assert(program@ == plains[0]);
    assert(contents(args@) =~~= plains.subrange(1, n - 2));
    let working_dir = if dir.len() == 0 {
        None
    } else {
        Some(dir)
    };
    Some(WorkerRequest { program, args, working_dir, timeout_secs })
}

/// The response line that reports `output`.  It is exactly one line,
/// whatever the streams hold.
pub fn encode_response(output: &ProcessOutput) -> (line: Vec<u8>)
    ensures
        line@ == response_line(output@),
        is_one_line(line@),
{
    let mut fields: Vec<Vec<u8>> = Vec::new();
    fields.push(format_integer(output.reported_code()));
    fields.push(format_decimal(output.stdout.len() as u64));
    fields.push(escape(output.stdout.as_slice()));
    fields.push(format_decimal(output.stderr.len() as u64));
    fields.push(escape(output.stderr.as_slice()));
    assert(contents(fields@) =~~= response_fields(output@));
    let mut line = join_fields(&fields, TAB);
    line.push(NEWLINE);
    proof {
        lemma_response_is_one_line(output@);
    }
    line
}

/// The response line that reports a command that could not be run for the
/// given reason.  It is exactly one line, whatever the reason holds.
pub fn encode_failure(reason: &[u8]) -> (line: Vec<u8>)
    ensures
        line@ == failure_line(reason@),
        is_one_line(line@),
{
    let output = ProcessOutput {
        exit_code: Some(NO_EXIT_CODE),
        stdout: Vec::new(),
        stderr: copy_bytes(reason),
    };
    assert(output@ == failure_output(reason@));
    encode_response(&output)
}

/// Reads a response line.  The newline at its end may be missing.
///
/// A line with a defect is refused with a child-state error that names
/// the defect; any other line gives the output it reports.
pub fn parse_response(line: &[u8]) -> (result: Result<ProcessOutput, ExecuteError>)
    ensures
        match response_defect(line@) {
            None => result matches Ok(output) && output@ == parsed_response(line@),
            Some(defect) => result matches Err(error) && error.is_child(defect_message(defect)),
        },
{
    let body = strip_line_end(line);
    let fields = split_fields(body, TAB);
    let ghost all = contents(fields@);
    if fields.len() != 5 {
        return Err(ExecuteError::child("invalid response format"));
    }
    assert(fields[0]@ == all[0]);
    assert(fields[1]@ == all[1]);
    assert(fields[2]@ == all[2]);
    assert(fields[3]@ == all[3]);
    assert(fields[4]@ == all[4]);
    let code = match parse_i32(fields[0].as_slice()) {
        Some(code) => code,
        None => {
            return Err(ExecuteError::child("invalid exit code in response"));
        },
    };
    let stdout_len = parse_size(fields[1].as_slice());
    let stderr_len = parse_size(fields[3].as_slice());
    let (stdout_len, stderr_len) = match (stdout_len, stderr_len) {
        (Some(stdout_len), Some(stderr_len)) => (stdout_len, stderr_len),
        _ => {
            return Err(ExecuteError::child("invalid length in response"));
        },
    };
    let stdout = unescape(fields[2].as_slice());
    let stderr = unescape(fields[4].as_slice());
    let (stdout, stderr) = match (stdout, stderr) {
        (Some(stdout), Some(stderr)) => (stdout, stderr),
        _ => {
            return Err(ExecuteError::child("invalid escape in response"));
        },
    };
    if stdout.len() != stdout_len || stderr.len() != stderr_len {
        return Err(ExecuteError::child("length mismatch in response"));
    }
    Ok(ProcessOutput { exit_code: Some(code), stdout, stderr })
}

/// `std::str::from_utf8` accepts exactly the byte strings that are valid
/// UTF-8 and gives the text they encode.
#[verifier::external_body]
fn text_from_utf8(bytes: &[u8]) -> (text: Option<&str>)
    ensures
        text is Some <==> valid_utf8(bytes@),
        text matches Some(s) ==> s@ == decode_utf8(bytes@),
{
    std::str::from_utf8(bytes).ok()
}

/// Whether every one of `fields` is valid UTF-8.
pub open spec fn all_valid_utf8(fields: Seq<Seq<u8>>) -> bool {
    forall|k: int| 0 <= k < fields.len() ==> valid_utf8(#[trigger] fields[k])
}

impl WorkerRequestView {
    /// Whether the request can be read as text throughout.
    pub open spec fn is_text(self) -> bool {
        &&& valid_utf8(self.program)
        &&& all_valid_utf8(self.args)
        &&& self.working_dir matches Some(dir) ==> valid_utf8(dir)
    }

    /// The arguments as text.
    pub open spec fn text_args(self) -> Seq<Seq<char>> {
        Seq::new(self.args.len(), |k: int| decode_utf8(self.args[k]))
    }

    /// The working directory as text.
    pub open spec fn text_working_dir(self) -> Option<Seq<char>> {
        match self.working_dir {
            Some(dir) => Some(decode_utf8(dir)),
            None => None,
        }
    }
}

impl WorkerRequest {
    /// The command that the request asks for, or `None` where one of its
    /// fields is not valid UTF-8.  A timeout of zero seconds becomes no
    /// timeout; any other becomes a limit of that many whole seconds.
    pub fn to_config(&self) -> (config: Option<CommandConfig>)
        ensures
            config is Some <==> self@.is_text(),
            config matches Some(c) ==> {
                &&& c@.program == decode_utf8(self@.program)
                &&& c@.args == self@.text_args()
                &&& c@.working_dir == self@.text_working_dir()
                &&& self.timeout_secs == 0 ==> c@.timeout is None
                &&& self.timeout_secs > 0 ==> (c@.timeout matches Some(limit)
                    && is_whole_seconds(limit, self.timeout_secs))
            },
    {
        let program = match text_from_utf8(self.program.as_slice()) {
            Some(text) => text,
            None => {
                return None;
            },
        };
        let mut args: Vec<String> = Vec::new();
        let mut i: usize = 0;
        while i < self.args.len()
            invariant
                i <= self.args.len(),
                args.len() == i,
                forall|k: int|
                    0 <= k < i ==> valid_utf8(#[trigger] self@.args[k]) && args[k]@
                        == decode_utf8(self@.args[k]),
            decreases self.args.len() - i,
        {
            assert(self@.args[i as int] == self.args[i as int]@);
            match text_from_utf8(self.args[i].as_slice()) {
                Some(text) => {
                    args.push(text.to_owned());
                },
                None => {
                    return None;
                },
            }
            i += 1;
        }
        assert(args.deep_view() =~~= self@.text_args());
        let config = CommandConfig::new(program, args).without_timeout();
        let config = match &self.working_dir {
            Some(dir) => match text_from_utf8(dir.as_slice()) {
                Some(text) => config.with_working_dir(text),
                None => {
                    return None;
                },
            },
            None => config,
        };
        if self.timeout_secs > 0 {
            Some(config.with_timeout(Duration::from_secs(self.timeout_secs)))
        } else {
            Some(config)
        }
    }
}

/// What a worker does with a line it has read.
#[derive(Debug)]
pub enum WorkerStep {
    /// The line asks for nothing: read the next one.
    Skip,
    /// Run the command carried here and answer with the line that
    /// [`encode_outcome`] writes for what came of it.
    Run(CommandConfig),
    /// Answer with the line carried here; there is nothing to run.
    Reply(Vec<u8>),
}

/// What a worker answers to a request that is not text.
pub open spec fn not_text_reason() -> Seq<u8> {
    encode_utf8("request is not valid UTF-8"@)
}

/// What a worker reports for a command that ran out of time.
pub open spec fn timed_out_reason() -> Seq<u8> {
    encode_utf8("command timed out"@)
}

/// The line that a worker answers with when a command ended as `result`:
/// the response that reports the output, or the failure response with the
/// description of the error, which for a timeout is "command timed out".
/// Whatever the command wrote and whatever the error reads, it is exactly
/// one line.
pub open spec fn outcome_line(result: Result<ProcessOutput, ExecuteError>) -> Seq<u8> {
    match result {
        Ok(output) => response_line(output@),
        Err(ExecuteError::Io(failure)) => failure_line(encode_utf8(failure.message@)),
        Err(ExecuteError::Timeout(_)) => failure_line(timed_out_reason()),
        Err(ExecuteError::Child(message)) => failure_line(encode_utf8(message@)),
    }
}

/// Decides what a worker does with a line it has read.  A line without a
/// reading is skipped.  A request that reads as text is run as the command
/// it asks for.  A request that does not is answered with a failure.
pub fn serve_line(line: &[u8]) -> (step: WorkerStep)
    ensures
        match parsed_request(line@) {
            None => step is Skip,
            Some(request) => if request.is_text() {
                step matches WorkerStep::Run(c) && {
                    &&& c@.program == decode_utf8(request.program)
                    &&& c@.args == request.text_args()
                    &&& c@.working_dir == request.text_working_dir()
                    &&& request.timeout_secs == 0 ==> c@.timeout is None
                    &&& request.timeout_secs > 0 ==> (c@.timeout matches Some(limit)
                        && is_whole_seconds(limit, request.timeout_secs))
                }
            } else {
                step matches WorkerStep::Reply(answer) && answer@ == failure_line(
                    not_text_reason(),
                )
            },
        },
{
    match parse_request(line) {
        None => WorkerStep::Skip,
        Some(request) => match request.to_config() {
            Some(config) => WorkerStep::Run(config),
            None => WorkerStep::Reply(encode_failure("request is not valid UTF-8".as_bytes())),
        },
    }
}

/// The line that a worker answers with when a command ended as `result`.
pub fn encode_outcome(result: &Result<ProcessOutput, ExecuteError>) -> (line: Vec<u8>)
    ensures
        line@ == outcome_line(*result),
        is_one_line(line@),
{
    match result {
        Ok(output) => encode_response(output),
        Err(ExecuteError::Io(failure)) => encode_failure(failure.message.as_str().as_bytes()),
        Err(ExecuteError::Timeout(_)) => encode_failure("command timed out".as_bytes()),
        Err(ExecuteError::Child(message)) => encode_failure(message.as_str().as_bytes()),
    }
}

/// The argument that tells the executable to run as a resident worker.
pub const WORKER_FLAG: &'static str = "--worker";

/// The argument that tells the executable to run as a resident worker.
pub open spec fn worker_flag() -> Seq<char> {
    WORKER_FLAG@
}

/// Whether the arguments of the process, the name of the executable
/// first, ask it to run as a resident worker: the first argument after
/// the name is `--worker`.
pub fn is_worker_invocation(args: &[String]) -> (worker: bool)
    ensures
        worker == (args@.len() > 1 && args@[1]@ == worker_flag()),
{
    if args.len() > 1 {
        let flag = WORKER_FLAG.to_owned();
        args[1] == flag
    } else {
        false
    }
}

/// Whether the two streams of `output` are no longer than a buffer can
/// be.  It holds of every output that a program holds.
pub open spec fn fits(output: ProcessOutputView) -> bool {
    output.stdout.len() <= usize::MAX && output.stderr.len() <= usize::MAX
}

/// Reading the response written for an output gives the output back,
/// whatever its streams hold, with [`NO_EXIT_CODE`] in place of a missing
/// exit code.
pub proof fn lemma_response_view_round_trip(output: ProcessOutputView)
    requires
        fits(output),
    ensures
        response_defect(response_line(output)) is None,
        parsed_response(response_line(output)) == (ProcessOutputView {
            exit_code: Some(output.reported_code()),
            ..output
        }),
{
    let fields = response_fields(output);
    let code = output.reported_code() as int;
    lemma_response_is_one_line(output);
    lemma_integer_round_trip(code);
    lemma_unsigned_round_trip(output.stdout.len());
    lemma_unsigned_round_trip(output.stderr.len());
    lemma_escape_round_trip(output.stdout);
    lemma_escape_round_trip(output.stderr);
    lemma_split_join(fields, TAB);
    assert(strip_newline(response_line(output)) =~= join(fields, TAB));
}

/// Reading the response written for an output gives the output back,
/// whatever its streams hold, with [`NO_EXIT_CODE`] in place of a missing
/// exit code.
pub proof fn lemma_response_round_trip(output: ProcessOutput)
    ensures
        response_defect(response_line(output@)) is None,
        parsed_response(response_line(output@)) == (ProcessOutputView {
            exit_code: Some(output@.reported_code()),
            ..output@
        }),
{
    assert(output.stdout.len() <= usize::MAX);
    assert(output.stderr.len() <= usize::MAX);
    lemma_response_view_round_trip(output@);
}

/// Reading the response written for a command that could not be run gives
/// exit code `-1`, an empty output stream and the reason as error stream,
/// whatever the reason holds.
pub proof fn lemma_failure_round_trip(reason: Seq<u8>)
    requires
        reason.len() <= usize::MAX,
    ensures
        response_defect(failure_line(reason)) is None,
        parsed_response(failure_line(reason)) == failure_output(reason),
{
    lemma_response_view_round_trip(failure_output(reason));
}

/// What a worker reads from the request written for a command: the
/// program and the arguments as they are, the working directory unless it
/// is missing or empty, and the timeout in whole seconds.  It holds of
/// every command.
pub proof fn lemma_request_round_trip(config: CommandConfigView)
    ensures
        parsed_request(request_line(config)) == Some(
            WorkerRequestView {
                program: encode_utf8(config.program),
                args: wire_args(config),
                working_dir: if wire_working_dir(config).len() == 0 {
                    None
                } else {
                    Some(wire_working_dir(config))
                },
                timeout_secs: wire_timeout(config),
            },
        ),
{
    let texts = request_texts(config);
    let fields = request_fields(config);
    let n = fields.len() as int;
    let secs = wire_timeout(config) as nat;
    lemma_request_is_one_line(config);
    lemma_escaped_all(texts);
    lemma_unsigned_round_trip(secs);
    lemma_split_join(fields, TAB);
    let body = join(fields, TAB);
    assert(strip_newline(request_line(config)) =~= body);
    assert(fields.drop_last().len() >= 2);
    assert(body.len() > 0);
    assert(text_fields(fields) =~~= escaped_all(texts));
    assert(plain_all(text_fields(fields)) == texts);
    assert(texts.subrange(1, n - 2) =~~= wire_args(config));
}

/// A command that was sent and read back is the command that was sent,
/// but for what the wire does not carry: an empty working directory is
/// read as none, and a time limit is cut to whole seconds, none being left
/// of a limit under one second.  It holds of every command.
pub proof fn lemma_request_keeps_text(config: CommandConfigView)
    ensures
        parsed_request(request_line(config)) matches Some(request) && {
            &&& request.is_text()
            &&& decode_utf8(request.program) == config.program
            &&& request.text_args() == config.args
            &&& request.text_working_dir() == match config.working_dir {
                Some(dir) => if dir.len() == 0 {
                    None
                } else {
                    Some(dir)
                },
                None => None,
            }
            &&& request.timeout_secs == wire_timeout(config)
        },
{
    lemma_request_round_trip(config);
    let request = parsed_request(request_line(config)).unwrap();
    encode_utf8_valid_utf8(config.program);
    encode_utf8_decode_utf8(config.program);
    assert forall|k: int| 0 <= k < request.args.len() implies valid_utf8(
        #[trigger] request.args[k],
    ) && decode_utf8(request.args[k]) == config.args[k] by {
        encode_utf8_valid_utf8(config.args[k]);
        encode_utf8_decode_utf8(config.args[k]);
    }
    assert(request.text_args() =~~= config.args);
    match config.working_dir {
        Some(dir) => {
            encode_utf8_valid_utf8(dir);
            encode_utf8_decode_utf8(dir);
            if dir.len() == 0 {
                assert(encode_utf8(dir) =~= Seq::<u8>::empty()) by {
                    reveal_with_fuel(encode_utf8, 1);
                }
            } else {
                if encode_utf8(dir).len() == 0 {
                    assert(decode_utf8(encode_utf8(dir)) =~= Seq::<char>::empty()) by {
                        reveal_with_fuel(decode_utf8, 1);
                    }
                }
            }
        },
        None => {},
    }
}

/// The round trip with a resident worker.  Whatever command is sent, the
/// worker reads one line and finds in it the program and the arguments
/// that were sent; whatever the command then writes and however it exits,
/// the worker answers with one line, and that line is read without defect
/// as the exit code and the two streams, byte for byte.
pub proof fn lemma_resident_round_trip(config: CommandConfigView, output: ProcessOutput)
    ensures
        is_one_line(request_line(config)),
        parsed_request(request_line(config)) matches Some(request) && request.is_text()
            && decode_utf8(request.program) == config.program && request.text_args()
            == config.args,
        is_one_line(outcome_line(Ok(output))),
        response_defect(outcome_line(Ok(output))) is None,
        parsed_response(outcome_line(Ok(output))) == (ProcessOutputView {
            exit_code: Some(output@.reported_code()),
            ..output@
        }),
{
    lemma_request_is_one_line(config);
    lemma_request_keeps_text(config);
    lemma_response_is_one_line(output@);
    lemma_response_round_trip(output);
}

} // verus!
