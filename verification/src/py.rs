use crate::pyremote::{Error, Output};
use crate::text::{
    decimal, decode, join, joined, spec_trim_ascii, trim, trim_ascii, trimmed, u64_to_string,
};
use std::time::Duration;
use vstd::prelude::*;
use vstd::slice::slice_to_vec;
use vstd::string::{StrSliceExecFns, StringExecFns};
use vstd::utf8::{decode_utf8, valid_utf8};

verus! {

/// Whether the `count` characters from `from` on are all backticks.
pub open spec fn backticks_at(text: Seq<char>, from: int, count: int) -> bool {
    forall|i: int| from <= i < from + count ==> #[trigger] text[i] == '`'
}

/// Whether the text begins and ends with a fence of `count` backticks.
pub open spec fn fenced_by(text: Seq<char>, count: int) -> bool {
    &&& text.len() >= count
    &&& backticks_at(text, 0, count)
    &&& backticks_at(text, text.len() - count, count)
}

/// Whether the opening and the closing fence of a text share a backtick:
/// three to five backticks and nothing else, or one backtick alone.
pub open spec fn fences_overlap(text: Seq<char>) -> bool {
    ||| fenced_by(text, 3) && text.len() < 6
    ||| !fenced_by(text, 3) && fenced_by(text, 1) && text.len() < 2
}

/// The code inside a pair of fences: of three backticks each, or else of
/// one. Text without fences stays as it is.
pub open spec fn spec_strip_fences(text: Seq<char>) -> Seq<char> {
    if fenced_by(text, 3) {
        text.subrange(3, text.len() - 3)
    } else if fenced_by(text, 1) {
        text.subrange(1, text.len() - 1)
    } else {
        text
    }
}

/// Whether the `count` characters from `from` on are all backticks.
fn has_backticks(text: &str, from: usize, count: usize) -> (all: bool)
    requires
        from + count <= text@.len() <= usize::MAX,
        count <= 3,
    ensures
        all == backticks_at(text@, from as int, count as int),
{
    let mut i: usize = 0;
    while i < count
        invariant
            i <= count <= 3,
            from + count <= text@.len() <= usize::MAX,
            backticks_at(text@, from as int, i as int),
        decreases count - i,
    {
        if text.get_char(from + i) != '`' {
            assert(text@[from + i] != '`');
            return false;
        }
        i = i + 1;
    }
    true
}

/// Whether the text begins and ends with a fence of `count` backticks.
fn is_fenced(text: &str, length: usize, count: usize) -> (fenced: bool)
    requires
        length == text@.len(),
        count <= 3,
    ensures
        fenced == fenced_by(text@, count as int),
{
    length >= count && has_backticks(text, 0, count) && has_backticks(
        text,
        length - count,
        count,
    )
}

/// Takes the fences off a piece of code that has no whitespace around it.
/// The two fences must not share a backtick.
pub fn strip_fences(text: &str) -> (inner: &str)
    requires
        !fences_overlap(text@),
    ensures
        inner@ == spec_strip_fences(text@),
{
    let length = text.unicode_len();
    if is_fenced(text, length, 3) {
        text.substring_char(3, length - 3)
    } else if is_fenced(text, length, 1) {
        text.substring_char(1, length - 1)
    } else {
        text
    }
}

/// Whether the opening and the closing fence of a text share a backtick.
pub fn has_overlapping_fences(text: &str) -> (overlap: bool)
    ensures
        overlap == fences_overlap(text@),
{
    let length = text.unicode_len();
    if is_fenced(text, length, 3) {
        length < 6
    } else {
        is_fenced(text, length, 1) && length < 2
    }
}

/// The code that a message holds: the whitespace around the message is
/// dropped, and then the fences around the code. There is none where what
/// is left of the message is fences that share a backtick.
pub fn strip_code_block(code: &str) -> (inner: Option<&str>)
    ensures
        inner.is_some() <==> !fences_overlap(trimmed(code@)),
        inner.is_some() ==> inner.unwrap()@ == spec_strip_fences(trimmed(code@)),
{
    let text = trim(code);
    if has_overlapping_fences(text) {
        None
    } else {
        Some(strip_fences(text))
    }
}

/// Most characters that one message may hold.
pub const DISCORD_MESSAGE_LIMIT: usize = 2000;

/// A file sent along with a reply.
#[derive(Debug)]
pub struct Attachment {
    /// What the file holds.
    pub data: Vec<u8>,
    /// Name under which the file is sent.
    pub filename: String,
}

/// An attachment as plain values.
pub struct AttachmentView {
    pub data: Seq<u8>,
    pub filename: Seq<char>,
}

impl View for Attachment {
    type V = AttachmentView;

    open spec fn view(&self) -> AttachmentView {
        AttachmentView { data: self.data@, filename: self.filename@ }
    }
}

/// What is sent back for a piece of code.
#[derive(Debug)]
pub enum Reply {
    /// A message with this text.
    Text(String),
    /// A message without text that carries these files.
    Files(Vec<Attachment>),
}

/// A reply as plain values.
pub enum ReplyView {
    Text(Seq<char>),
    Files(Seq<AttachmentView>),
}

/// The files as plain values.
pub open spec fn file_views(files: Seq<Attachment>) -> Seq<AttachmentView> {
    Seq::new(files.len(), |i: int| files[i]@)
}

impl View for Reply {
    type V = ReplyView;

    open spec fn view(&self) -> ReplyView {
        match self {
            Reply::Text(text) => ReplyView::Text(text@),
            Reply::Files(files) => ReplyView::Files(file_views(files@)),
        }
    }
}

/// The text set as a block of code: between two fences of three backticks.
pub open spec fn spec_code_block(text: Seq<char>) -> Seq<char> {
    "```"@ + text + "```"@
}

/// Sets a text as a block of code.
pub fn code_block(text: &str) -> (block: String)
    ensures
        block@ == spec_code_block(text@),
{
    let mut block = String::from_str("```");
    block.append(text);
    block.append("```");
    block
}

/// The blocks of a report: one for each of the two texts that is not empty,
/// standard output before standard error.
pub open spec fn report_blocks(stdout: Seq<char>, stderr: Seq<char>) -> Seq<Seq<char>> {
    (if stdout.len() > 0 {
        seq![spec_code_block(stdout)]
    } else {
        Seq::empty()
    }) + (if stderr.len() > 0 {
        seq![spec_code_block(stderr)]
    } else {
        Seq::empty()
    })
}

/// The report on what a program wrote: its blocks, one to a line.
pub open spec fn spec_report(stdout: Seq<char>, stderr: Seq<char>) -> Seq<char> {
    joined(report_blocks(stdout, stderr), "\n"@)
}

/// Writes the report on what a program wrote.
pub fn report(stdout: &str, stderr: &str) -> (text: String)
    ensures
        text@ == spec_report(stdout@, stderr@),
{
    let mut blocks: Vec<String> = Vec::new();
    if !stdout.is_empty() {
        blocks.push(code_block(stdout));
    }
    if !stderr.is_empty() {
        blocks.push(code_block(stderr));
    }
    assert(blocks.deep_view() =~= report_blocks(stdout@, stderr@));
    join(&blocks, "\n")
}

/// The files that carry the output of a program: one for each of the two
/// streams that is not empty, standard output before standard error.
pub open spec fn spec_attachments(stdout: Seq<u8>, stderr: Seq<u8>) -> Seq<AttachmentView> {
    (if stdout.len() > 0 {
        seq![AttachmentView { data: stdout, filename: "stdout.txt"@ }]
    } else {
        Seq::empty()
    }) + (if stderr.len() > 0 {
        seq![AttachmentView { data: stderr, filename: "stderr.txt"@ }]
    } else {
        Seq::empty()
    })
}

/// Packs the output of a program into files.
pub fn attachments(stdout: &[u8], stderr: &[u8]) -> (files: Vec<Attachment>)
    ensures
        file_views(files@) == spec_attachments(stdout@, stderr@),
{
    let mut files: Vec<Attachment> = Vec::new();
    if stdout.len() > 0 {
        files.push(Attachment { data: slice_to_vec(stdout), filename: String::from_str("stdout.txt") });
    }
    if stderr.len() > 0 {
        files.push(Attachment { data: slice_to_vec(stderr), filename: String::from_str("stderr.txt") });
    }
    assert(file_views(files@) =~= spec_attachments(stdout@, stderr@));
    files
}

/// The reply to a program that ran to its end. Both streams lose the ASCII
/// whitespace at their ends. Where both are text, the reply is the report,
/// a note if there is nothing to report, and the two streams as files if
/// the report is longer than a message may be. Where one of them is no
/// text, the reply is the two streams as files.
pub open spec fn spec_output_reply(stdout: Seq<u8>, stderr: Seq<u8>) -> ReplyView {
    let out = spec_trim_ascii(stdout);
    let err = spec_trim_ascii(stderr);
    if valid_utf8(out) && valid_utf8(err) {
        let text = spec_report(decode_utf8(out), decode_utf8(err));
        if text.len() == 0 {
            ReplyView::Text("*<empty output>*"@)
        } else if text.len() <= DISCORD_MESSAGE_LIMIT {
            ReplyView::Text(text)
        } else {
            ReplyView::Files(spec_attachments(out, err))
        }
    } else {
        ReplyView::Files(spec_attachments(out, err))
    }
}

/// Decides what to send back for a program that ran to its end.
pub fn output_reply(output: &Output) -> (reply: Reply)
    ensures
        reply@ == spec_output_reply(output.stdout@, output.stderr@),
{
    let stdout = trim_ascii(output.stdout.as_slice());
    let stderr = trim_ascii(output.stderr.as_slice());
    match (decode(stdout), decode(stderr)) {
        (Some(out_text), Some(err_text)) => {
            let text = report(out_text, err_text);
            let length = text.as_str().unicode_len();
            if length == 0 {
                Reply::Text(String::from_str("*<empty output>*"))
            } else if length <= DISCORD_MESSAGE_LIMIT {
                Reply::Text(text)
            } else {
                Reply::Files(attachments(stdout, stderr))
            }
        },
        _ => Reply::Files(attachments(stdout, stderr)),
    }
}

/// The whole seconds of a span of time, as `Duration::as_secs` gives them.
pub uninterp spec fn duration_secs(duration: Duration) -> u64;

/// `Duration::as_secs`: the whole seconds of a span of time.
#[verifier::external_body]
fn whole_seconds(duration: Duration) -> (seconds: u64)
    ensures
        seconds == duration_secs(duration),
{
    duration.as_secs()
}

/// The message for a program that ran out of time after so many seconds.
pub open spec fn spec_timeout_message(seconds: u64) -> Seq<char> {
    "Code Timeout in "@ + decimal(seconds as nat) + " seconds"@
}

/// Writes the message for a program that ran out of time.
pub fn timeout_message(seconds: u64) -> (message: String)
    ensures
        message@ == spec_timeout_message(seconds),
{
    let mut message = String::from_str("Code Timeout in ");
    let digits = u64_to_string(seconds);
    message.append(digits.as_str());
    message.append(" seconds");
    message
}

/// Decides what to send back for an execution: the reply to its output, a
/// message that names the time limit in whole seconds if it ran out of
/// time, and the error itself if the execution could not be carried out.
pub fn py_reply(outcome: Result<Output, Error>) -> (reply: Result<Reply, std::io::Error>)
    ensures
        match outcome {
            Ok(output) => reply.is_ok() && reply.unwrap()@ == spec_output_reply(
                output.stdout@,
                output.stderr@,
            ),
            Err(Error::Timeout { timeout }) => reply.is_ok() && reply.unwrap()@ == ReplyView::Text(
                spec_timeout_message(duration_secs(timeout)),
            ),
            Err(Error::IO(error)) => reply == Err::<Reply, std::io::Error>(error),
        },
{
    match outcome {
        Ok(output) => Ok(output_reply(&output)),
        Err(Error::Timeout { timeout }) => Ok(Reply::Text(timeout_message(whole_seconds(timeout)))),
        Err(Error::IO(error)) => Err(error),
    }
}

} // verus!
