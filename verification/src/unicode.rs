use crate::py::DISCORD_MESSAGE_LIMIT;
use crate::text::{extend_chars, push_char};
use vstd::prelude::*;

verus! {

/// Most characters that one line of a message may hold, its line break
/// included.
pub const DISCORD_WIDTH_LIMIT: usize = 60;

/// Braille characters in one line of text.
pub const N_CHAR_IN_ROW: usize = DISCORD_WIDTH_LIMIT;

/// Lines of text that go into one message.
pub const ROW_PER_MESSAGE: usize = DISCORD_MESSAGE_LIMIT / N_CHAR_IN_ROW;

/// Width in pixels to which an image is brought: two for each braille
/// character of a line, which also has to hold its line break.
pub const TARGET_WIDTH: u32 = 118;

/// The size to which an image is brought before it is turned into text:
/// the target width, and the height that keeps the proportions, rounded
/// down. There is none for an image without columns, nor where the height
/// times the target width is more than 32 bits hold.
pub open spec fn spec_target_size(width: u32, height: u32) -> Option<(u32, u32)> {
    if width == 0 || height * TARGET_WIDTH > u32::MAX {
        None
    } else {
        Some((TARGET_WIDTH, ((height * TARGET_WIDTH) / (width as int)) as u32))
    }
}

/// Computes the size to which an image of the given size is brought.
pub fn target_size(width: u32, height: u32) -> (size: Option<(u32, u32)>)
    ensures
        size == spec_target_size(width, height),
{
    if width == 0 {
        return None;
    }
    match height.checked_mul(TARGET_WIDTH) {
        Some(scaled) => Some((TARGET_WIDTH, scaled / width)),
        None => None,
    }
}

/// The rows as plain values.
pub open spec fn row_views(rows: Seq<Vec<char>>) -> Seq<Seq<char>> {
    Seq::new(rows.len(), |i: int| rows[i]@)
}

/// The rows from `from` up to `to`, each followed by a line break.
pub open spec fn rows_text(rows: Seq<Seq<char>>, from: int, to: int) -> Seq<char>
    decreases to - from,
{
    if from >= to {
        Seq::empty()
    } else {
        rows_text(rows, from, to - 1) + rows[to - 1].push('\n')
    }
}

/// Messages that so many rows take.
pub open spec fn message_count(rows: nat) -> nat {
    ((rows + ROW_PER_MESSAGE - 1) / (ROW_PER_MESSAGE as int)) as nat
}

/// Row at which message `index` of `rows` rows ends.
pub open spec fn message_end(rows: nat, index: int) -> int {
    if (index + 1) * ROW_PER_MESSAGE <= rows {
        (index + 1) * ROW_PER_MESSAGE
    } else {
        rows as int
    }
}

/// Whether the messages hold the rows, in their order: each message as
/// many rows as a message may hold, the last one what is left.
pub open spec fn are_messages_of(messages: Seq<String>, rows: Seq<Seq<char>>) -> bool {
    &&& messages.len() == message_count(rows.len())
    &&& forall|index: int|
        0 <= index < messages.len() ==> (#[trigger] messages[index])@ == rows_text(
            rows,
            index * ROW_PER_MESSAGE,
            message_end(rows.len(), index),
        )
}

/// The text of the rows from `from` up to `to`.
fn message_of(rows: &Vec<Vec<char>>, from: usize, to: usize) -> (message: String)
    requires
        from <= to <= rows@.len(),
    ensures
        message@ == rows_text(row_views(rows@), from as int, to as int),
{
    let mut message = String::new();
    let mut i: usize = from;
    while i < to
        invariant
            from <= i <= to <= rows@.len(),
            message@ == rows_text(row_views(rows@), from as int, i as int),
        decreases to - i,
    {
        extend_chars(&mut message, &rows[i]);
        push_char(&mut message, '\n');
        i = i + 1;
    }
    message
}

/// Splits the rows of a text into messages.
pub fn pattern_messages(rows: &Vec<Vec<char>>) -> (messages: Vec<String>)
    ensures
        are_messages_of(messages@, row_views(rows@)),
{
    let count = rows.len();
    let mut messages: Vec<String> = Vec::new();
    let mut next: usize = 0;
    assert(ROW_PER_MESSAGE == 33);
    while next < count
        invariant
            ROW_PER_MESSAGE == 33,
            count == rows@.len(),
            next <= count,
            next % ROW_PER_MESSAGE == 0 || next == count,
            messages@.len() == message_count(next as nat),
            forall|index: int|
                0 <= index < messages@.len() ==> (#[trigger] messages@[index])@ == rows_text(
                    row_views(rows@),
                    index * ROW_PER_MESSAGE,
                    message_end(count as nat, index),
                ),
        decreases count - next,
    {
        assert(ROW_PER_MESSAGE == 33);
        let end = if count - next > ROW_PER_MESSAGE {
            next + ROW_PER_MESSAGE
        } else {
            count
        };
        let message = message_of(rows, next, end);
        messages.push(message);
        next = end;
    }
    messages
}

} // verus!
