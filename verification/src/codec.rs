//! Messages on a stream: one to a line.
use vstd::prelude::*;

use crate::text::{trim_end, without_trailing_space};

verus! {

/// The longest line that is read, in bytes: 1 MiB.
pub const MAX_LINE: usize = 1_048_576;

/// What a line that was read holds.
#[derive(PartialEq, Eq, Debug)]
pub enum Line {
    /// The stream has ended.
    End,
    /// One message, to be parsed.
    Text(String),
    /// The line is longer than any message may be.
    TooLarge(String),
}

/// A message as a line.
pub open spec fn framed(message: Seq<char>) -> Seq<char> {
    message.push('\n')
}

/// What a line that was read holds. Nothing read means the end; the line break
/// does not belong to the message.
pub open spec fn line_holds(line: Seq<char>, r: Line) -> bool {
    if line.len() == 0 {
        r is End
    } else if vstd::utf8::encode_utf8(line).len() > MAX_LINE {
        r matches Line::TooLarge(words) && words@ == "message too large"@
    } else {
        r matches Line::Text(t) && t@ == without_trailing_space(line)
    }
}

/// A message as a line.
pub fn frame(message: String) -> (r: String)
    ensures
        r@ == framed(message@),
{
    let mut line = message;
    line.push('\n');
    line
}

/// What a line that was read holds.
pub fn unframe(line: &str) -> (r: Line)
    ensures
        line_holds(line@, r),
{
    if line.is_empty() {
        return Line::End;
    }
    if line.as_bytes().len() > MAX_LINE {
        return Line::TooLarge("message too large".to_owned());
    }
    Line::Text(trim_end(line))
}

/// A message that ends in no whitespace and is not too long comes back as it was
/// sent.
pub proof fn framed_message_is_read_back(message: Seq<char>, r: Line)
    requires
        without_trailing_space(message) == message,
        vstd::utf8::encode_utf8(framed(message)).len() <= MAX_LINE,
        line_holds(framed(message), r),
    ensures
        r matches Line::Text(t) && t@ == message,
{
    assert(framed(message).drop_last() =~= message);
}

/// A message is sent as a line of its own: its characters, and one line feed.
pub proof fn messages_are_sent_as_lines(message: Seq<char>)
    ensures
        framed(message).len() == message.len() + 1,
        framed(message).drop_last() == message,
        framed(message).last() == '\n',
{
    assert(framed(message).drop_last() =~= message);
}

/// A line that was read holds the end of the stream where it is empty, nothing
/// where it is over 1 MiB, and else one message: all of the line but the space at
/// its end.
pub proof fn lines_hold_one_message(line: Seq<char>, r: Line)
    requires
        line_holds(line, r),
    ensures
        r is End <==> line.len() == 0,
        r is TooLarge <==> line.len() > 0 && vstd::utf8::encode_utf8(line).len() > 1024 * 1024,
        r matches Line::TooLarge(words) ==> words@ == "message too large"@,
        r matches Line::Text(t) ==> {
            &&& t@.len() <= line.len()
            &&& t@ == line.take(t@.len() as int)
            &&& crate::text_laws::blank(line.skip(t@.len() as int))
            &&& t@.len() > 0 ==> !crate::text::is_space(t@.last())
        },
{
    crate::text_laws::trailing_space_alone_is_dropped(line);
}

} // verus!
