//! The lines that the display keeps: the last few, oldest first.

use std::collections::VecDeque;
use vstd::prelude::*;

verus! {

/// How many lines stay when one more comes in.
pub const MESSAGE_BUF: usize = 20;

/// The lines after `message` came in: over `MESSAGE_BUF` lines the oldest
/// leaves first, then `message` goes to the end.
pub open spec fn pushed(lines: Seq<Seq<char>>, message: Seq<char>) -> Seq<Seq<char>> {
    if lines.len() > MESSAGE_BUF {
        lines.drop_first().push(message)
    } else {
        lines.push(message)
    }
}

/// Forgets every line.
pub fn clear_buf(messages: &mut VecDeque<String>)
    ensures
        final(messages)@ == Seq::<String>::empty(),
{
    messages.clear();
}

/// Takes `message` in as the newest line, and drops the oldest where more than
/// `MESSAGE_BUF` were kept. From a history of at most `MESSAGE_BUF` lines and
/// one more, no longer one ever comes.
pub fn push_message(messages: &mut VecDeque<String>, message: &String)
    ensures
        final(messages).deep_view() == pushed(old(messages).deep_view(), message@),
        old(messages)@.len() <= MESSAGE_BUF + 1 ==> final(messages)@.len() <= MESSAGE_BUF + 1,
{
    if messages.len() > MESSAGE_BUF {
        messages.pop_front();
    }
    let ghost kept = messages.deep_view();
    assert(kept == if old(messages)@.len() > MESSAGE_BUF {
        old(messages).deep_view().drop_first()
    } else {
        old(messages).deep_view()
    });
    messages.push_back(message.clone());
    assert(messages.deep_view() == kept.push(message@));
}

} // verus!
