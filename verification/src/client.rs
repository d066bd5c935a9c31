//! The joiner's side: what it asks the owner, what it makes of the answers, and
//! what it sends once it is in.
//!
//! To join, a peer sends its request, waits, looks at the front of the queue of
//! received frames, and does so again until the owner has answered or the
//! attempts are used up. The sending and the waiting are the caller's; which of
//! the four ways it goes on after each look is decided here.

use std::collections::VecDeque;
use vstd::prelude::*;
use vstd::string::*;
use vstd::utf8::*;

use crate::protocol::{
    fixed_width, set_id, shown, strip, strip_fill, Frame, Header, Message, ProtocolID, ID_LEN,
};
use crate::server::{kind_of, Code, Identity, Room, RoomView, JOIN_FAILED, JOIN_SUCCESS};
use crate::util::same_text;

verus! {

/// The tag under which peers speak unless told otherwise.
pub const DEFAULT_PROTOCOL: &'static str = "MOYU";

/// What a user types to leave.
pub const EXIT_COMMAND: &'static str = "exit";

/// The most characters a key has.
pub const KEY_MAX_LEN: usize = 16;

/// How often a request is sent before the joiner gives up.
pub const TIMEOUT_COUNT: usize = 30;

/// How long the joiner waits for the answer after each request, in
/// milliseconds. The wait is the same at every attempt.
pub const RETRY_MILLIS: u64 = 1500;

/// How a handshake goes on after one look at the queue.
#[derive(Clone, Copy, Debug, PartialEq, Eq, Structural)]
pub enum JoinStep {
    /// The owner let this peer in.
    Joined,
    /// The owner refused the key.
    Refused,
    /// No answer yet: send the request again.
    Retry,
    /// No answer, and no attempt is left.
    TimedOut,
}

/// A handshake under way.
#[derive(Debug)]
pub struct Handshake {
    /// The request to send at each attempt.
    pub request: Message,
    /// How many attempts have been looked at.
    pub attempts: usize,
    /// How many attempts there are.
    pub limit: usize,
}

/// What a frame taken from the queue says about the request: `Some(true)` for a
/// reply of `JOIN_SUCCESS`, `Some(false)` for a reply of `JOIN_FAILED`, and
/// `None` for no frame or any other.
pub open spec fn verdict(popped: Option<Frame>) -> Option<bool> {
    match popped {
        Some(f) => if kind_of(f.code) != Code::Reply {
            None
        } else if f.message == JOIN_SUCCESS@ {
            Some(true)
        } else if f.message == JOIN_FAILED@ {
            Some(false)
        } else {
            None
        },
        None => None,
    }
}

/// How a handshake that has looked at `attempts` of its `limit` attempts goes on
/// when it finds `popped` at the front of the queue.
pub open spec fn step(attempts: nat, limit: nat, popped: Option<Frame>) -> JoinStep {
    match verdict(popped) {
        Some(true) => JoinStep::Joined,
        Some(false) => JoinStep::Refused,
        None => if attempts + 1 >= limit {
            JoinStep::TimedOut
        } else {
            JoinStep::Retry
        },
    }
}

/// Where a handshake ends when `popped` is what it finds, look after look: the
/// number of the attempt, counted from `attempts + 1`, and how it ends there; or
/// `None` where it is still under way after the last of them.
pub open spec fn ends(attempts: nat, limit: nat, popped: Seq<Option<Frame>>) -> Option<
    (nat, JoinStep),
>
    decreases popped.len(),
{
    if popped.len() == 0 {
        None
    } else {
        match step(attempts, limit, popped[0]) {
            JoinStep::Retry => ends(attempts + 1, limit, popped.drop_first()),
            end => Some((attempts + 1, end)),
        }
    }
}

/// The view of a frame that may be there.
pub open spec fn seen(popped: Option<&Message>) -> Option<Frame> {
    match popped {
        Some(m) => Some(m@),
        None => None,
    }
}

/// The request with which a peer of `session` asks to join, showing `key`, and
/// the count of its attempts, none of `TIMEOUT_COUNT` made so far.
pub fn join_room(session: &ProtocolID, key: &String) -> (handshake: Handshake)
    ensures
        handshake.request@ == (Frame {
            code: Code::Request.wire_byte(),
            message: key@,
            pro_id: session@,
        }),
        handshake.attempts == 0,
        handshake.limit == TIMEOUT_COUNT,
{
    Handshake {
        request: Message::new(Code::Request.byte(), key, session),
        attempts: 0,
        limit: TIMEOUT_COUNT,
    }
}

impl Handshake {
    /// Counts one attempt and says how to go on, given what was at the front of
    /// the queue after the wait.
    ///
    /// A reply of `JOIN_SUCCESS` ends the handshake well and one of
    /// `JOIN_FAILED` ends it at once. With anything else, or nothing, the
    /// request is to be sent again, unless this was the last attempt.
    pub fn step(&mut self, popped: Option<&Message>) -> (next: JoinStep)
        ensures
            next == step(old(self).attempts as nat, old(self).limit as nat, seen(popped)),
            final(self).attempts == (if old(self).attempts < old(self).limit {
                old(self).attempts + 1
            } else {
                old(self).attempts as int
            }),
            final(self).limit == old(self).limit,
            final(self).request == old(self).request,
    {
        if self.attempts < self.limit {
            self.attempts += 1;
        }
        match popped {
            Some(message) => {
                if Code::from(message.code) == Code::Reply {
                    if same_text(message.message.as_str(), JOIN_SUCCESS) {
                        return JoinStep::Joined;
                    } else if same_text(message.message.as_str(), JOIN_FAILED) {
                        return JoinStep::Refused;
                    }
                }
            },
            None => {},
        }
        if self.attempts >= self.limit {
            JoinStep::TimedOut
        } else {
            JoinStep::Retry
        }
    }
}

/// The part that the user chose by typing `choice`: `1` opens a room and `2`
/// joins one.
pub fn choose_owner(choice: char) -> (identity: Option<Identity>)
    ensures
        identity == (if choice == '1' {
            Some(Identity::RoomOwner)
        } else if choice == '2' {
            Some(Identity::RooomJoiner)
        } else {
            None
        }),
{
    if choice == '1' {
        Some(Identity::RoomOwner)
    } else if choice == '2' {
        Some(Identity::RooomJoiner)
    } else {
        None
    }
}

/// Whether `key` can be the key of a room: it is not empty and has at most
/// `KEY_MAX_LEN` characters.
pub fn input_key(key: &str) -> (ok: bool)
    ensures
        ok == (0 < key@.len() <= KEY_MAX_LEN),
{
    let len = key.unicode_len();
    0 < len && len <= KEY_MAX_LEN
}

/// Whether something of `id` is left on the wire: cut to the width of a sender
/// id, it does not consist of fill bytes alone.
pub open spec fn usable_id(id: Seq<char>) -> bool {
    strip_fill(fixed_width(encode_utf8(id), ID_LEN as nat)).len() > 0
}

/// The text that `str::trim` leaves of a line.
pub uninterp spec fn trimmed(line: Seq<char>) -> Seq<char>;

/// `text` is one part of `line`, cut out of it in one piece.
pub open spec fn part_of(text: Seq<char>, line: Seq<char>) -> bool {
    exists|from: int, to: int| 0 <= from <= to <= line.len() && text == line.subrange(from, to)
}

/// `str::trim`: the line without the white space at its two ends, a slice of
/// the line. What counts as white space is Unicode's to say, so the result is
/// only named.
#[verifier::external_body]
fn trim(line: &str) -> (text: &str)
    ensures
        text@ == trimmed(line@),
        part_of(text@, line@),
{
    line.trim()
}

/// What becomes of an answer to the question for the sender id.
#[derive(Clone, Copy, Debug, PartialEq, Eq, Structural)]
pub enum Answer {
    /// The user wants to leave.
    Leave,
    /// The answer cannot be a sender id: ask again.
    Again,
    /// The answer is the sender id now.
    Taken,
}

/// What becomes of the answer `text`: `EXIT_COMMAND` is the wish to leave, a
/// text of which nothing is left on the wire is asked for again, and any other
/// is taken.
pub open spec fn answered(text: Seq<char>) -> Answer {
    if text == EXIT_COMMAND@ {
        Answer::Leave
    } else if usable_id(text) {
        Answer::Taken
    } else {
        Answer::Again
    }
}

/// Whether `text` is what a user types to leave.
pub fn wants_exit(text: &str) -> (b: bool)
    ensures
        b == (text@ == EXIT_COMMAND@),
{
    same_text(text, EXIT_COMMAND)
}

/// Takes `text` as the answer to the question for the sender id. Unless it is
/// the wish to leave it becomes the sender id of `session`, usable or not.
pub fn identity_entered(session: &mut ProtocolID, text: &str) -> (answer: Answer)
    ensures
        answer == answered(text@),
        final(session)@ == (if answer == Answer::Leave {
            old(session)@
        } else {
            Header {
                protocol: old(session)@.protocol,
                id: fixed_width(encode_utf8(text@), ID_LEN as nat),
            }
        }),
{
    if wants_exit(text) {
        return Answer::Leave;
    }
    set_id(session, &text.to_owned());
    if strip(session.id.as_slice()).len() > 0 {
        Answer::Taken
    } else {
        Answer::Again
    }
}

/// Takes a line as the user typed it as the answer to the question for the
/// sender id: the line is trimmed, then taken as `identity_entered` takes it.
pub fn input_identity(session: &mut ProtocolID, line: &str) -> (answer: Answer)
    ensures
        part_of(trimmed(line@), line@),
        answer == answered(trimmed(line@)),
        final(session)@ == (if answer == Answer::Leave {
            old(session)@
        } else {
            Header {
                protocol: old(session)@.protocol,
                id: fixed_width(encode_utf8(trimmed(line@)), ID_LEN as nat),
            }
        }),
{
    identity_entered(session, trim(line))
}

/// What a line that the user entered comes to.
#[derive(Debug)]
pub enum Entered {
    /// The line was empty.
    Nothing,
    /// A frame to send to the owner: what the user said.
    Say(Message),
    /// A frame to send to the owner before leaving.
    Leave(Message),
}

/// What an `Entered` holds.
pub enum EnteredView {
    Nothing,
    Say(Frame),
    Leave(Frame),
}

impl View for Entered {
    type V = EnteredView;

    open spec fn view(&self) -> EnteredView {
        match self {
            Entered::Nothing => EnteredView::Nothing,
            Entered::Say(m) => EnteredView::Say(m@),
            Entered::Leave(m) => EnteredView::Leave(m@),
        }
    }
}

/// What the text `text` comes to when a peer in `room` enters it: nothing where
/// it is empty; the peer's leave, with the room's notice of it, where it is
/// `EXIT_COMMAND`; and otherwise a frame of kind `Message` that says it.
pub open spec fn entered(room: RoomView, text: Seq<char>) -> EnteredView {
    if text.len() == 0 {
        EnteredView::Nothing
    } else if text == EXIT_COMMAND@ {
        EnteredView::Leave(
            Frame { code: Code::Exit.wire_byte(), message: room.exit_notice, pro_id: room.session },
        )
    } else {
        EnteredView::Say(
            Frame { code: Code::Message.wire_byte(), message: text, pro_id: room.session },
        )
    }
}

/// Makes the frame, if any, for a text that was entered.
pub fn submit(room: &Room, text: &str) -> (e: Entered)
    ensures
        e@ == entered(room@, text@),
{
    if text.is_empty() {
        Entered::Nothing
    } else if same_text(text, EXIT_COMMAND) {
        Entered::Leave(Message::new(Code::Exit.byte(), &room.exit_notice, &room.session))
    } else {
        Entered::Say(Message::new(Code::Message.byte(), &text.to_owned(), &room.session))
    }
}

/// Makes the frame, if any, for a line as the user typed it: the line is
/// trimmed, then taken as `submit` takes it.
pub fn communication(room: &Room, input: &str) -> (e: Entered)
    ensures
        part_of(trimmed(input@), input@),
        e@ == entered(room@, trimmed(input@)),
{
    submit(room, trim(input))
}

/// Takes the frame at the front of the queue of received frames, if there is
/// one.
pub fn get_new_message(mess_que: &mut VecDeque<Message>) -> (front: Option<Message>)
    ensures
        match front {
            Some(m) => old(mess_que).deep_view().len() > 0 && m@ == old(mess_que).deep_view()[0]
                && final(mess_que).deep_view() == old(mess_que).deep_view().drop_first(),
            None => old(mess_que).deep_view().len() == 0 && final(mess_que).deep_view() == old(
                mess_que,
            ).deep_view(),
        },
{
    let front = mess_que.pop_front();
    assert(front is Some ==> mess_que.deep_view() == old(mess_que).deep_view().drop_first());
    assert(front is None ==> mess_que.deep_view() == old(mess_que).deep_view());
    front
}

/// The line that the display shows for a frame taken from the queue: only what
/// someone said is shown.
pub fn display_line(message: &Message) -> (line: Option<String>)
    ensures
        match line {
            Some(l) => kind_of(message@.code) == Code::Message && l@ == shown(message@),
            None => kind_of(message@.code) != Code::Message,
        },
{
    if Code::from(message.code) == Code::Message {
        Some(message.to_string())
    } else {
        None
    }
}

impl Handshake {
    /// Takes the frame at the front of `mess_que`, if there is one, and goes on
    /// as `step` says for it.
    pub fn poll(&mut self, mess_que: &mut VecDeque<Message>) -> (next: JoinStep)
        ensures
            next == step(
                old(self).attempts as nat,
                old(self).limit as nat,
                if old(mess_que).deep_view().len() > 0 {
                    Some(old(mess_que).deep_view()[0])
                } else {
                    None
                },
            ),
            final(mess_que).deep_view() == (if old(mess_que).deep_view().len() > 0 {
                old(mess_que).deep_view().drop_first()
            } else {
                old(mess_que).deep_view()
            }),
            final(self).attempts == (if old(self).attempts < old(self).limit {
                old(self).attempts + 1
            } else {
                old(self).attempts as int
            }),
            final(self).limit == old(self).limit,
            final(self).request == old(self).request,
    {
        match get_new_message(mess_que) {
            Some(message) => self.step(Some(&message)),
            None => self.step(None),
        }
    }
}

/// With an owner that never answers, a handshake of `limit` attempts gives up
/// at attempt `limit` exactly: before it the handshake is still under way, and
/// there it has timed out.
pub proof fn lemma_handshake_bound(limit: nat, popped: Seq<Option<Frame>>)
    requires
        limit >= 1,
        forall|i: int| 0 <= i < popped.len() ==> verdict(#[trigger] popped[i]) is None,
    ensures
        popped.len() < limit ==> ends(0, limit, popped) is None,
        popped.len() >= limit ==> ends(0, limit, popped) == Some((limit, JoinStep::TimedOut)),
{
    lemma_unanswered(0, limit, popped);
}

/// The same from any attempt on.
proof fn lemma_unanswered(attempts: nat, limit: nat, popped: Seq<Option<Frame>>)
    requires
        attempts < limit,
        forall|i: int| 0 <= i < popped.len() ==> verdict(#[trigger] popped[i]) is None,
    ensures
        attempts + popped.len() < limit ==> ends(attempts, limit, popped) is None,
        attempts + popped.len() >= limit ==> ends(attempts, limit, popped) == Some(
            (limit, JoinStep::TimedOut),
        ),
    decreases popped.len(),
{
    if popped.len() > 0 {
        assert(verdict(popped[0]) is None);
        if attempts + 1 < limit {
            let rest = popped.drop_first();
            assert forall|i: int| 0 <= i < rest.len() implies verdict(#[trigger] rest[i]) is None by {
                assert(rest[i] == popped[i + 1]);
            }
            lemma_unanswered(attempts + 1, limit, rest);
        }
    }
}

} // verus!
