//! The room: who is in it, and what the peer that owns it does with each frame
//! that arrives.
//!
//! Nothing here touches a socket. A handler takes the frame and the address it
//! came from, changes roster and queue, and gives back the datagrams to send, in
//! order; the caller sends each on its own, so that one that fails holds up none
//! of the others.

use std::collections::VecDeque;
use vstd::prelude::*;

use crate::addr::PeerAddr;
use crate::protocol::{decode, wire, Frame, Header, Message, ProtocolID};
use crate::style::{bold_green, bold_red, green_bold, red_bold, rendering};
use crate::util::same_text;

verus! {

/// Which part this peer plays. It is chosen once, at startup.
#[derive(PartialEq, Eq, Structural, Clone, Copy, Debug)]
pub enum Identity {
    /// Not chosen yet.
    Unset,
    RoomOwner,
    RooomJoiner,
}

impl Identity {
    pub fn is_room_owner(&self) -> (b: bool)
        ensures
            b == (*self == Identity::RoomOwner),
    {
        *self == Identity::RoomOwner
    }

    pub fn is_room_joiner(&self) -> (b: bool)
        ensures
            b == (*self == Identity::RooomJoiner),
    {
        *self == Identity::RooomJoiner
    }
}

/// The kind of a frame. On the wire it is one byte, from 0 for `Request` to 4
/// for `Unknown`; `Unknown` is also what every other byte means, and a frame of
/// that kind is passed over.
#[derive(Debug, Clone, Copy, PartialEq, Eq, Structural)]
pub enum Code {
    /// A peer asks to join, and shows the key.
    Request,
    /// The owner's answer to a request.
    Reply,
    /// Text that someone said.
    Message,
    /// A peer leaves.
    Exit,
    /// Any other byte: no kind at all.
    Unknown,
}

/// The kind that a byte of the wire stands for.
pub open spec fn kind_of(byte: u8) -> Code {
    if byte == 0 {
        Code::Request
    } else if byte == 1 {
        Code::Reply
    } else if byte == 2 {
        Code::Message
    } else if byte == 3 {
        Code::Exit
    } else {
        Code::Unknown
    }
}

impl Code {
    /// The byte that stands for this kind on the wire.
    pub open spec fn wire_byte(self) -> u8 {
        match self {
            Code::Request => 0,
            Code::Reply => 1,
            Code::Message => 2,
            Code::Exit => 3,
            Code::Unknown => 4,
        }
    }

    /// The byte that stands for this kind on the wire.
    pub fn byte(self) -> (b: u8)
        ensures
            b == self.wire_byte(),
            kind_of(b) == self,
    {
        match self {
            Code::Request => 0,
            Code::Reply => 1,
            Code::Message => 2,
            Code::Exit => 3,
            Code::Unknown => 4,
        }
    }
}

impl From<u8> for Code {
    fn from(code: u8) -> (kind: Code) {
        if code == 0 {
            Code::Request
        } else if code == 1 {
            Code::Reply
        } else if code == 2 {
            Code::Message
        } else if code == 3 {
            Code::Exit
        } else {
            Code::Unknown
        }
    }
}

impl vstd::std_specs::convert::FromSpecImpl<u8> for Code {
    open spec fn obeys_from_spec() -> bool {
        true
    }

    open spec fn from_spec(code: u8) -> Code {
        kind_of(code)
    }
}

/// The text of the reply to a request that showed the right key.
pub const JOIN_SUCCESS: &'static str = "Success join room";

/// The text of the reply to a request that showed a wrong key.
pub const JOIN_FAILED: &'static str = "Error key";

/// The text by which a peer says that it leaves.
pub const EXIT_ROOM: &'static str = "Exit room";

/// A datagram to send: where to, and its bytes.
#[derive(Debug)]
pub struct Datagram {
    pub addr: PeerAddr,
    pub buf: Vec<u8>,
}

/// What a `Datagram` holds.
pub struct Packet {
    pub addr: PeerAddr,
    pub buf: Seq<u8>,
}

impl View for Datagram {
    type V = Packet;

    open spec fn view(&self) -> Packet {
        Packet { addr: self.addr, buf: self.buf@ }
    }
}

impl DeepView for Datagram {
    type V = Packet;

    open spec fn deep_view(&self) -> Packet {
        self@
    }
}

/// The datagram that carries `message` to `addr`.
pub fn send_message_to(message: &Message, addr: &PeerAddr) -> (d: Datagram)
    ensures
        d@ == (Packet { addr: *addr, buf: wire(message@) }),
{
    Datagram { addr: *addr, buf: message.to_buf() }
}

/// Whether a peer at `a` is sent what the peer at `sender` caused: never the
/// sender itself, and never this peer's own address `local`.
pub open spec fn receives(local: PeerAddr, sender: PeerAddr) -> spec_fn(PeerAddr) -> bool {
    |a: PeerAddr| a != local && a != sender
}

/// One datagram with the frame `f` for each address in `to`, in that order.
pub open spec fn fan_out(f: Frame, to: Seq<PeerAddr>) -> Seq<Packet> {
    Seq::new(to.len(), |i: int| Packet { addr: to[i], buf: wire(f) })
}

/// The datagrams that carry `message` to the members on the roster `ips`, in
/// roster order, but for this peer itself, at `local`, and for `sender`.
pub fn send_message_to_all(
    message: &Message,
    ips: &Vec<PeerAddr>,
    local: &PeerAddr,
    sender: &PeerAddr,
) -> (sends: Vec<Datagram>)
    ensures
        sends.deep_view() == fan_out(message@, ips@.filter(receives(*local, *sender))),
{
    let mut sends: Vec<Datagram> = Vec::new();
    let mut i: usize = 0;
    assert(ips@.take(0) == Seq::<PeerAddr>::empty());
    assert(Seq::<PeerAddr>::empty().filter(receives(*local, *sender)) == Seq::<PeerAddr>::empty())
        by {
        reveal(Seq::filter);
    }
    assert(sends.deep_view() == fan_out(message@, ips@.take(0).filter(receives(*local, *sender))));
    while i < ips.len()
        invariant
            i <= ips@.len(),
            sends.deep_view() == fan_out(
                message@,
                ips@.take(i as int).filter(receives(*local, *sender)),
            ),
        decreases ips@.len() - i,
    {
        let ip = ips[i];
        proof {
            assert(ips@.take(i + 1) == ips@.take(i as int).push(ip));
            ips@.take(i as int).lemma_filter_push(ip, receives(*local, *sender));
        }
        if ip != *local && ip != *sender {
            let ghost before = sends.deep_view();
            sends.push(send_message_to(message, &ip));
            assert(sends.deep_view() == before.push(Packet { addr: ip, buf: wire(message@) }));
        }
        i += 1;
    }
    assert(ips@.take(i as int) == ips@);
    sends
}

/// Where `ip` stands first on the roster `ips`, if it is on it.
pub fn find_ip(ip: &PeerAddr, ips: &Vec<PeerAddr>) -> (found: Option<usize>)
    ensures
        match found {
            Some(index) => index < ips@.len() && ips@[index as int] == *ip && !ips@.take(
                index as int,
            ).contains(*ip),
            None => !ips@.contains(*ip),
        },
{
    let mut index: usize = 0;
    while index < ips.len()
        invariant
            index <= ips@.len(),
            !ips@.take(index as int).contains(*ip),
        decreases ips@.len() - index,
    {
        if ips[index] == *ip {
            return Some(index);
        }
        assert(ips@.take(index + 1) == ips@.take(index as int).push(ips@[index as int]));
        index += 1;
    }
    assert(ips@.take(index as int) == ips@);
    None
}

/// Whether `ip` is on the roster `ips`.
pub fn is_joined_room(ip: &PeerAddr, ips: &Vec<PeerAddr>) -> (joined: bool)
    ensures
        joined == ips@.contains(*ip),
{
    find_ip(ip, ips).is_some()
}

/// Puts `ip` on the roster `ips`, at its end, unless it is there already.
/// Returns whether it was added.
pub fn push_into_ips(ip: &PeerAddr, ips: &mut Vec<PeerAddr>) -> (added: bool)
    ensures
        added == !old(ips)@.contains(*ip),
        final(ips)@ == (if added {
            old(ips)@.push(*ip)
        } else {
            old(ips)@
        }),
        old(ips)@.no_duplicates() ==> final(ips)@.no_duplicates(),
{
    if is_joined_room(ip, ips) {
        return false;
    }
    ips.push(*ip);
    true
}

/// Whether an address is another one than `ip`.
pub open spec fn other_than(ip: PeerAddr) -> spec_fn(PeerAddr) -> bool {
    |a: PeerAddr| a != ip
}

/// Takes `ip` off the roster `ips`, wherever it stands; the others keep their
/// order.
pub fn remove_ip(ip: &PeerAddr, ips: &mut Vec<PeerAddr>)
    ensures
        final(ips)@ == old(ips)@.filter(other_than(*ip)),
        !final(ips)@.contains(*ip),
        old(ips)@.no_duplicates() ==> final(ips)@.no_duplicates(),
{
    let mut kept: Vec<PeerAddr> = Vec::new();
    let mut i: usize = 0;
    assert(ips@.take(0) == Seq::<PeerAddr>::empty());
    assert(Seq::<PeerAddr>::empty().filter(other_than(*ip)) == Seq::<PeerAddr>::empty()) by {
        reveal(Seq::filter);
    }
    while i < ips.len()
        invariant
            i <= ips@.len(),
            kept@ == ips@.take(i as int).filter(other_than(*ip)),
        decreases ips@.len() - i,
    {
        let a = ips[i];
        proof {
            assert(ips@.take(i + 1) == ips@.take(i as int).push(a));
            ips@.take(i as int).lemma_filter_push(a, other_than(*ip));
        }
        if a != *ip {
            kept.push(a);
        }
        i += 1;
    }
    proof {
        assert(ips@.take(i as int) == ips@);
        lemma_filter_keeps(ips@, other_than(*ip));
    }
    *ips = kept;
}

/// What a filter keeps: only what passes, each as often as before at most, so
/// that a roster without duplicates stays one.
pub proof fn lemma_filter_keeps(ips: Seq<PeerAddr>, pred: spec_fn(PeerAddr) -> bool)
    ensures
        forall|a: PeerAddr| #[trigger] ips.filter(pred).contains(a) <==> ips.contains(a) && pred(a),
        ips.no_duplicates() ==> ips.filter(pred).no_duplicates(),
    decreases ips.len(),
{
    reveal(Seq::filter);
    if ips.len() > 0 {
        let before = ips.drop_last();
        let last = ips.last();
        lemma_filter_keeps(before, pred);
        assert(ips == before.push(last));
        let kept = before.filter(pred);
        let all = ips.filter(pred);
        assert(all == if pred(last) {
            kept.push(last)
        } else {
            kept
        });
        assert forall|a: PeerAddr| #[trigger] all.contains(a) implies ips.contains(a) && pred(a) by {
            let j = choose|j: int| 0 <= j < all.len() && all[j] == a;
            if j < kept.len() {
                assert(kept[j] == a);
                assert(kept.contains(a));
                let i = choose|i: int| 0 <= i < before.len() && before[i] == a;
                assert(ips[i] == a);
            } else {
                assert(ips[ips.len() - 1] == a);
            }
        }
        assert forall|a: PeerAddr| ips.contains(a) && pred(a) implies #[trigger] all.contains(
            a,
        ) by {
            let i = choose|i: int| 0 <= i < ips.len() && ips[i] == a;
            if i < before.len() {
                assert(before[i] == a);
                assert(before.contains(a));
                assert(kept.contains(a));
                let j = choose|j: int| 0 <= j < kept.len() && kept[j] == a;
                assert(all[j] == a);
            } else {
                assert(all[kept.len() as int] == a);
            }
        }
        if ips.no_duplicates() {
            assert(before.no_duplicates());
            if pred(last) {
                if kept.contains(last) {
                    let i = choose|i: int| 0 <= i < before.len() && before[i] == last;
                    assert(ips[i] == ips[ips.len() - 1]);
                }
                assert(!kept.contains(last));
                assert(kept.push(last).no_duplicates());
            }
        }
    }
}

/// Puts `message` at the back of the queue of received frames.
pub fn push_to_message_queue(message: &Message, mess_que: &mut VecDeque<Message>)
    ensures
        final(mess_que).deep_view() == old(mess_que).deep_view().push(message@),
{
    mess_que.push_back(message.clone());
    assert(mess_que.deep_view() == old(mess_que).deep_view().push(message@));
}

/// The state of one peer: its settings, fixed at startup, and its roster.
///
/// The owner's roster holds the members of the room, each address once, in the
/// order in which they joined. A joiner's roster holds one address at most: that
/// of the owner that let it in.
#[derive(Debug)]
pub struct Room {
    /// The part this peer plays.
    pub identity: Identity,
    /// The key that a request must show.
    pub key: String,
    /// Tag and sender id under which this peer speaks.
    pub session: ProtocolID,
    /// The address this peer's socket is bound to.
    pub local: PeerAddr,
    /// The roster.
    pub ips: Vec<PeerAddr>,
    /// The text that announces a new member.
    pub join_notice: String,
    /// The text that announces that a member left.
    pub exit_notice: String,
}

/// What a `Room` holds.
pub struct RoomView {
    pub identity: Identity,
    pub key: Seq<char>,
    pub session: Header,
    pub local: PeerAddr,
    pub ips: Seq<PeerAddr>,
    pub join_notice: Seq<char>,
    pub exit_notice: Seq<char>,
}

impl View for Room {
    type V = RoomView;

    open spec fn view(&self) -> RoomView {
        RoomView {
            identity: self.identity,
            key: self.key@,
            session: self.session@,
            local: self.local,
            ips: self.ips@,
            join_notice: self.join_notice@,
            exit_notice: self.exit_notice@,
        }
    }
}

/// The two notices say what they are to say: one is `JOIN_SUCCESS` in bold
/// green, the other `EXIT_ROOM` in bold red, each as a terminal is to show it.
pub open spec fn announces(room: RoomView) -> bool {
    &&& rendering(room.join_notice, JOIN_SUCCESS@, green_bold(JOIN_SUCCESS@))
    &&& rendering(room.exit_notice, EXIT_ROOM@, red_bold(EXIT_ROOM@))
}

/// No address is on the roster twice, and the notices say what they are to say.
pub open spec fn valid(room: RoomView) -> bool {
    &&& room.ips.no_duplicates()
    &&& announces(room)
}

/// What handling one frame comes to: the room and the queue after it, and the
/// datagrams to send, in order.
pub struct Outcome {
    pub room: RoomView,
    pub queue: Seq<Frame>,
    pub sends: Seq<Packet>,
}

/// Nothing changes and nothing is sent.
pub open spec fn idle(room: RoomView, queue: Seq<Frame>) -> Outcome {
    Outcome { room, queue, sends: Seq::empty() }
}

/// The owner's reply with the text `text`, for the peer at `addr`.
pub open spec fn reply(room: RoomView, text: Seq<char>, addr: PeerAddr) -> Packet {
    Packet {
        addr,
        buf: wire(Frame { code: Code::Reply.wire_byte(), message: text, pro_id: room.session }),
    }
}

/// The announcement that the sender of the request `f` joined: said in that
/// peer's name, under the room's tag.
pub open spec fn joined_notice(room: RoomView, f: Frame) -> Frame {
    Frame {
        code: Code::Message.wire_byte(),
        message: room.join_notice,
        pro_id: Header { protocol: room.session.protocol, id: f.pro_id.id },
    }
}

/// The announcement that the sender of `f` left, said under that frame's header.
pub open spec fn left_notice(room: RoomView, f: Frame) -> Frame {
    Frame { code: Code::Message.wire_byte(), message: room.exit_notice, pro_id: f.pro_id }
}

/// What a frame of kind `Exit` from `addr` comes to, or a request to leave.
///
/// The notice that the peer left is queued. An owner, unless the frame is its
/// own, takes the address off the roster and sends the notice to those who
/// remain.
pub open spec fn on_exit(room: RoomView, queue: Seq<Frame>, f: Frame, addr: PeerAddr) -> Outcome {
    let notice = left_notice(room, f);
    if room.identity == Identity::RoomOwner && addr != room.local {
        let left = room.ips.filter(other_than(addr));
        Outcome {
            room: RoomView { ips: left, ..room },
            queue: queue.push(notice),
            sends: fan_out(notice, left.filter(receives(room.local, addr))),
        }
    } else {
        Outcome { room, queue: queue.push(notice), sends: Seq::empty() }
    }
}

/// What a frame of kind `Request` from `addr` comes to. Only an owner answers.
///
/// The right key is answered with `JOIN_SUCCESS`; a sender that is not on the
/// roster yet is put on it, and its joining is queued and sent to the other
/// members. A text that is `EXIT_ROOM`, and not the key, is a leave. Anything
/// else is answered with `JOIN_FAILED`.
pub open spec fn on_request(room: RoomView, queue: Seq<Frame>, f: Frame, addr: PeerAddr) -> Outcome {
    if room.identity != Identity::RoomOwner {
        idle(room, queue)
    } else if f.message == room.key {
        if room.ips.contains(addr) {
            Outcome { room, queue, sends: seq![reply(room, JOIN_SUCCESS@, addr)] }
        } else {
            let notice = joined_notice(room, f);
            let ips = room.ips.push(addr);
            Outcome {
                room: RoomView { ips, ..room },
                queue: queue.push(notice),
                sends: seq![reply(room, JOIN_SUCCESS@, addr)] + fan_out(
                    notice,
                    ips.filter(receives(room.local, addr)),
                ),
            }
        }
    } else if f.message == EXIT_ROOM@ {
        on_exit(room, queue, f, addr)
    } else {
        Outcome { room, queue, sends: seq![reply(room, JOIN_FAILED@, addr)] }
    }
}

/// What a frame of kind `Reply` from `addr` comes to. An owner passes it over.
/// Any other peer queues it, and on `JOIN_SUCCESS` remembers `addr` as the
/// owner's address, in place of what it remembered before.
pub open spec fn on_reply(room: RoomView, queue: Seq<Frame>, f: Frame, addr: PeerAddr) -> Outcome {
    if room.identity == Identity::RoomOwner {
        idle(room, queue)
    } else if f.message == JOIN_SUCCESS@ {
        Outcome { room: RoomView { ips: seq![addr], ..room }, queue: queue.push(f), sends: Seq::empty() }
    } else {
        Outcome { room, queue: queue.push(f), sends: Seq::empty() }
    }
}

/// What a frame of kind `Message` from `addr` comes to: it is queued, and an
/// owner sends the same frame to every member but the one it came from.
pub open spec fn on_message(room: RoomView, queue: Seq<Frame>, f: Frame, addr: PeerAddr) -> Outcome {
    Outcome {
        room,
        queue: queue.push(f),
        sends: if room.identity == Identity::RoomOwner {
            fan_out(f, room.ips.filter(receives(room.local, addr)))
        } else {
            Seq::empty()
        },
    }
}

/// What a decoded frame from `addr` comes to, by its kind.
pub open spec fn on_frame(room: RoomView, queue: Seq<Frame>, f: Frame, addr: PeerAddr) -> Outcome {
    match kind_of(f.code) {
        Code::Request => on_request(room, queue, f, addr),
        Code::Reply => on_reply(room, queue, f, addr),
        Code::Message => on_message(room, queue, f, addr),
        Code::Exit => on_exit(room, queue, f, addr),
        Code::Unknown => idle(room, queue),
    }
}

/// What a datagram from `addr` comes to: one that does not decode is dropped.
pub open spec fn on_datagram(
    room: RoomView,
    queue: Seq<Frame>,
    bytes: Seq<u8>,
    addr: PeerAddr,
) -> Outcome {
    match decode(bytes, room.session.protocol) {
        Ok(f) => on_frame(room, queue, f, addr),
        Err(_) => idle(room, queue),
    }
}

impl Room {
    /// A room with an empty roster. The two notices are `JOIN_SUCCESS` in bold
    /// green and `EXIT_ROOM` in bold red.
    pub fn new(identity: Identity, key: String, session: ProtocolID, local: PeerAddr) -> (room:
        Room)
        ensures
            room@.identity == identity,
            room@.key == key@,
            room@.session == session@,
            room@.local == local,
            room@.ips == Seq::<PeerAddr>::empty(),
            announces(room@),
            valid(room@),
    {
        Room {
            identity,
            key,
            session,
            local,
            ips: Vec::new(),
            join_notice: bold_green(JOIN_SUCCESS),
            exit_notice: bold_red(EXIT_ROOM),
        }
    }
}

/// Sets the part this peer plays.
pub fn set_identity(room: &mut Room, identity: Identity)
    ensures
        final(room)@ == (RoomView { identity, ..old(room)@ }),
{
    room.identity = identity;
}

/// The part this peer plays.
pub fn get_identity(room: &Room) -> (identity: Identity)
    ensures
        identity == room@.identity,
{
    room.identity
}

/// The key of the room.
pub fn get_key(room: &Room) -> (key: String)
    ensures
        key@ == room@.key,
{
    room.key.clone()
}

/// Whether this peer owns the room.
pub fn is_room_owner(room: &Room) -> (b: bool)
    ensures
        b == (room@.identity == Identity::RoomOwner),
{
    room.identity.is_room_owner()
}

/// Sets the key of the room.
pub fn set_key(room: &mut Room, key: String)
    ensures
        final(room)@ == (RoomView { key: key@, ..old(room)@ }),
{
    room.key = key;
}

/// Handles a frame of kind `Request` that came from `addr`.
pub fn receive_request(
    message: &Message,
    mess_que: &mut VecDeque<Message>,
    addr: PeerAddr,
    room: &mut Room,
) -> (sends: Vec<Datagram>)
    ensures
        (Outcome {
            room: final(room)@,
            queue: final(mess_que).deep_view(),
            sends: sends.deep_view(),
        }) == on_request(old(room)@, old(mess_que).deep_view(), message@, addr),
        valid(old(room)@) ==> valid(final(room)@),
{
    proof {
        if valid(old(room)@) {
            lemma_frame_keeps_valid(old(room)@, old(mess_que).deep_view(), message@, addr);
        }
    }
    let mut sends: Vec<Datagram> = Vec::new();
    if room.identity.is_room_owner() {
        if same_text(message.message.as_str(), room.key.as_str()) {
            let success = JOIN_SUCCESS.to_owned();
            let ok = Message::new(Code::Reply.byte(), &success, &room.session);
            sends.push(send_message_to(&ok, &addr));
            assert(sends.deep_view() == seq![reply(old(room)@, JOIN_SUCCESS@, addr)]);
            if !is_joined_room(&addr, &room.ips) {
                let join_message = Message {
                    code: Code::Message.byte(),
                    message: room.join_notice.clone(),
                    pro_id: ProtocolID {
                        protocol: room.session.clone().protocol,
                        id: message.pro_id.clone().id,
                    },
                };
                push_into_ips(&addr, &mut room.ips);
                push_to_message_queue(&join_message, mess_que);
                let mut others = send_message_to_all(&join_message, &room.ips, &room.local, &addr);
                let ghost first = sends.deep_view();
                let ghost rest = others.deep_view();
                sends.append(&mut others);
                assert(sends.deep_view() == first + rest);
            }
        } else if same_text(message.message.as_str(), EXIT_ROOM) {
            return receive_exit(message, addr, mess_que, room);
        } else {
            let failed = JOIN_FAILED.to_owned();
            let no = Message::new(Code::Reply.byte(), &failed, &room.session);
            sends.push(send_message_to(&no, &addr));
            assert(sends.deep_view() == seq![reply(old(room)@, JOIN_FAILED@, addr)]);
        }
    } else {
        assert(sends.deep_view() == Seq::<Packet>::empty());
    }
    sends
}

/// Handles a frame of kind `Reply` that came from `addr`.
pub fn receive_reply(
    message: &Message,
    room: &mut Room,
    addr: PeerAddr,
    mess_que: &mut VecDeque<Message>,
)
    ensures
        (Outcome {
            room: final(room)@,
            queue: final(mess_que).deep_view(),
            sends: Seq::empty(),
        }) == on_reply(old(room)@, old(mess_que).deep_view(), message@, addr),
        valid(old(room)@) ==> valid(final(room)@),
{
    proof {
        if valid(old(room)@) {
            lemma_frame_keeps_valid(old(room)@, old(mess_que).deep_view(), message@, addr);
        }
    }
    if !room.identity.is_room_owner() {
        if same_text(message.message.as_str(), JOIN_SUCCESS) {
            let mut owner: Vec<PeerAddr> = Vec::new();
            owner.push(addr);
            room.ips = owner;
            assert(room.ips@ == seq![addr]);
        }
        push_to_message_queue(message, mess_que);
    }
}

/// Handles a frame of kind `Message` that came from `addr`.
pub fn receive_message(
    message: &Message,
    mess_que: &mut VecDeque<Message>,
    room: &Room,
    addr: PeerAddr,
) -> (sends: Vec<Datagram>)
    ensures
        (Outcome { room: room@, queue: final(mess_que).deep_view(), sends: sends.deep_view() })
            == on_message(room@, old(mess_que).deep_view(), message@, addr),
{
    push_to_message_queue(message, mess_que);
    if room.identity.is_room_owner() {
        send_message_to_all(message, &room.ips, &room.local, &addr)
    } else {
        let sends: Vec<Datagram> = Vec::new();
        assert(sends.deep_view() == Seq::<Packet>::empty());
        sends
    }
}

/// Handles a frame of kind `Exit` that came from `addr`, or a request to leave.
pub fn receive_exit(
    message: &Message,
    addr: PeerAddr,
    mess_que: &mut VecDeque<Message>,
    room: &mut Room,
) -> (sends: Vec<Datagram>)
    ensures
        (Outcome {
            room: final(room)@,
            queue: final(mess_que).deep_view(),
            sends: sends.deep_view(),
        }) == on_exit(old(room)@, old(mess_que).deep_view(), message@, addr),
        valid(old(room)@) ==> valid(final(room)@),
{
    proof {
        if valid(old(room)@) {
            lemma_frame_keeps_valid(old(room)@, old(mess_que).deep_view(), message@, addr);
        }
    }
    let notice = Message {
        code: Code::Message.byte(),
        message: room.exit_notice.clone(),
        pro_id: message.pro_id.clone(),
    };
    push_to_message_queue(&notice, mess_que);
    if room.identity.is_room_owner() && addr != room.local {
        remove_ip(&addr, &mut room.ips);
        send_message_to_all(&notice, &room.ips, &room.local, &addr)
    } else {
        let sends: Vec<Datagram> = Vec::new();
        assert(sends.deep_view() == Seq::<Packet>::empty());
        sends
    }
}

/// Handles one datagram that came from `addr`.
///
/// A datagram that is too short, or not of this session, is dropped: nothing
/// changes and nothing is sent. So is a frame of no known kind. Every other
/// frame goes to the handler of its kind.
pub fn receive(
    room: &mut Room,
    mess_que: &mut VecDeque<Message>,
    buf: &[u8],
    addr: PeerAddr,
) -> (sends: Vec<Datagram>)
    ensures
        (Outcome {
            room: final(room)@,
            queue: final(mess_que).deep_view(),
            sends: sends.deep_view(),
        }) == on_datagram(old(room)@, old(mess_que).deep_view(), buf@, addr),
        valid(old(room)@) ==> valid(final(room)@),
{
    proof {
        if valid(old(room)@) {
            lemma_room_stays_valid(old(room)@, old(mess_que).deep_view(), buf@, addr);
        }
    }
    let message = match Message::parse(buf, &room.session) {
        Ok(mes) => mes,
        Err(_) => {
            let sends: Vec<Datagram> = Vec::new();
            assert(sends.deep_view() == Seq::<Packet>::empty());
            return sends;
        },
    };
    match Code::from(message.code) {
        Code::Request => receive_request(&message, mess_que, addr, room),
        Code::Reply => {
            receive_reply(&message, room, addr, mess_que);
            let sends: Vec<Datagram> = Vec::new();
            assert(sends.deep_view() == Seq::<Packet>::empty());
            sends
        },
        Code::Message => receive_message(&message, mess_que, room, addr),
        Code::Exit => receive_exit(&message, addr, mess_que, room),
        Code::Unknown => {
            let sends: Vec<Datagram> = Vec::new();
            assert(sends.deep_view() == Seq::<Packet>::empty());
            sends
        },
    }
}

/// `sends` brings the frame `f` to each address of `to` once, and to no other.
pub open spec fn delivers_once(sends: Seq<Packet>, f: Frame, to: Set<PeerAddr>) -> bool {
    &&& forall|i: int| 0 <= i < sends.len() ==> sends[i].buf == wire(f) && to.contains(#[trigger] sends[i].addr)
    &&& forall|i: int, j: int|
        0 <= i < sends.len() && 0 <= j < sends.len() && i != j ==> #[trigger] sends[i].addr
            != #[trigger] sends[j].addr
    &&& forall|a: PeerAddr|
        to.contains(a) ==> exists|i: int| 0 <= i < sends.len() && #[trigger] sends[i].addr == a
}

/// The members on the roster `ips` other than this peer itself, at `local`, and
/// than `sender`.
pub open spec fn others(ips: Seq<PeerAddr>, local: PeerAddr, sender: PeerAddr) -> Set<PeerAddr> {
    Set::new(|a: PeerAddr| ips.contains(a) && a != local && a != sender)
}

/// Fanning a frame out over a roster without duplicates brings it to every
/// member but the sender and this peer, once each.
pub proof fn lemma_fan_out_once(f: Frame, ips: Seq<PeerAddr>, local: PeerAddr, sender: PeerAddr)
    requires
        ips.no_duplicates(),
    ensures
        delivers_once(
            fan_out(f, ips.filter(receives(local, sender))),
            f,
            others(ips, local, sender),
        ),
{
    let to = ips.filter(receives(local, sender));
    let sends = fan_out(f, to);
    lemma_filter_keeps(ips, receives(local, sender));
    assert forall|i: int| 0 <= i < sends.len() implies sends[i].buf == wire(f) && others(
        ips,
        local,
        sender,
    ).contains(#[trigger] sends[i].addr) by {
        assert(to.contains(to[i]));
    }
    assert forall|a: PeerAddr| others(ips, local, sender).contains(a) implies exists|i: int|
        0 <= i < sends.len() && #[trigger] sends[i].addr == a by {
        assert(to.contains(a));
        let i = choose|i: int| 0 <= i < to.len() && to[i] == a;
        assert(sends[i].addr == a);
    }
}

/// Two requests with the right key from one address are one joining: after the
/// second the address is on the roster once, the second changes neither roster
/// nor queue and is only answered, and an address that was not on the roster
/// before has been announced once.
pub proof fn lemma_join_twice(
    room: RoomView,
    queue: Seq<Frame>,
    first: Frame,
    second: Frame,
    addr: PeerAddr,
)
    requires
        valid(room),
        room.identity == Identity::RoomOwner,
        first.message == room.key,
        second.message == room.key,
    ensures
        ({
            let a = on_request(room, queue, first, addr);
            let b = on_request(a.room, a.queue, second, addr);
            &&& valid(b.room)
            &&& b.room.ips.to_multiset().count(addr) == 1
            &&& b.room == a.room
            &&& b.queue == a.queue
            &&& b.sends == seq![reply(room, JOIN_SUCCESS@, addr)]
            &&& !room.ips.contains(addr) ==> b.room.ips == room.ips.push(addr) && b.queue
                == queue.push(joined_notice(room, first))
            &&& rendering(
                joined_notice(room, first).message,
                JOIN_SUCCESS@,
                green_bold(JOIN_SUCCESS@),
            )
            &&& room.ips.contains(addr) ==> b.room == room && b.queue == queue
        }),
{
    let a = on_request(room, queue, first, addr);
    if !room.ips.contains(addr) {
        let ips = room.ips.push(addr);
        assert(ips[ips.len() - 1] == addr);
        assert(ips.contains(addr));
        assert(ips.no_duplicates());
    }
    assert(a.room.ips.contains(addr));
    a.room.ips.lemma_multiset_has_no_duplicates();
    a.room.ips.to_multiset_ensures();
}

/// A text that the owner relays goes to every member but the one that sent it:
/// the frame is queued at the owner once, each other member is sent the same
/// frame once, and neither the sender nor the owner's own address is sent
/// anything.
pub proof fn lemma_relay_spares_sender(
    room: RoomView,
    queue: Seq<Frame>,
    f: Frame,
    sender: PeerAddr,
)
    requires
        valid(room),
        room.identity == Identity::RoomOwner,
    ensures
        ({
            let o = on_message(room, queue, f, sender);
            &&& o.room == room
            &&& o.queue == queue.push(f)
            &&& delivers_once(o.sends, f, others(room.ips, room.local, sender))
            &&& forall|i: int|
                0 <= i < o.sends.len() ==> (#[trigger] o.sends[i]).addr != sender && o.sends[i].addr
                    != room.local
        }),
{
    lemma_fan_out_once(f, room.ips, room.local, sender);
}

/// After a member left it is not on the roster: the owner, told by another
/// address that it leaves, keeps every other member, queues the notice once and
/// sends it once to each member that remains.
pub proof fn lemma_exit_removes(room: RoomView, queue: Seq<Frame>, f: Frame, addr: PeerAddr)
    requires
        valid(room),
        room.identity == Identity::RoomOwner,
        addr != room.local,
    ensures
        ({
            let o = on_exit(room, queue, f, addr);
            &&& valid(o.room)
            &&& !o.room.ips.contains(addr)
            &&& forall|a: PeerAddr| a != addr ==> o.room.ips.contains(a) == room.ips.contains(a)
            &&& o.queue == queue.push(left_notice(room, f))
            &&& rendering(left_notice(room, f).message, EXIT_ROOM@, red_bold(EXIT_ROOM@))
            &&& delivers_once(
                o.sends,
                left_notice(room, f),
                Set::new(|a: PeerAddr| o.room.ips.contains(a) && a != room.local),
            )
        }),
{
    let o = on_exit(room, queue, f, addr);
    lemma_filter_keeps(room.ips, other_than(addr));
    lemma_fan_out_once(left_notice(room, f), o.room.ips, room.local, addr);
    assert(others(o.room.ips, room.local, addr) == Set::new(
        |a: PeerAddr| o.room.ips.contains(a) && a != room.local,
    ));
}

/// Whatever frame comes in, and of whatever kind it is taken to be, a valid
/// room stays valid: the roster stays free of duplicates and the notices are not
/// touched.
pub proof fn lemma_frame_keeps_valid(room: RoomView, queue: Seq<Frame>, f: Frame, addr: PeerAddr)
    requires
        valid(room),
    ensures
        valid(on_request(room, queue, f, addr).room),
        valid(on_reply(room, queue, f, addr).room),
        valid(on_message(room, queue, f, addr).room),
        valid(on_exit(room, queue, f, addr).room),
        valid(on_frame(room, queue, f, addr).room),
{
    lemma_filter_keeps(room.ips, other_than(addr));
    if !room.ips.contains(addr) {
        assert(room.ips.push(addr).no_duplicates());
    }
    assert(seq![addr].no_duplicates());
}

/// Whatever datagram comes in, a valid room stays valid.
pub proof fn lemma_room_stays_valid(
    room: RoomView,
    queue: Seq<Frame>,
    bytes: Seq<u8>,
    addr: PeerAddr,
)
    requires
        valid(room),
    ensures
        valid(on_datagram(room, queue, bytes, addr).room),
{
    match decode(bytes, room.session.protocol) {
        Ok(f) => lemma_frame_keeps_valid(room, queue, f, addr),
        Err(_) => {},
    }
}

} // verus!
