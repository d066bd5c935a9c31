//! The wire format: a header of seventeen bytes, then the text to the end of
//! the datagram.
//!
//! | offset | length | field        |
//! |--------|--------|--------------|
//! | 0      | 4      | protocol tag |
//! | 4      | 12     | sender id    |
//! | 16     | 1      | message kind |
//! | 17     | rest   | text, UTF-8  |
//!
//! Tag and sender id are bytes of fixed width: a shorter value is filled up with
//! zero bytes, a longer one is cut.

use vstd::prelude::*;
use vstd::utf8::*;

use crate::util::same_bytes;

verus! {

/// Width of the sender id on the wire.
pub const ID_LEN: usize = 12;

/// Width of the protocol tag on the wire.
pub const PROTOCOL_LEN: usize = 4;

/// Width of the message kind on the wire.
pub const CODE_LEN: usize = 1;

/// Width of the whole header.
pub const HEADER_LEN: usize = 17;

/// The most bytes a datagram has: the size of the buffer that a peer receives
/// into. A frame's text has to fit into what the header leaves of it.
pub const DATAGRAM_LEN: usize = 512;

/// The byte that fills a tag or a sender id up to its width.
pub const FILL: u8 = 0;

/// Protocol tag and sender id, as they stand in a header.
///
/// An empty field is one that was never set.
#[derive(Debug)]
pub struct ProtocolID {
    pub protocol: Vec<u8>,
    pub id: Vec<u8>,
}

/// One unit of the wire: kind, text and the header fields.
#[derive(Debug)]
pub struct Message {
    pub code: u8,
    pub message: String,
    pub pro_id: ProtocolID,
}

/// Why a datagram is not a frame of this session.
#[derive(Clone, Copy, Debug, PartialEq, Eq, Structural)]
pub enum DecodeError {
    /// There are fewer bytes than a header has.
    ShortFrame,
    /// The first four bytes are not the session's tag.
    ProtocolMismatch,
}

/// What a `ProtocolID` holds.
pub struct Header {
    pub protocol: Seq<u8>,
    pub id: Seq<u8>,
}

/// What a `Message` holds.
pub struct Frame {
    pub code: u8,
    pub message: Seq<char>,
    pub pro_id: Header,
}

impl View for ProtocolID {
    type V = Header;

    open spec fn view(&self) -> Header {
        Header { protocol: self.protocol@, id: self.id@ }
    }
}

impl DeepView for ProtocolID {
    type V = Header;

    open spec fn deep_view(&self) -> Header {
        self@
    }
}

impl View for Message {
    type V = Frame;

    open spec fn view(&self) -> Frame {
        Frame { code: self.code, message: self.message@, pro_id: self.pro_id@ }
    }
}

impl DeepView for Message {
    type V = Frame;

    open spec fn deep_view(&self) -> Frame {
        self@
    }
}

/// `n` fill bytes.
pub open spec fn fill(n: nat) -> Seq<u8> {
    Seq::new(n, |i: int| FILL)
}

/// `bytes` at exactly `width` bytes: cut where longer, filled up where shorter.
pub open spec fn fixed_width(bytes: Seq<u8>, width: nat) -> Seq<u8> {
    if bytes.len() >= width {
        bytes.take(width as int)
    } else {
        bytes + fill((width - bytes.len()) as nat)
    }
}

/// `bytes` without the run of fill bytes at its end.
pub open spec fn strip_fill(bytes: Seq<u8>) -> Seq<u8>
    decreases bytes.len(),
{
    if bytes.len() > 0 && bytes.last() == FILL {
        strip_fill(bytes.drop_last())
    } else {
        bytes
    }
}

/// A header whose fields have their wire widths.
pub open spec fn well_formed(h: Header) -> bool {
    h.protocol.len() == PROTOCOL_LEN && h.id.len() == ID_LEN
}

/// The text that `String::from_utf8_lossy` makes of bytes that are not valid
/// UTF-8.
pub uninterp spec fn replaced_text(bytes: Seq<u8>) -> Seq<char>;

/// `bytes` read as text, leniently: valid UTF-8 is the text it encodes, and
/// anything else is read with its faulty parts replaced.
pub open spec fn lossy_text(bytes: Seq<u8>) -> Seq<char> {
    if valid_utf8(bytes) {
        decode_utf8(bytes)
    } else {
        replaced_text(bytes)
    }
}

/// What a datagram decodes to in a session with the tag `tag`.
pub open spec fn decode(bytes: Seq<u8>, tag: Seq<u8>) -> Result<Frame, DecodeError> {
    if bytes.len() < HEADER_LEN {
        Err(DecodeError::ShortFrame)
    } else if bytes.subrange(0, PROTOCOL_LEN as int) != tag {
        Err(DecodeError::ProtocolMismatch)
    } else {
        Ok(
            Frame {
                code: bytes[(PROTOCOL_LEN + ID_LEN) as int],
                message: lossy_text(bytes.skip(HEADER_LEN as int)),
                pro_id: Header {
                    protocol: bytes.subrange(0, PROTOCOL_LEN as int),
                    id: bytes.subrange(PROTOCOL_LEN as int, (PROTOCOL_LEN + ID_LEN) as int),
                },
            },
        )
    }
}

/// The sender id as it is shown: without the fill at its end, read as text.
pub open spec fn shown_id(raw_id: Seq<u8>) -> Seq<char> {
    lossy_text(strip_fill(raw_id))
}

/// A frame as one line of the display: the sender, a colon and a tab, the text.
pub open spec fn shown(f: Frame) -> Seq<char> {
    shown_id(f.pro_id.id) + seq![':', '\t'] + f.message
}

/// A header as it stands on the wire: each field at its width.
pub open spec fn on_wire(h: Header) -> Header {
    Header {
        protocol: fixed_width(h.protocol, PROTOCOL_LEN as nat),
        id: fixed_width(h.id, ID_LEN as nat),
    }
}

/// The bytes of a frame: the tag at four bytes, the sender id at twelve, the
/// kind, then the text in UTF-8. The header has seventeen bytes whatever the
/// frame holds.
pub open spec fn wire(f: Frame) -> Seq<u8> {
    fixed_width(f.pro_id.protocol, PROTOCOL_LEN as nat) + fixed_width(f.pro_id.id, ID_LEN as nat)
        + seq![f.code] + encode_utf8(f.message)
}

impl Clone for ProtocolID {
    fn clone(&self) -> (r: Self)
        ensures
            r@ == self@,
    {
        ProtocolID { protocol: copy_bytes(&self.protocol), id: copy_bytes(&self.id) }
    }
}

impl Clone for Message {
    fn clone(&self) -> (r: Self)
        ensures
            r@ == self@,
    {
        Message { code: self.code, message: self.message.clone(), pro_id: self.pro_id.clone() }
    }
}

/// `String::from_utf8_lossy`, owned. Valid UTF-8 comes back as the text it
/// encodes, as the function's documentation says. What it makes of other bytes
/// depends on the bytes alone and is only named, as `replaced_text`.
#[verifier::external_body]
fn from_utf8_lossy(bytes: &[u8]) -> (text: String)
    ensures
        text@ == (if valid_utf8(bytes@) {
            decode_utf8(bytes@)
        } else {
            replaced_text(bytes@)
        }),
{
    String::from_utf8_lossy(bytes).into_owned()
}

/// `raw` without the run of fill bytes at its end.
pub fn strip(raw: &[u8]) -> (kept: &[u8])
    ensures
        kept@ == strip_fill(raw@),
{
    let mut end: usize = raw.len();
    assert(raw@.take(end as int) == raw@);
    while end > 0 && raw[end - 1] == FILL
        invariant
            end <= raw@.len(),
            strip_fill(raw@) == strip_fill(raw@.take(end as int)),
        decreases end,
    {
        assert(raw@.take(end as int).drop_last() == raw@.take(end - 1));
        end -= 1;
    }
    assert(raw@.take(0) == Seq::<u8>::empty());
    &raw[0..end]
}

/// `bytes` at exactly `width` bytes.
fn to_width(bytes: &[u8], width: usize) -> (r: Vec<u8>)
    ensures
        r@ == fixed_width(bytes@, width as nat),
{
    let mut r: Vec<u8> = Vec::new();
    if bytes.len() >= width {
        Message::push_to_vec(&mut r, &bytes[0..width]);
    } else {
        Message::push_to_vec(&mut r, bytes);
        while r.len() < width
            invariant
                bytes@.len() <= r@.len() <= width,
                r@ == bytes@ + fill((r@.len() - bytes@.len()) as nat),
            decreases width - r@.len(),
        {
            r.push(FILL);
        }
    }
    r
}

/// A vector with the same bytes.
fn copy_bytes(src: &Vec<u8>) -> (r: Vec<u8>)
    ensures
        r@ == src@,
{
    let mut r: Vec<u8> = Vec::new();
    Message::push_to_vec(&mut r, src.as_slice());
    r
}

impl Message {
    /// A frame of kind `code` with the text `messa`, under the header of `session`.
    pub fn new(code: u8, messa: &String, session: &ProtocolID) -> (m: Message)
        ensures
            m@ == (Frame { code, message: messa@, pro_id: session@ }),
    {
        Message { code, message: messa.clone(), pro_id: session.clone() }
    }

    /// Decodes a datagram received in `session`.
    ///
    /// Fewer than seventeen bytes are a `ShortFrame`. Otherwise the first four
    /// bytes must be the session's tag, byte for byte, or the datagram is a
    /// `ProtocolMismatch`; a session whose tag was never set accepts nothing.
    /// The header is cut by position, and the text is read leniently: bytes that
    /// are no UTF-8 are replaced, never refused.
    pub fn parse(mes: &[u8], session: &ProtocolID) -> (r: Result<Message, DecodeError>)
        ensures
            match r {
                Ok(m) => decode(mes@, session.protocol@) == Ok::<Frame, DecodeError>(m@),
                Err(e) => decode(mes@, session.protocol@) == Err::<Frame, DecodeError>(e),
            },
    {
        if mes.len() < HEADER_LEN {
            return Err(DecodeError::ShortFrame);
        }
        let tag = &mes[0..PROTOCOL_LEN];
        if !same_bytes(tag, session.protocol.as_slice()) {
            return Err(DecodeError::ProtocolMismatch);
        }
        let mut protocol: Vec<u8> = Vec::new();
        Message::push_to_vec(&mut protocol, tag);
        let mut id: Vec<u8> = Vec::new();
        Message::push_to_vec(&mut id, &mes[PROTOCOL_LEN..PROTOCOL_LEN + ID_LEN]);
        let message = from_utf8_lossy(&mes[HEADER_LEN..mes.len()]);
        Ok(Message { code: mes[PROTOCOL_LEN + ID_LEN], message, pro_id: ProtocolID { protocol, id } })
    }

    /// The sender id as it is shown: the run of fill bytes at the end of
    /// `raw_id` is dropped, and what is left is read as text. An id of fill
    /// bytes alone is shown as the empty string.
    pub fn parse_id(raw_id: &[u8]) -> (id: String)
        ensures
            id@ == shown_id(raw_id@),
    {
        from_utf8_lossy(strip(raw_id))
    }

    /// This frame as one line of the display.
    pub fn to_string(&self) -> (line: String)
        ensures
            line@ == shown(self@),
    {
        let mut line = Message::parse_id(self.pro_id.id.as_slice());
        line.append(":\t");
        line.append(self.message.as_str());
        proof {
            reveal_strlit(":\t");
            assert(":\t"@ == seq![':', '\t']);
        }
        line
    }

    /// The bytes of this frame, in wire order. Tag and sender id are written at
    /// their widths, cut or filled up where the frame holds them otherwise, so
    /// that the header has seventeen bytes. Nothing tells the text's length: it
    /// runs to the end.
    pub fn to_buf(&self) -> (res: Vec<u8>)
        ensures
            res@ == wire(self@),
            res@.len() == HEADER_LEN + encode_utf8(self@.message).len(),
    {
        let mut res = to_width(self.pro_id.protocol.as_slice(), PROTOCOL_LEN);
        let id = to_width(self.pro_id.id.as_slice(), ID_LEN);
        Message::push_to_vec(&mut res, id.as_slice());
        res.push(self.code);
        Message::push_to_vec(&mut res, self.message.as_str().as_bytes());
        res
    }

    /// Whether this frame fits into one datagram: whether its text takes no
    /// more than what the header leaves of `DATAGRAM_LEN` bytes.
    pub fn fits(&self) -> (b: bool)
        ensures
            b == (wire(self@).len() <= DATAGRAM_LEN),
            b == (encode_utf8(self@.message).len() <= DATAGRAM_LEN - HEADER_LEN),
    {
        self.message.as_str().as_bytes().len() <= DATAGRAM_LEN - HEADER_LEN
    }

    /// Appends the bytes of `src` to `target`.
    pub fn push_to_vec(target: &mut Vec<u8>, src: &[u8])
        ensures
            final(target)@ == old(target)@ + src@,
    {
        let mut i: usize = 0;
        while i < src.len()
            invariant
                i <= src@.len(),
                target@ == old(target)@ + src@.take(i as int),
            decreases src@.len() - i,
        {
            target.push(src[i]);
            i += 1;
            assert(src@.take(i as int) == src@.take(i - 1).push(src@[i - 1]));
        }
        assert(src@.take(i as int) == src@);
    }
}

impl DecodeError {
    /// What went wrong, in words.
    pub fn to_string(&self) -> (text: String)
        ensures
            text@ == (match *self {
                DecodeError::ShortFrame => "Frame too short"@,
                DecodeError::ProtocolMismatch => "Protocol invalid"@,
            }),
    {
        match *self {
            DecodeError::ShortFrame => "Frame too short".to_owned(),
            DecodeError::ProtocolMismatch => "Protocol invalid".to_owned(),
        }
    }
}

impl ProtocolID {
    /// A session in which neither tag nor sender id is set.
    pub fn new() -> (session: ProtocolID)
        ensures
            session@ == (Header { protocol: Seq::empty(), id: Seq::empty() }),
    {
        ProtocolID { protocol: Vec::new(), id: Vec::new() }
    }
}

/// Sets the session's tag to the bytes of `protocol`, at exactly four bytes.
pub fn set_protocol(session: &mut ProtocolID, protocol: String)
    ensures
        final(session)@ == (Header {
            protocol: fixed_width(encode_utf8(protocol@), PROTOCOL_LEN as nat),
            id: old(session)@.id,
        }),
{
    session.protocol = to_width(protocol.as_str().as_bytes(), PROTOCOL_LEN);
}

/// Sets the session's sender id to the bytes of `id`, at exactly twelve bytes.
pub fn set_id(session: &mut ProtocolID, id: &String)
    ensures
        final(session)@ == (Header {
            protocol: old(session)@.protocol,
            id: fixed_width(encode_utf8(id@), ID_LEN as nat),
        }),
{
    session.id = to_width(id.as_str().as_bytes(), ID_LEN);
}

/// The session's tag, or `None` while it is not set.
pub fn get_protocol(session: &ProtocolID) -> (tag: Option<Vec<u8>>)
    ensures
        match tag {
            Some(t) => t@ == session@.protocol && t@.len() > 0,
            None => session@.protocol.len() == 0,
        },
{
    if session.protocol.len() > 0 {
        Some(copy_bytes(&session.protocol))
    } else {
        None
    }
}

/// The session's sender id, or `None` while it is not set.
pub fn get_id(session: &ProtocolID) -> (id: Option<Vec<u8>>)
    ensures
        match id {
            Some(i) => i@ == session@.id && i@.len() > 0,
            None => session@.id.len() == 0,
        },
{
    if session.id.len() > 0 {
        Some(copy_bytes(&session.id))
    } else {
        None
    }
}

/// A value at a fixed width has that width.
pub proof fn lemma_fixed_width_len(bytes: Seq<u8>, width: nat)
    ensures
        fixed_width(bytes, width).len() == width,
{
}

/// Fill bytes appended to `bytes` are stripped again with those that `bytes`
/// ended in.
pub proof fn lemma_strip_fill_appended(bytes: Seq<u8>, n: nat)
    ensures
        strip_fill(bytes + fill(n)) == strip_fill(bytes),
    decreases n,
{
    if n == 0 {
        assert(bytes + fill(0) == bytes);
    } else {
        let padded = bytes + fill(n);
        assert(padded.last() == FILL);
        assert(padded.drop_last() == bytes + fill((n - 1) as nat));
        lemma_strip_fill_appended(bytes, (n - 1) as nat);
    }
}

/// Stripping leaves nothing of fill bytes alone.
pub proof fn lemma_strip_fill_of_fill(n: nat)
    ensures
        strip_fill(fill(n)) == Seq::<u8>::empty(),
{
    assert(Seq::<u8>::empty() + fill(n) == fill(n));
    lemma_strip_fill_appended(Seq::<u8>::empty(), n);
}

/// What is left after stripping does not end in a fill byte, and stripping it
/// again changes nothing.
pub proof fn lemma_strip_fill_stable(bytes: Seq<u8>)
    ensures
        strip_fill(bytes).len() > 0 ==> strip_fill(bytes).last() != FILL,
        strip_fill(strip_fill(bytes)) == strip_fill(bytes),
        strip_fill(bytes).len() <= bytes.len(),
    decreases bytes.len(),
{
    if bytes.len() > 0 && bytes.last() == FILL {
        lemma_strip_fill_stable(bytes.drop_last());
    }
}

/// A header whose fields have their widths stands on the wire as it is.
pub proof fn lemma_on_wire_well_formed(h: Header)
    ensures
        well_formed(on_wire(h)),
        well_formed(h) ==> on_wire(h) == h,
{
    if well_formed(h) {
        assert(h.protocol.take(PROTOCOL_LEN as int) == h.protocol);
        assert(h.id.take(ID_LEN as int) == h.id);
    }
}

/// The header of every frame takes seventeen bytes of the wire.
pub proof fn lemma_header_width(f: Frame)
    ensures
        wire(f).len() == HEADER_LEN + encode_utf8(f.message).len(),
{
}

/// Decoding what `to_buf` wrote gives the frame back: in a session with the
/// frame's tag as it stands on the wire, every frame decodes to the same kind
/// and the same text, under its header as it stands on the wire. A frame whose
/// header fields have their widths decodes to itself.
pub proof fn lemma_round_trip(f: Frame)
    ensures
        decode(wire(f), on_wire(f.pro_id).protocol) == Ok::<Frame, DecodeError>(
            Frame { code: f.code, message: f.message, pro_id: on_wire(f.pro_id) },
        ),
        well_formed(f.pro_id) ==> decode(wire(f), f.pro_id.protocol) == Ok::<Frame, DecodeError>(f),
{
    let bytes = wire(f);
    let h = on_wire(f.pro_id);
    lemma_on_wire_well_formed(f.pro_id);
    encode_utf8_valid_utf8(f.message);
    encode_utf8_decode_utf8(f.message);
    assert(bytes.subrange(0, PROTOCOL_LEN as int) == h.protocol);
    assert(bytes.subrange(PROTOCOL_LEN as int, (PROTOCOL_LEN + ID_LEN) as int) == h.id);
    assert(bytes.skip(HEADER_LEN as int) == encode_utf8(f.message));
    assert(bytes[(PROTOCOL_LEN + ID_LEN) as int] == f.code);
}

/// What was encoded is what is decoded: a frame made with any tag and with a
/// sender id of at most twelve bytes decodes, in a session with that tag at its
/// width, to the same kind and the same text, and its sender id is the one it
/// was made with but for the fill at the end.
pub proof fn lemma_codec_round_trip(code: u8, tag: Seq<u8>, id: Seq<u8>, text: Seq<char>)
    requires
        id.len() <= ID_LEN,
    ensures
        ({
            let sent = Frame { code, message: text, pro_id: Header { protocol: tag, id } };
            let got = Frame { code, message: text, pro_id: on_wire(sent.pro_id) };
            &&& decode(wire(sent), fixed_width(tag, PROTOCOL_LEN as nat)) == Ok::<
                Frame,
                DecodeError,
            >(got)
            &&& strip_fill(got.pro_id.id) == strip_fill(id)
        }),
{
    lemma_round_trip(Frame { code, message: text, pro_id: Header { protocol: tag, id } });
    lemma_sender_id_round_trip(id);
}

/// A sender id of at most twelve bytes, filled up for the wire, is shown as the
/// id itself is shown: the fill that was added is stripped, together with any
/// that the id ended in. An id of fill bytes alone is shown as the empty id.
pub proof fn lemma_sender_id_round_trip(id: Seq<u8>)
    requires
        id.len() <= ID_LEN,
    ensures
        strip_fill(fixed_width(id, ID_LEN as nat)) == strip_fill(id),
        id.len() > 0 && id.last() != FILL ==> strip_fill(fixed_width(id, ID_LEN as nat)) == id,
        id == fill(id.len()) ==> strip_fill(fixed_width(id, ID_LEN as nat)) == Seq::<u8>::empty(),
{
    if id.len() == ID_LEN {
        assert(id.take(ID_LEN as int) == id);
    } else {
        lemma_strip_fill_appended(id, (ID_LEN - id.len()) as nat);
    }
    if id == fill(id.len()) {
        lemma_strip_fill_of_fill(id.len());
    }
}

/// The last byte of a character's encoding is the fill byte only for the
/// character NUL.
proof fn lemma_scalar_ends_in_fill(c: char)
    ensures
        encode_scalar(c as u32).len() > 0,
        encode_scalar(c as u32).last() == FILL <==> c == '\0',
{
    let v = c as u32;
    assert(v == 0 <==> c == '\0');
    assert(has_width_1_encoding(v) ==> ((v & 0x7F) as u8 == 0 <==> v == 0)) by (bit_vector);
    assert((0x80u8 | (v & 0x3F) as u8) != 0) by (bit_vector);
}

/// A text's encoding ends in the fill byte only where the text ends in the
/// character NUL.
pub proof fn lemma_encoding_ends_in_fill(text: Seq<char>)
    requires
        text.len() > 0,
    ensures
        encode_utf8(text).len() > 0,
        encode_utf8(text).last() == FILL <==> text.last() == '\0',
    decreases text.len(),
{
    lemma_scalar_ends_in_fill(text[0]);
    let rest = text.drop_first();
    if rest.len() > 0 {
        lemma_encoding_ends_in_fill(rest);
        assert(rest.last() == text.last());
    } else {
        assert(encode_utf8(rest) == Seq::<u8>::empty());
        assert(encode_utf8(text) == encode_scalar(text[0] as u32));
    }
}

/// A sender id that was set from a text of at most twelve bytes is shown as
/// that text, unless the text ends in the character NUL.
pub proof fn lemma_shown_id_round_trip(id: Seq<char>)
    requires
        encode_utf8(id).len() <= ID_LEN,
        id.len() > 0 ==> id.last() != '\0',
    ensures
        shown_id(fixed_width(encode_utf8(id), ID_LEN as nat)) == id,
{
    let bytes = encode_utf8(id);
    lemma_sender_id_round_trip(bytes);
    encode_utf8_valid_utf8(id);
    encode_utf8_decode_utf8(id);
    if id.len() > 0 {
        lemma_encoding_ends_in_fill(id);
    }
}

/// A datagram that holds a whole header whose first four bytes are not the
/// session's tag is a `ProtocolMismatch`, whatever follows them.
pub proof fn lemma_tag_rejection(bytes: Seq<u8>, tag: Seq<u8>)
    requires
        bytes.len() >= HEADER_LEN,
        bytes.take(PROTOCOL_LEN as int) != tag,
    ensures
        decode(bytes, tag) == Err::<Frame, DecodeError>(DecodeError::ProtocolMismatch),
{
}

} // verus!
