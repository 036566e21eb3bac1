//! What the outcome of a read tells of the bytes that were there.

use crate::protocol::error::{Error, Field, IoError};
use crate::protocol::fixed;
use crate::protocol::packet::{InboundPacket, Packet, PongPacket, StatusResponsePacket};
use crate::protocol::reader::Input;
use crate::protocol::varint;
use vstd::prelude::*;
use vstd::utf8::*;

verus! {

/// The low seven bits of the byte at an index, as long as the index is below `count`.
pub open spec fn group(bytes: Seq<u8>, count: nat, index: int) -> int {
    if index < count {
        bytes[index] as int % 128
    } else {
        0
    }
}

/// The number that eight bytes stand for, the most significant byte first.
pub open spec fn eight_bytes(b: Seq<u8>) -> int {
    b[0] * 0x100_0000_0000_0000 + b[1] * 0x1_0000_0000_0000 + b[2] * 0x100_0000_0000 + b[3] * 0x1_0000_0000 + b[4]
        * 0x100_0000 + b[5] * 0x1_0000 + b[6] * 0x100 + b[7]
}

/// A given number of bytes is read exactly if that many bytes are there and belong to the packet, and they are the next
/// bytes. Otherwise the packet is over, or as many bytes are missing as the packet still has and the field still needs.
pub proof fn law_exact_read(input: Input, field: Field, n: nat)
    requires
        n <= usize::MAX,
    ensures
        match input.exactly(field, n) {
            (Ok(read), rest) => {
                &&& n <= input.bytes.len()
                &&& input.limit matches Some(limit) ==> n <= limit
                &&& input.bytes == read + rest.bytes
                &&& read.len() == n
            },
            (Err(Error::Io(IoError::FrameEnd(at))), _) => {
                &&& at == field
                &&& input.limit is Some
                &&& input.limit->0 < n
                &&& input.limit->0 <= input.bytes.len()
            },
            (Err(Error::Io(IoError::UnexpectedEof { field: at, missing })), _) => {
                &&& at == field
                &&& missing > 0
                &&& input.bytes.len() + missing <= n
                &&& input.limit matches Some(limit) ==> input.bytes.len() + missing <= limit
                &&& input.bytes.len() + missing == n || input.limit == Some((input.bytes.len() + missing) as nat)
            },
            (Err(_), _) => false,
        },
{
    if n <= input.available() {
        assert(input.bytes == input.bytes.take(n as int) + input.bytes.skip(n as int));
    }
}

/// What the groups of seven bits from an index on make up.
proof fn lemma_base128_skip(s: Seq<u8>, k: nat)
    ensures
        k < s.len() ==> varint::base128(s.skip(k as int)) == group(s, s.len(), k as int) + 128 * varint::base128(
            s.skip((k + 1) as int),
        ),
        k == s.len() ==> varint::base128(s.skip(k as int)) == 0,
{
    if k < s.len() {
        assert(s.skip(k as int).drop_first() == s.skip((k + 1) as int));
        assert(s.skip(k as int)[0] == s[k as int]);
    }
}

/// What up to five groups of seven bits make up.
proof fn lemma_base128_groups(s: Seq<u8>)
    requires
        s.len() <= 5,
    ensures
        varint::base128(s) == group(s, s.len(), 0) + 0x80 * group(s, s.len(), 1) + 0x4000 * group(s, s.len(), 2)
            + 0x20_0000 * group(s, s.len(), 3) + 0x1000_0000 * group(s, s.len(), 4),
{
    assert(s.skip(0) == s);
    lemma_base128_skip(s, 0);
    lemma_base128_skip(s, 1);
    lemma_base128_skip(s, 2);
    lemma_base128_skip(s, 3);
    lemma_base128_skip(s, 4);
    lemma_base128_skip(s, 5);
}

/// A `VarInt` that was read took one to five bytes, of which only the last is below 128, and its value is that of their
/// low seven bits, the least significant ones first. It is refused exactly if the first five of at least six bytes are
/// not below 128, and incomplete exactly if that holds of all bytes and they are at most five.
pub proof fn law_varint_value(input: Input)
    ensures
        match input.varint() {
            (Ok(value), rest) => {
                let count = input.used(rest);
                let b = input.bytes;
                &&& 1 <= count <= 5
                &&& count <= input.available()
                &&& rest == input.advance(count)
                &&& forall|i: int| 0 <= i < count - 1 ==> b[i] >= 128
                &&& b[count - 1] < 128
                &&& value == (group(b, count, 0) + 0x80 * group(b, count, 1) + 0x4000 * group(b, count, 2) + 0x20_0000
                    * group(b, count, 3) + 0x1000_0000 * group(b, count, 4)) as usize
            },
            (Err(Error::InvalidVarInt), rest) => {
                &&& input.available() >= 6
                &&& forall|i: int| 0 <= i < 5 ==> input.bytes[i] >= 128
                &&& rest == input.advance(6)
            },
            (Err(Error::Io(_)), _) => {
                &&& input.available() <= 5
                &&& forall|i: int| 0 <= i < input.available() ==> input.bytes[i] >= 128
            },
            (Err(_), _) => false,
        },
{
    let window = input.bytes.take(input.available() as int);
    let last = varint::continued(window);
    varint::lemma_continued_run(window);
    assert forall|i: int| 0 <= i < last implies input.bytes[i] >= 128 by {
        assert(window[i] == input.bytes[i]);
    }
    if last < window.len() && last < 5 {
        let read = window.take((last + 1) as int);
        assert(input.used(input.advance(last + 1)) == last + 1);
        lemma_base128_groups(read);
        assert forall|i: int| 0 <= i implies group(read, read.len(), i) == group(input.bytes, last + 1, i) by {
            if i < read.len() {
                assert(read[i] == input.bytes[i]);
            }
        }
        assert(window[last as int] == input.bytes[last as int]);
    }
}

/// A number of eight bytes that was read is the one that these bytes stand for.
pub proof fn law_number_value(input: Input)
    ensures
        match input.number() {
            (Ok(value), rest) => {
                &&& input.available() >= 8
                &&& value == eight_bytes(input.bytes)
                &&& rest == input.advance(8)
            },
            (Err(Error::Io(error)), _) => input.available() < 8 && error !is Stream,
            (Err(_), _) => false,
        },
{
    if input.available() >= 8 {
        let b = input.bytes.take(8);
        reveal_with_fuel(fixed::be_value, 9);
        assert(b.drop_last().last() == b[6]);
        assert(b.drop_last().drop_last().last() == b[5]);
        assert(b.drop_last().drop_last().drop_last().last() == b[4]);
        assert(b.drop_last().drop_last().drop_last().drop_last().last() == b[3]);
        assert(b.drop_last().drop_last().drop_last().drop_last().drop_last().last() == b[2]);
        assert(b.drop_last().drop_last().drop_last().drop_last().drop_last().drop_last().last() == b[1]);
        assert(b.drop_last().drop_last().drop_last().drop_last().drop_last().drop_last().drop_last().last() == b[0]);
        assert(fixed::be_value(b) == eight_bytes(b));
    }
}

/// A text that was read is the one that the announced number of bytes encode.
pub proof fn law_text_value(input: Input)
    ensures
        ({
            let (length, behind_length) = input.varint();
            match input.text() {
                (Ok(text), rest) => {
                    &&& length is Ok
                    &&& length->Ok_0 <= behind_length.available()
                    &&& behind_length.bytes.take(length->Ok_0 as int) == encode_utf8(text)
                    &&& rest == behind_length.advance(length->Ok_0 as nat)
                },
                (Err(Error::InvalidEncoding), _) => {
                    &&& length is Ok
                    &&& length->Ok_0 <= behind_length.available()
                    &&& !valid_utf8(behind_length.bytes.take(length->Ok_0 as int))
                },
                (Err(Error::InvalidVarInt), _) => length == Err::<usize, Error>(Error::InvalidVarInt),
                (Err(Error::Io(error)), _) => {
                    &&& error !is Stream
                    &&& length is Ok ==> length->Ok_0 > behind_length.available()
                    &&& length is Err ==> length->Err_0 is Io
                },
                (Err(_), _) => false,
            }
        }),
{
    law_varint_value(input);
    let (length, behind_length) = input.varint();
    if length is Ok && length->Ok_0 <= behind_length.available() {
        let bytes = behind_length.bytes.take(length->Ok_0 as int);
        if valid_utf8(bytes) {
            decode_utf8_encode_utf8(bytes);
        }
    }
}

/// Reading a `VarInt` within a packet comes to the same as reading it outside, as long as the packet does not end first.
proof fn lemma_varint_within(input: Input, length: nat)
    requires
        input.limit is None,
    ensures
        ({
            let (outside, behind) = input.varint();
            match input.within(length).varint() {
                (Ok(value), rest) => {
                    &&& outside == Ok::<usize, Error>(value)
                    &&& input.used(behind) <= length
                    &&& rest == input.within(length).advance(input.used(behind))
                },
                (Err(Error::Io(IoError::FrameEnd(_))), _) => {
                    &&& length <= input.bytes.len()
                    &&& outside is Ok ==> input.used(behind) > length
                },
                (Err(Error::Io(_)), _) => {
                    &&& input.bytes.len() < length
                    &&& outside is Err
                },
                (Err(error), _) => error is InvalidVarInt && outside == Err::<usize, Error>(error),
            }
        }),
{
    let frame = input.within(length);
    law_varint_value(input);
    law_varint_value(frame);
    if let (Ok(_), behind) = input.varint() {
        if let (Ok(_), rest) = frame.varint() {
            let (m, n) = (input.used(behind), frame.used(rest));
            assert(m == n) by {
                if m < n {
                    assert(input.bytes[m - 1] < 128);
                } else if n < m {
                    assert(input.bytes[n - 1] < 128);
                }
            }
        }
    }
}

/// Whether the bytes start with the length and the ID of a packet that has room for `size` bytes of data, and that many
/// bytes follow.
pub open spec fn announces(bytes: Seq<u8>, id: int, size: nat) -> bool {
    let (length, behind_length) = (Input { bytes, limit: None }).varint();
    let (read_id, behind_id) = behind_length.varint();
    &&& length is Ok
    &&& length->Ok_0 > 0
    &&& read_id is Ok
    &&& read_id->Ok_0 == id
    &&& behind_length.used(behind_id) + size <= length->Ok_0
    &&& size <= behind_id.bytes.len()
}

/// What follows the length and the ID of a packet.
pub open spec fn data(bytes: Seq<u8>) -> Seq<u8> {
    (Input { bytes, limit: None }).varint().1.varint().1.bytes
}

/// Whether the bytes start with a whole pong, and it has this payload.
pub open spec fn holds_pong(bytes: Seq<u8>, payload: int) -> bool {
    announces(bytes, 1, 8) && eight_bytes(data(bytes)) == payload
}

/// Whether the bytes start with a whole status response, and it has this text.
pub open spec fn holds_status(bytes: Seq<u8>, text: Seq<char>) -> bool {
    let (length, behind_length) = (Input { bytes: data(bytes), limit: None }).varint();
    &&& length is Ok
    &&& length->Ok_0 <= behind_length.bytes.len()
    &&& behind_length.bytes.take(length->Ok_0 as int) == encode_utf8(text)
    &&& announces(bytes, 0, (data(bytes).len() - behind_length.bytes.len() + length->Ok_0) as nat)
}

/// Why a packet with the ID `id` could not be read: which of its parts is wrong or incomplete.
pub open spec fn explains(bytes: Seq<u8>, id: usize, error: Error) -> bool {
    let (length, behind_length) = (Input { bytes, limit: None }).varint();
    let (read_id, behind_id) = behind_length.varint();
    match error {
        Error::IllegalPacketLength => length == Ok::<usize, Error>(0),
        Error::IllegalPacketId { expected, actual } => {
            &&& expected == id
            &&& actual != id
            &&& read_id == Ok::<usize, Error>(actual)
            &&& length is Ok
            &&& behind_length.used(behind_id) <= length->Ok_0
        },
        Error::InvalidVarInt => {
            ||| length == Err::<usize, Error>(error)
            ||| read_id == Err::<usize, Error>(error)
            ||| announces(bytes, id as int, 6) && (Input { bytes: data(bytes), limit: None }).varint().0 == Err::<
                usize,
                Error,
            >(error)
        },
        Error::InvalidEncoding => announces(bytes, id as int, 1),
        // the packet was there as a whole, but too short
        Error::Io(IoError::FrameEnd(_)) => length is Ok && 0 < length->Ok_0 <= behind_length.bytes.len(),
        // the packet was not there as a whole
        Error::Io(IoError::UnexpectedEof { .. }) => length is Ok ==> length->Ok_0 > behind_length.bytes.len(),
        Error::Io(IoError::Stream(_)) => false,
        Error::TimeUnavailable(_) => false,
    }
}

/// How many bytes of a packet are left behind its ID, if its length and its ID could be read.
pub open spec fn room(bytes: Seq<u8>) -> Option<nat> {
    let (length, behind_length) = (Input { bytes, limit: None }).varint();
    let (id, behind_id) = behind_length.varint();
    if length is Ok && length->Ok_0 > 0 && id is Ok && behind_length.used(behind_id) <= length->Ok_0 {
        Some((length->Ok_0 - behind_length.used(behind_id)) as nat)
    } else {
        None
    }
}

/// Reading a packet comes to reading its data in the room that its length and its ID leave.
proof fn lemma_packet_head<T: InboundPacket>(bytes: Seq<u8>)
    ensures
        ({
            let outcome = (Input { bytes, limit: None }).packet::<T>().0;
            let id = (Input { bytes, limit: None }).varint().1.varint().0;
            match room(bytes) {
                Some(left) => if id == Ok::<usize, Error>(T::packet_id()) {
                    outcome == T::parse((Input { bytes: data(bytes), limit: None }).within(left)).0
                } else {
                    outcome == Err::<T::V, Error>(
                        Error::IllegalPacketId { expected: T::packet_id(), actual: id->Ok_0 },
                    )
                },
                None => outcome is Err && explains(bytes, T::packet_id(), outcome->Err_0),
            }
        }),
{
    let input = Input { bytes, limit: None };
    law_varint_value(input);
    if let (Ok(length), behind_length) = input.varint() {
        if length > 0 {
            lemma_varint_within(behind_length, length as nat);
            law_varint_value(behind_length);
            if let Some(left) = room(bytes) {
                let behind_id = behind_length.within(length as nat).varint().1;
                assert(behind_id == (Input { bytes: data(bytes), limit: None }).within(left));
            }
        }
    }
}

/// A pong is read exactly if the bytes start with a whole pong, and then it has the payload that was sent. Any other
/// bytes are refused, and the error tells what is wrong with them.
pub proof fn law_pong_is_read_iff_received(bytes: Seq<u8>)
    ensures
        match (Input { bytes, limit: None }).packet::<PongPacket>().0 {
            Ok(payload) => holds_pong(bytes, payload as int),
            Err(error) => !announces(bytes, 1, 8) && explains(bytes, 1, error),
        },
        // the payload is a number of a fixed width
        !((Input { bytes, limit: None }).packet::<PongPacket>().0 matches Err(Error::InvalidEncoding)),
{
    lemma_packet_head::<PongPacket>(bytes);
    if let Some(left) = room(bytes) {
        let inside = (Input { bytes: data(bytes), limit: None }).within(left);
        law_number_value(inside);
        law_exact_read(inside, Field::Number, 8);
    }
}

/// Whether a text that starts here is there as a whole and takes up at most that many bytes.
pub open spec fn has_text(input: Input, left: nat) -> bool {
    let (size, behind) = input.varint();
    &&& size is Ok
    &&& size->Ok_0 <= behind.bytes.len()
    &&& input.used(behind) + size->Ok_0 <= left
}

/// What the outcome of reading a text within a packet tells of the bytes.
proof fn lemma_text_within(input: Input, left: nat)
    requires
        input.limit is None,
    ensures
        ({
            let (size, behind) = input.varint();
            let encoded = behind.bytes.take(size->Ok_0 as int);
            match input.within(left).text().0 {
                Ok(text) => has_text(input, left) && encoded == encode_utf8(text),
                Err(Error::InvalidEncoding) => has_text(input, left) && !valid_utf8(encoded) && input.used(behind) >= 1,
                Err(Error::InvalidVarInt) => {
                    &&& size == Err::<usize, Error>(Error::InvalidVarInt)
                    &&& left >= 6
                    &&& input.bytes.len() >= 6
                },
                Err(Error::Io(IoError::FrameEnd(_))) => !has_text(input, left) && left <= input.bytes.len(),
                Err(Error::Io(IoError::UnexpectedEof { .. })) => !has_text(input, left) && left > input.bytes.len(),
                Err(_) => false,
            }
        }),
{
    let frame = input.within(left);
    lemma_varint_within(input, left);
    law_varint_value(input);
    law_varint_value(frame);
    law_text_value(frame);
    if let (Ok(size), behind) = frame.varint() {
        law_exact_read(behind, Field::Bytes, size as nat);
    }
}

/// A status response is read exactly if the bytes start with a whole status response, and then it has the text that was
/// sent. Any other bytes are refused, and the error tells what is wrong with them.
pub proof fn law_status_is_read_iff_received(bytes: Seq<u8>)
    ensures
        match (Input { bytes, limit: None }).packet::<StatusResponsePacket>().0 {
            Ok(text) => holds_status(bytes, text),
            Err(error) => explains(bytes, 0, error) && forall|text: Seq<char>| !holds_status(bytes, text),
        },
{
    lemma_packet_head::<StatusResponsePacket>(bytes);
    if let Some(left) = room(bytes) {
        let outside = Input { bytes: data(bytes), limit: None };
        lemma_text_within(outside, left);
        law_varint_value(outside);
        let (size, behind_size) = outside.varint();
        assert forall|text: Seq<char>| #[trigger] encode_utf8(text) == behind_size.bytes.take(size->Ok_0 as int) implies
            valid_utf8(behind_size.bytes.take(size->Ok_0 as int)) by {
            encode_utf8_valid_utf8(text);
        }
    }
}

} // verus!
