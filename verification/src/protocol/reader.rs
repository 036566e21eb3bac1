//! Reading the fields of the protocol from the bytes that have been received so far.

use crate::protocol::error::{Error, Field, IoError};
use crate::protocol::fixed::{self, u64_from_bytes};
use crate::protocol::incremental;
use crate::protocol::packet::InboundPacket;
use crate::protocol::varint;
use vstd::prelude::*;
use vstd::slice::{slice_subrange, slice_to_vec};
use vstd::utf8::*;

verus! {

/// The bytes that a reader has left, and how many of them still belong to the current packet.
#[verifier::ext_equal]
pub struct Input {
    /// The received bytes that have not been read yet.
    pub bytes: Seq<u8>,
    /// How many bytes may be read before the current packet ends, if the reader is inside a packet.
    pub limit: Option<nat>,
}

impl Input {
    /// The number of bytes that can be read right now.
    pub open spec fn available(self) -> nat {
        match self.limit {
            Some(limit) if limit < self.bytes.len() => limit,
            _ => self.bytes.len(),
        }
    }

    /// What is left after `n` bytes have been read.
    pub open spec fn advance(self, n: nat) -> Input {
        Input {
            bytes: self.bytes.skip(n as int),
            limit: match self.limit {
                Some(limit) => Some((limit - n) as nat),
                None => None,
            },
        }
    }

    /// The same input after more bytes have been received.
    pub open spec fn extend(self, more: Seq<u8>) -> Input {
        Input { bytes: self.bytes + more, limit: self.limit }
    }

    /// How many bytes were read between here and a later input.
    pub open spec fn used(self, later: Input) -> nat {
        (self.bytes.len() - later.bytes.len()) as nat
    }

    /// Why `n` bytes cannot be read: the packet is over, or more bytes have to be received first.
    pub open spec fn shortage(self, field: Field, n: nat) -> Error {
        match self.limit {
            Some(limit) if limit <= self.bytes.len() => Error::Io(IoError::FrameEnd(field)),
            Some(limit) if limit < n => Error::Io(
                IoError::UnexpectedEof { field, missing: (limit - self.bytes.len()) as usize },
            ),
            _ => Error::Io(IoError::UnexpectedEof { field, missing: (n - self.bytes.len()) as usize }),
        }
    }

    /// Reading exactly `n` bytes for a field. A read that fails uses up what there was.
    pub open spec fn exactly(self, field: Field, n: nat) -> (Result<Seq<u8>, Error>, Input) {
        if n <= self.available() {
            (Ok(self.bytes.take(n as int)), self.advance(n))
        } else {
            (Err(self.shortage(field, n)), self.advance(self.available()))
        }
    }

    /// Reading a number of eight bytes.
    pub open spec fn number(self) -> (Result<u64, Error>, Input) {
        match self.exactly(Field::Number, 8) {
            (Ok(bytes), rest) => (Ok(fixed::be_value(bytes) as u64), rest),
            (Err(error), rest) => (Err(error), rest),
        }
    }

    /// Reading a `VarInt`: up to five bytes, of which only the last does not announce another one. A sixth byte is
    /// read before the `VarInt` is refused.
    pub open spec fn varint(self) -> (Result<usize, Error>, Input) {
        let window = self.bytes.take(self.available() as int);
        let last = varint::continued(window);
        if last < window.len() && last < 5 {
            (Ok(varint::base128(window.take((last + 1) as int)) as usize), self.advance(last + 1))
        } else if window.len() > 5 {
            (Err(Error::InvalidVarInt), self.advance(6))
        } else {
            (Err(self.shortage(Field::Number, window.len() + 1)), self.advance(window.len()))
        }
    }

    /// Reading a text: the number of its bytes as a `VarInt`, then the bytes, which have to be UTF-8.
    pub open spec fn text(self) -> (Result<Seq<char>, Error>, Input) {
        match self.varint() {
            (Ok(length), rest) => match rest.exactly(Field::Bytes, length as nat) {
                (Ok(bytes), rest) => if valid_utf8(bytes) {
                    (Ok(decode_utf8(bytes)), rest)
                } else {
                    (Err(Error::InvalidEncoding), rest)
                },
                (Err(error), rest) => (Err(error), rest),
            },
            (Err(error), rest) => (Err(error), rest),
        }
    }

    /// The input inside a packet of which at most `length` bytes are left.
    pub open spec fn within(self, length: nat) -> Input {
        Input {
            bytes: self.bytes,
            limit: match self.limit {
                Some(limit) if limit < length => Some(limit),
                _ => Some(length),
            },
        }
    }

    /// Reading the content of a packet: its ID, which must be the expected one, and its data.
    pub open spec fn content<T: InboundPacket>(self) -> (Result<T::V, Error>, Input) {
        match self.varint() {
            (Ok(id), rest) => if id != T::packet_id() {
                (Err(Error::IllegalPacketId { expected: T::packet_id(), actual: id }), rest)
            } else {
                T::parse(rest)
            },
            (Err(error), rest) => (Err(error), rest),
        }
    }

    /// Reading what follows the length of a packet: its content, which must not go beyond the length.
    pub open spec fn packet_of_length<T: InboundPacket>(self, length: usize) -> (Result<T::V, Error>, Input) {
        let (packet, behind) = self.within(length as nat).content::<T>();
        (packet, self.advance(self.used(behind)))
    }

    /// Reading a packet: its length, which must not be zero, and what follows it.
    pub open spec fn packet<T: InboundPacket>(self) -> (Result<T::V, Error>, Input) {
        match self.varint() {
            (Ok(length), rest) => if length == 0 {
                (Err(Error::IllegalPacketLength), rest)
            } else {
                rest.packet_of_length::<T>(length)
            },
            (Err(error), rest) => (Err(error), rest),
        }
    }
}

/// Calls [`String::from_utf8`], which gives the text that the bytes encode, and fails exactly if they are not UTF-8.
#[verifier::external_body]
fn text_from_utf8(bytes: Vec<u8>) -> (text: Option<String>)
    ensures
        match text {
            Some(text) => valid_utf8(bytes@) && text@ == decode_utf8(bytes@),
            None => !valid_utf8(bytes@),
        },
{
    String::from_utf8(bytes).ok()
}

/// Reads the fields of the protocol, one after the other, from the bytes that have been received so far.
pub struct Reader<'a> {
    rest: &'a [u8],
    limit: Option<usize>,
}

impl View for Reader<'_> {
    type V = Input;

    closed spec fn view(&self) -> Input {
        Input {
            bytes: self.rest@,
            limit: match self.limit {
                Some(limit) => Some(limit as nat),
                None => None,
            },
        }
    }
}

impl<'a> Reader<'a> {
    /// Creates a reader at the front of the bytes, outside any packet.
    pub fn new(data: &'a [u8]) -> (reader: Self)
        ensures
            reader@ == (Input { bytes: data@, limit: None }),
    {
        Reader { rest: data, limit: None }
    }

    /// Returns the number of bytes that have not been read yet.
    pub fn remaining(&self) -> (count: usize)
        ensures
            count == self@.bytes.len(),
    {
        self.rest.len()
    }

    /// Returns the number of bytes that can be read right now.
    fn readable(&self) -> (count: usize)
        ensures
            count == self@.available(),
    {
        let remaining = self.rest.len();
        match self.limit {
            Some(limit) if limit < remaining => limit,
            _ => remaining,
        }
    }

    /// Passes over the next `n` bytes.
    fn skip(&mut self, n: usize)
        requires
            n <= old(self)@.available(),
        ensures
            final(self)@ == old(self)@.advance(n as nat),
    {
        self.rest = slice_subrange(self.rest, n, self.rest.len());
        self.limit = match self.limit {
            Some(limit) => Some(limit - n),
            None => None,
        };
    }

    /// Reads exactly `n` bytes for a field.
    fn read_field(&mut self, field: Field, n: usize) -> (bytes: Result<Vec<u8>, Error>)
        ensures
            final(self)@ == old(self)@.exactly(field, n as nat).1,
            match bytes {
                Ok(bytes) => old(self)@.exactly(field, n as nat).0 == Ok::<Seq<u8>, Error>(bytes@),
                Err(error) => old(self)@.exactly(field, n as nat).0 == Err::<Seq<u8>, Error>(error),
            },
    {
        let readable = self.readable();
        if n <= readable {
            let bytes = slice_to_vec(slice_subrange(self.rest, 0, n));
            self.skip(n);
            Ok(bytes)
        } else {
            let remaining = self.rest.len();
            let error = match self.limit {
                Some(limit) if limit <= remaining => IoError::FrameEnd(field),
                Some(limit) if limit < n => IoError::UnexpectedEof { field, missing: limit - remaining },
                _ => IoError::UnexpectedEof { field, missing: n - remaining },
            };
            self.skip(readable);
            Err(Error::Io(error))
        }
    }

    /// Reads exactly `n` bytes.
    pub fn read_exact(&mut self, n: usize) -> (bytes: Result<Vec<u8>, Error>)
        ensures
            final(self)@ == old(self)@.exactly(Field::Bytes, n as nat).1,
            match bytes {
                Ok(bytes) => old(self)@.exactly(Field::Bytes, n as nat).0 == Ok::<Seq<u8>, Error>(bytes@),
                Err(error) => old(self)@.exactly(Field::Bytes, n as nat).0 == Err::<Seq<u8>, Error>(error),
            },
    {
        self.read_field(Field::Bytes, n)
    }

    /// Reads a single byte.
    pub fn read_u8(&mut self) -> (byte: Result<u8, Error>)
        ensures
            final(self)@ == old(self)@.exactly(Field::Number, 1).1,
            match byte {
                Ok(byte) => old(self)@.exactly(Field::Number, 1).0 == Ok::<Seq<u8>, Error>(seq![byte]),
                Err(error) => old(self)@.exactly(Field::Number, 1).0 == Err::<Seq<u8>, Error>(error),
            },
    {
        match self.read_field(Field::Number, 1) {
            Ok(bytes) => {
                proof {
                    assert(bytes@ == seq![bytes@[0]]);
                }
                Ok(bytes[0])
            },
            Err(error) => Err(error),
        }
    }

    /// Reads a number of eight bytes, the most significant byte first.
    pub fn read_u64(&mut self) -> (number: Result<u64, Error>)
        ensures
            (number, final(self)@) == old(self)@.number(),
    {
        match self.read_field(Field::Number, 8) {
            Ok(bytes) => Ok(u64_from_bytes(&bytes)),
            Err(error) => Err(error),
        }
    }

    /// Reads a `VarInt`.
    pub fn read_varint(&mut self) -> (number: Result<usize, Error>)
        ensures
            (number, final(self)@) == old(self)@.varint(),
    {
        let ghost start = self@;
        let ghost window = start.bytes.take(start.available() as int);
        let mut read: usize = 0;
        let mut result: u64 = 0;
        let mut scale: u64 = 1;
        loop
            invariant
                start == old(self)@,
                window == start.bytes.take(start.available() as int),
                read <= 5,
                read <= window.len(),
                forall|i: int| 0 <= i < read ==> window[i] >= 128,
                self@ == start.advance(read as nat),
                result == varint::base128(window.take(read as int)),
                scale == varint::weight(read as nat),
                result < scale,
                scale <= 0x8_0000_0000,
            decreases 6 - read,
        {
            proof {
                reveal_with_fuel(varint::weight, 6);
                assert(self@.bytes == start.bytes.skip(read as int));
            }
            match self.read_u8() {
                Ok(read_value) => {
                    let value = read_value & 0b0111_1111;
                    proof {
                        assert(read_value & 0b0111_1111 == read_value % 128) by (bit_vector);
                        assert(read_value & 0b1000_0000 == 0 <==> read_value < 128) by (bit_vector);
                        assert(start.bytes.skip(read as int).take(1)[0] == read_value);
                        assert(read_value == window[read as int]);
                        assert(window.take(read as int).push(read_value) == window.take(read + 1));
                        varint::lemma_base128_push(window.take(read as int), read_value);
                        assert(self@ == start.advance((read + 1) as nat));
                    }
                    read = read + 1;
                    if read > 5 {
                        proof {
                            varint::lemma_continued(window, 5);
                        }
                        return Err(Error::InvalidVarInt);
                    }
                    proof {
                        let (v, w) = (value as int, scale as int);
                        assert(v * w == w * v && 0 <= v * w <= 127 * w) by (nonlinear_arith)
                            requires
                                0 <= v <= 127,
                                0 <= w,
                        ;
                    }
                    result = result + (value as u64) * scale;
                    scale = scale * 128;
                    if (read_value & 0b1000_0000) == 0 {
                        proof {
                            varint::lemma_continued(window, (read - 1) as nat);
                        }
                        return Ok(result as usize);
                    }
                },
                Err(error) => {
                    proof {
                        varint::lemma_continued(window, read as nat);
                    }
                    return Err(error);
                },
            }
        }
    }

    /// Reads a text.
    pub fn read_string(&mut self) -> (text: Result<String, Error>)
        ensures
            final(self)@ == old(self)@.text().1,
            match text {
                Ok(text) => old(self)@.text().0 == Ok::<Seq<char>, Error>(text@),
                Err(error) => old(self)@.text().0 == Err::<Seq<char>, Error>(error),
            },
    {
        match self.read_varint() {
            Ok(length) => match self.read_exact(length) {
                Ok(bytes) => match text_from_utf8(bytes) {
                    Some(text) => Ok(text),
                    None => Err(Error::InvalidEncoding),
                },
                Err(error) => Err(error),
            },
            Err(error) => Err(error),
        }
    }

    /// Reads the content of a packet of the expected type.
    fn read_content<T: InboundPacket>(&mut self) -> (packet: Result<T, Error>)
        ensures
            final(self)@ == old(self)@.content::<T>().1,
            match packet {
                Ok(packet) => old(self)@.content::<T>().0 == Ok::<T::V, Error>(packet@),
                Err(error) => old(self)@.content::<T>().0 == Err::<T::V, Error>(error),
            },
    {
        // extract the encoded packet id and validate if it is expected
        let packet_id = match self.read_varint() {
            Ok(packet_id) => packet_id,
            Err(error) => return Err(error),
        };
        let expected_packet_id = T::get_packet_id();
        if packet_id != expected_packet_id {
            return Err(Error::IllegalPacketId { expected: expected_packet_id, actual: packet_id });
        }

        // convert the remaining content of the packet into our expected packet
        T::new_from_buffer(self)
    }

    /// Reads a packet of the expected type.
    ///
    /// The length in front of the packet counts its ID and its data. No byte behind it is read as part of the packet.
    pub fn read_packet<T: InboundPacket>(&mut self) -> (packet: Result<T, Error>)
        ensures
            final(self)@ == old(self)@.packet::<T>().1,
            match packet {
                Ok(packet) => old(self)@.packet::<T>().0 == Ok::<T::V, Error>(packet@),
                Err(error) => old(self)@.packet::<T>().0 == Err::<T::V, Error>(error),
            },
    {
        // extract the length of the packet and check for any following content
        let length = match self.read_varint() {
            Ok(length) => length,
            Err(error) => return Err(error),
        };
        if length == 0 {
            return Err(Error::IllegalPacketLength);
        }

        // read the content within the length of the packet
        let mut frame = Reader {
            rest: self.rest,
            limit: match self.limit {
                Some(limit) if limit < length => Some(limit),
                _ => Some(length),
            },
        };
        proof {
            incremental::lemma_content_is_incremental::<T>(frame@, Seq::empty());
        }
        let packet = frame.read_content();
        self.skip(self.rest.len() - frame.rest.len());
        packet
    }
}

} // verus!
