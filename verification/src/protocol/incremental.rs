//! Reading from bytes that are still arriving.
//!
//! A packet is read from the bytes that have been received so far. If they do not suffice, the reader says how many
//! bytes are missing, and the same packet is read again once they have arrived. This module states why that comes to
//! the same as reading from the whole stream.

use crate::protocol::error::{Error, Field, IoError};
use crate::protocol::packet::InboundPacket;
use crate::protocol::reader::Input;
use crate::protocol::varint;
use vstd::prelude::*;

verus! {

/// Whether a read that had `before` as its outcome gets along with `more` bytes and `after` as its outcome then.
///
/// The read goes forward within the input. If it reported missing bytes, then fewer bytes than that leave it missing
/// the others, and all of them are used once they have arrived. In every other case the bytes that arrived later do not
/// change the outcome and are left untouched.
pub open spec fn incremental<V>(
    input: Input,
    before: (Result<V, Error>, Input),
    more: Seq<u8>,
    after: (Result<V, Error>, Input),
) -> bool {
    &&& before.1 == input.advance(input.used(before.1))
    &&& input.used(before.1) <= input.available()
    &&& match before.0 {
        Err(Error::Io(IoError::UnexpectedEof { field, missing })) => {
            &&& missing > 0
            &&& more.len() < missing ==> after.0 == Err::<V, Error>(
                Error::Io(IoError::UnexpectedEof { field, missing: (missing - more.len()) as usize }),
            )
            &&& more.len() >= missing ==> after.1.bytes.len() <= more.len() - missing
        },
        _ => after == (before.0, before.1.extend(more)),
    }
}

/// Going forward and receiving more bytes can be done in either order.
pub proof fn lemma_advance_extend(input: Input, n: nat, more: Seq<u8>)
    requires
        n <= input.available(),
    ensures
        input.extend(more).advance(n) == input.advance(n).extend(more),
{
    assert((input.bytes + more).skip(n as int) == input.bytes.skip(n as int) + more);
}

/// Reading a given number of bytes works with the bytes as they arrive.
pub proof fn lemma_exactly_is_incremental(input: Input, field: Field, n: nat, more: Seq<u8>)
    requires
        n <= usize::MAX,
    ensures
        incremental(input, input.exactly(field, n), more, input.extend(more).exactly(field, n)),
{
    let later = input.extend(more);
    if n <= input.available() {
        lemma_advance_extend(input, n, more);
        assert(later.bytes.take(n as int) == input.bytes.take(n as int));
    } else if input.limit is Some && input.limit->0 <= input.bytes.len() {
        lemma_advance_extend(input, input.available(), more);
    }
}

/// Reading a `VarInt` works with the bytes as they arrive.
pub proof fn lemma_varint_is_incremental(input: Input, more: Seq<u8>)
    ensures
        incremental(input, input.varint(), more, input.extend(more).varint()),
{
    let later = input.extend(more);
    let window = input.bytes.take(input.available() as int);
    let later_window = later.bytes.take(later.available() as int);
    let last = varint::continued(window);
    varint::lemma_continued_run(window);
    assert(later_window.take(window.len() as int) == window);
    assert forall|i: int| 0 <= i < window.len() implies later_window[i] == window[i] by {
        assert(later_window.take(window.len() as int)[i] == window[i]);
    }
    varint::lemma_continued(later_window, last);
    if last < window.len() && last < 5 {
        lemma_advance_extend(input, last + 1, more);
        assert(later_window.take((last + 1) as int) == window.take((last + 1) as int));
    } else if window.len() > 5 {
        lemma_advance_extend(input, 6, more);
    } else if input.limit is Some && input.limit->0 <= input.bytes.len() {
        lemma_advance_extend(input, window.len(), more);
    } else if more.len() == 0 {
        assert(later == input);
    }
}

/// A read that goes on where another one ended works with the bytes as they arrive if both do.
pub proof fn lemma_then_is_incremental<U, V>(
    input: Input,
    more: Seq<u8>,
    first: (Result<U, Error>, Input),
    later_first: (Result<U, Error>, Input),
    second: (Result<V, Error>, Input),
    later_second: (Result<V, Error>, Input),
)
    requires
        first.0 is Ok,
        incremental(input, first, more, later_first),
        incremental(first.1, second, more, later_second),
    ensures
        incremental(input, second, more, later_second),
{
    let k = input.used(first.1);
    let m = first.1.used(second.1);
    assert(input.bytes.skip(k as int).skip(m as int) == input.bytes.skip((k + m) as int));
    assert(second.1 == input.advance(k + m));
}

/// Reading a text works with the bytes as they arrive.
pub proof fn lemma_text_is_incremental(input: Input, more: Seq<u8>)
    ensures
        incremental(input, input.text(), more, input.extend(more).text()),
{
    let first = input.varint();
    let later_first = input.extend(more).varint();
    lemma_varint_is_incremental(input, more);
    if let (Ok(length), rest) = first {
        lemma_exactly_is_incremental(rest, Field::Bytes, length as nat, more);
        lemma_then_is_incremental(
            input,
            more,
            first,
            later_first,
            rest.exactly(Field::Bytes, length as nat),
            rest.extend(more).exactly(Field::Bytes, length as nat),
        );
    } else if let (Ok(length), rest) = later_first {
        lemma_varint_is_incremental(input.extend(more), Seq::empty());
        lemma_exactly_is_incremental(rest, Field::Bytes, length as nat, Seq::empty());
    }
}

/// Reading the content of a packet works with the bytes as they arrive.
pub proof fn lemma_content_is_incremental<T: InboundPacket>(input: Input, more: Seq<u8>)
    ensures
        incremental(input, input.content::<T>(), more, input.extend(more).content::<T>()),
{
    let first = input.varint();
    let later_first = input.extend(more).varint();
    lemma_varint_is_incremental(input, more);
    if let (Ok(id), rest) = first {
        if id == T::packet_id() {
            T::law_parse_is_incremental(rest, more);
            lemma_then_is_incremental(
                input,
                more,
                first,
                later_first,
                T::parse(rest),
                T::parse(rest.extend(more)),
            );
        }
    } else if let (Ok(id), rest) = later_first {
        lemma_varint_is_incremental(input.extend(more), Seq::empty());
        T::law_parse_is_incremental(rest, Seq::empty());
    }
}

/// Reading what follows the length of a packet works with the bytes as they arrive.
proof fn lemma_packet_of_length_is_incremental<T: InboundPacket>(length: usize, input: Input, more: Seq<u8>)
    ensures
        incremental(
            input,
            input.packet_of_length::<T>(length),
            more,
            input.extend(more).packet_of_length::<T>(length),
        ),
{
    let later = input.extend(more);
    let frame = input.within(length as nat);
    let later_frame = later.within(length as nat);
    let n = input.used(frame.content::<T>().1);
    let m = later.used(later_frame.content::<T>().1);
    assert(later_frame == frame.extend(more));
    lemma_content_is_incremental::<T>(frame, more);
    lemma_content_is_incremental::<T>(later_frame, Seq::empty());
    assert(input.used(input.advance(n)) == n);
    assert(later.used(later.advance(m)) == m);
    lemma_advance_extend(input, n, more);
}

/// Reading a packet works with the bytes as they arrive: as long as fewer bytes have followed than were reported
/// missing, the others are still missing. The missing bytes all belong to the packet, and once the packet has been read,
/// no later byte plays any part.
pub proof fn law_packet_is_incremental<T: InboundPacket>(input: Input, more: Seq<u8>)
    ensures
        incremental(input, input.packet::<T>(), more, input.extend(more).packet::<T>()),
{
    let first = input.varint();
    let later_first = input.extend(more).varint();
    lemma_varint_is_incremental(input, more);
    if let (Ok(length), rest) = first {
        if length != 0 {
            lemma_packet_of_length_is_incremental::<T>(length, rest, more);
            lemma_then_is_incremental(
                input,
                more,
                first,
                later_first,
                rest.packet_of_length::<T>(length),
                rest.extend(more).packet_of_length::<T>(length),
            );
        }
    } else if let (Ok(length), rest) = later_first {
        lemma_varint_is_incremental(input.extend(more), Seq::empty());
        lemma_packet_of_length_is_incremental::<T>(length, rest, Seq::empty());
    }
}

/// Nothing is read beyond the length that a packet announced, which counts its ID and its data.
pub proof fn law_packet_stays_within_its_length<T: InboundPacket>(input: Input)
    ensures
        ({
            let (length, behind_length) = input.varint();
            length is Ok ==> behind_length.used(input.packet::<T>().1) <= length->Ok_0
        }),
{
    if let (Ok(length), rest) = input.varint() {
        lemma_content_is_incremental::<T>(rest.within(length as nat), Seq::empty());
    }
}

} // verus!
