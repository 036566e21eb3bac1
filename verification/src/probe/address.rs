//! Reading a target address from the text that Prometheus supplies.

use crate::number;
use crate::probe::{self, TargetAddress};
use vstd::prelude::*;
use vstd::string::*;

verus! {

/// What was found where something else was expected.
#[derive(Debug)]
pub enum Unexpected<'a> {
    /// This text was found.
    Str(&'a str),
    /// This number was found.
    Unsigned(u64),
}

/// The text in quotes and with its special characters escaped, as the [`Debug`] implementation of [`str`] writes it.
pub uninterp spec fn quoted(text: Seq<char>) -> Seq<char>;

/// Calls [`serde::de::Error::invalid_value`] and takes the text of the error that it makes.
///
/// The text names what was found and what was expected. A found text is quoted as its [`Debug`] implementation writes
/// it, of which nothing more is said here, and a found number is written in decimal.
#[verifier::external_body]
fn invalid_value(unexpected: Unexpected, expected: &str) -> (text: String)
    ensures
        text@ == "invalid value: "@ + (match unexpected {
            Unexpected::Str(text) => "string "@ + quoted(text@),
            Unexpected::Unsigned(number) => "integer `"@ + number::decimal(number as nat) + "`"@,
        }) + ", expected "@ + expected@,
{
    let unexpected = match unexpected {
        Unexpected::Str(text) => serde::de::Unexpected::Str(text),
        Unexpected::Unsigned(number) => serde::de::Unexpected::Unsigned(number),
    };
    let error: serde::de::value::Error = serde::de::Error::invalid_value(unexpected, &expected);
    error.to_string()
}

/// Why a text is not a target address.
#[derive(Debug)]
pub enum AddressError<T> {
    /// The text behind the first colon is not the number of a port.
    InvalidPort(T),
    /// There is nothing in front of the first colon.
    EmptyHostname,
    /// The port is zero.
    ZeroPort,
}

impl<T: View> View for AddressError<T> {
    type V = AddressError<T::V>;

    open spec fn view(&self) -> AddressError<T::V> {
        match self {
            AddressError::InvalidPort(port) => AddressError::InvalidPort(port@),
            AddressError::EmptyHostname => AddressError::EmptyHostname,
            AddressError::ZeroPort => AddressError::ZeroPort,
        }
    }
}

impl AddressError<Seq<char>> {
    /// The text that describes this error.
    pub open spec fn text(self) -> Seq<char> {
        let invalid = "invalid value: "@;
        match self {
            AddressError::InvalidPort(port) => invalid + ("string "@ + quoted(port)) + ", expected "@
                + "a valid port number"@,
            AddressError::EmptyHostname => invalid + ("string "@ + quoted(""@)) + ", expected "@
                + "a non-empty hostname"@,
            AddressError::ZeroPort => invalid + ("integer `"@ + number::decimal(0) + "`"@) + ", expected "@
                + "a positive port number"@,
        }
    }
}

impl AddressError<String> {
    /// Returns the text that describes this error.
    pub fn message(&self) -> (text: String)
        ensures
            text@ == self@.text(),
    {
        match self {
            AddressError::InvalidPort(port) => invalid_value(Unexpected::Str(port.as_str()), "a valid port number"),
            AddressError::EmptyHostname => invalid_value(Unexpected::Str(""), "a non-empty hostname"),
            AddressError::ZeroPort => invalid_value(Unexpected::Unsigned(0), "a positive port number"),
        }
    }
}

/// The index of the first colon of a text, or the length of the text if there is none.
pub open spec fn colon(text: Seq<char>) -> nat
    decreases text.len(),
{
    if text.len() == 0 || text[0] == ':' {
        0
    } else {
        1 + colon(text.drop_first())
    }
}

/// What the first colon is.
pub proof fn lemma_colon(text: Seq<char>, n: nat)
    requires
        n <= text.len(),
        forall|i: int| 0 <= i < n ==> text[i] != ':',
    ensures
        colon(text) >= n,
        n == text.len() || text[n as int] == ':' ==> colon(text) == n,
    decreases text.len(),
{
    if n > 0 {
        lemma_colon(text.drop_first(), (n - 1) as nat);
    }
}

/// What is in front of the first colon.
pub proof fn lemma_colon_prefix(text: Seq<char>)
    ensures
        colon(text) <= text.len(),
        !text.take(colon(text) as int).contains(':'),
    decreases text.len(),
{
    if text.len() > 0 && text[0] != ':' {
        let tail = text.drop_first();
        lemma_colon_prefix(tail);
        assert forall|i: int| 0 <= i < colon(text) implies text.take(colon(text) as int)[i] != ':' by {
            if i > 0 {
                assert(text.take(colon(text) as int)[i] == tail.take(colon(tail) as int)[i - 1]);
                assert(tail.take(colon(tail) as int).contains(tail.take(colon(tail) as int)[i - 1]));
            }
        }
    }
}

/// The hostname and the port that a text stands for, or why it stands for none.
///
/// The hostname is what comes before the first colon, and the text behind it is the port. Without a colon the port is
/// the default one of Minecraft.
pub open spec fn parse_address(text: Seq<char>) -> Result<(Seq<char>, u16), AddressError<Seq<char>>> {
    let hostname = text.take(colon(text) as int);
    let port = if colon(text) < text.len() {
        text.skip((colon(text) + 1) as int)
    } else {
        "25565"@
    };
    match number::parse_unsigned(port, 0xFFFF) {
        None => Err(AddressError::InvalidPort(port)),
        Some(_) if hostname.len() == 0 => Err(AddressError::EmptyHostname),
        Some(number) if number == 0 => Err(AddressError::ZeroPort),
        Some(number) => Ok((hostname, number as u16)),
    }
}

/// Returns the index of the first colon, or the length of the text if there is none.
fn find_colon(text: &str) -> (index: usize)
    ensures
        index == colon(text@),
        index <= text@.len(),
{
    let length = text.unicode_len();
    let mut index: usize = 0;
    for c in iter: text.chars()
        invariant
            iter.seq() == text@,
            length == text@.len(),
            index == iter.index(),
            forall|i: int| 0 <= i < index ==> text@[i] != ':',
    {
        if c == ':' {
            proof {
                lemma_colon(text@, index as nat);
            }
            return index;
        }
        index = index + 1;
    }
    proof {
        lemma_colon(text@, index as nat);
    }
    index
}

/// The visitor for the deserialization of [`TargetAddress`].
///
/// This visitor is responsible for the deserialization and validation of a [`TargetAddress`] and returns the
/// appropriate expectations of the format. The address is expected in the format of `hostname:port` and the port is
/// optional, falling back to the default port.
pub struct ProbeAddressVisitor;

impl ProbeAddressVisitor {
    /// Returns what form of an address is expected.
    pub fn expecting(&self) -> (text: &'static str)
        ensures
            text@ == "a string in the form 'hostname' or 'hostname:port'"@,
    {
        "a string in the form 'hostname' or 'hostname:port'"
    }

    /// Reads the address from its text.
    pub fn visit_str(self, value: &str) -> (address: Result<TargetAddress, AddressError<String>>)
        ensures
            match address {
                Ok(address) => parse_address(value@) == Ok::<(Seq<char>, u16), AddressError<Seq<char>>>(
                    (address.hostname@, address.port),
                ),
                Err(error) => parse_address(value@) == Err::<(Seq<char>, u16), AddressError<Seq<char>>>(error@),
            },
    {
        // split the supplied hostname and port into their own parts
        let length = value.unicode_len();
        let end = find_colon(value);

        // get the hostname and port part in their raw form
        let hostname = value.substring_char(0, end);
        let port_str = if end < length {
            value.substring_char(end + 1, length)
        } else {
            "25565"
        };

        // parse the port into the expected form
        let port = match number::read_unsigned(port_str, 0xFFFF) {
            Some(port) => port as u16,
            None => return Err(AddressError::InvalidPort(port_str.to_owned())),
        };

        // check if the hostname is present
        if hostname.is_empty() {
            return Err(AddressError::EmptyHostname);
        }

        // check if the port is valid
        if port == 0 {
            return Err(AddressError::ZeroPort);
        }

        // wrap the parsed parts into our address
        Ok(TargetAddress { hostname: hostname.to_owned(), port })
    }
}

/// An address that was read has a hostname, no colon in it, and a port that is not zero.
pub proof fn law_parsed_address_is_valid(text: Seq<char>)
    ensures
        parse_address(text) matches Ok((hostname, port)) ==> hostname.len() > 0 && !hostname.contains(':') && port > 0,
{
    lemma_colon_prefix(text);
}

/// A hostname alone stands for the hostname with the default port.
pub proof fn law_default_port(hostname: Seq<char>)
    requires
        hostname.len() > 0,
        !hostname.contains(':'),
    ensures
        parse_address(hostname) == Ok::<(Seq<char>, u16), AddressError<Seq<char>>>((hostname, 25565)),
{
    assert forall|i: int| 0 <= i < hostname.len() implies hostname[i] != ':' by {
        assert(hostname.contains(hostname[i]));
    }
    lemma_colon(hostname, hostname.len());
    assert(hostname.take(hostname.len() as int) == hostname);
    reveal_strlit("25565");
    lemma_default_port_number();
}

/// The text of the default port stands for its number.
proof fn lemma_default_port_number()
    ensures
        number::parse_unsigned("25565"@, 0xFFFF) == Some(25565nat),
{
    reveal_strlit("25565");
    reveal_with_fuel(number::decimal, 6);
    assert("25565"@ == number::decimal(25565));
    number::law_decimal_round_trip(25565, 0xFFFF);
}

/// The text of a valid address is read back as the address.
pub proof fn law_address_round_trip(hostname: Seq<char>, port: u16)
    requires
        hostname.len() > 0,
        !hostname.contains(':'),
        port > 0,
    ensures
        parse_address(probe::address_text(hostname, port)) == Ok::<(Seq<char>, u16), AddressError<Seq<char>>>(
            (hostname, port),
        ),
{
    let text = probe::address_text(hostname, port);
    let n = hostname.len();
    reveal_strlit(":");
    assert forall|i: int| 0 <= i < n implies text[i] != ':' by {
        assert(text[i] == hostname[i]);
        assert(hostname.contains(hostname[i]));
    }
    assert(text[n as int] == ":"@[0]);
    lemma_colon(text, n);
    assert(text.take(n as int) == hostname);
    assert(text.skip((n + 1) as int) == number::decimal(port as nat));
    number::law_decimal_round_trip(port as nat, 0xFFFF);
}

/// Whether a text writes the number of a port: an optional plus sign and digits that may start with zeros.
pub open spec fn writes_port(text: Seq<char>, port: nat) -> bool {
    ||| number::writes(text, port)
    ||| text.len() > 0 && text[0] == '+' && number::writes(text.skip(1), port)
}

/// A hostname, a colon and a text are read as the hostname and the port that the text writes. If it writes none, the
/// text is refused, whatever the hostname is. Otherwise an empty hostname is refused, whatever the port is, and then the
/// port zero.
pub proof fn law_address_with_port(hostname: Seq<char>, port: Seq<char>)
    requires
        !hostname.contains(':'),
    ensures
        match parse_address(hostname + ":"@ + port) {
            Ok((read_hostname, read_port)) => {
                &&& read_hostname == hostname
                &&& hostname.len() > 0
                &&& 0 < read_port
                &&& writes_port(port, read_port as nat)
            },
            Err(AddressError::InvalidPort(text)) => {
                &&& text == port
                &&& forall|n: nat| n <= 0xFFFF ==> !writes_port(port, n)
            },
            Err(AddressError::EmptyHostname) => {
                &&& hostname.len() == 0
                &&& exists|n: nat| n <= 0xFFFF && writes_port(port, n)
            },
            Err(AddressError::ZeroPort) => hostname.len() > 0 && writes_port(port, 0),
        },
{
    let text = hostname + ":"@ + port;
    let n = hostname.len();
    reveal_strlit(":");
    assert forall|i: int| 0 <= i < n implies text[i] != ':' by {
        assert(text[i] == hostname[i]);
        assert(hostname.contains(hostname[i]));
    }
    assert(text[n as int] == ":"@[0]);
    lemma_colon(text, n);
    assert(text.take(n as int) == hostname);
    assert(text.skip((n + 1) as int) == port);
    number::law_unsigned_is_read_iff_written(port, 0xFFFF);
    if let Some(number) = number::parse_unsigned(port, 0xFFFF) {
        assert(writes_port(port, number));
    }
}

/// Without a hostname and without a colon there is no address.
pub proof fn law_empty_text_has_no_hostname()
    ensures
        parse_address(Seq::empty()) == Err::<(Seq<char>, u16), AddressError<Seq<char>>>(AddressError::EmptyHostname),
{
    lemma_default_port_number();
    assert(Seq::<char>::empty().take(0).len() == 0);
}

} // verus!
