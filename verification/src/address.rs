//! The `host[:port]` endpoint.

use crate::decimal::{
    decimal_text, decimal_text_denotes, is_digit, parse_u16, port_value, u16_to_string,
    unsigned_part,
};
use vstd::prelude::*;
use vstd::string::StringExecFns;

verus! {

/// The port that an `ssh` client connects to when it is given none.
pub const DEFAULT_SSH_PORT: u16 = 22;

/// What an [`Address`] stands for: the host as a sequence of characters
/// and the port, if one was given.
pub struct Endpoint {
    pub host: Seq<char>,
    pub port: Option<u16>,
}

/// Host name (or IP address) and optional port number.
///
/// The host is kept verbatim and is not examined. A missing port means
/// that the choice is left to whoever connects.
#[derive(Debug, Eq, Hash)]
pub struct Address {
    /// Host name or IP address.
    pub host: String,
    /// Port number.
    pub port: Option<u16>,
}

/// Why a text could not be read as an address.
#[derive(Clone, Copy, Debug, Eq, PartialEq, Structural)]
pub enum AddressError {
    /// The text is empty or holds more than one colon.
    InvalidFormat,
    /// What follows the colon is not a number that fits in 16 bits.
    InvalidPort,
}

impl View for Address {
    type V = Endpoint;

    open spec fn view(&self) -> Endpoint {
        Endpoint { host: self.host@, port: self.port }
    }
}

/// Where the first colon of `s` stands; the length of `s` where it holds
/// none.
pub open spec fn first_colon(s: Seq<char>) -> int
    decreases s.len(),
{
    if s.len() == 0 || s[0] == ':' {
        0
    } else {
        1 + first_colon(s.drop_first())
    }
}

/// What stands in front of the first colon.
pub open spec fn host_part(s: Seq<char>) -> Seq<char> {
    s.take(first_colon(s))
}

/// What follows the first colon.
pub open spec fn port_part(s: Seq<char>) -> Seq<char>
    recommends
        s.contains(':'),
{
    s.skip(first_colon(s) + 1)
}

/// What a text is read as.
///
/// A text without a colon is a host, unless it is empty. With one colon
/// it is a host and a port, and the port has to denote a 16-bit number;
/// the host may be empty. An empty text, or one with two colons or more,
/// is no address.
pub open spec fn parse_spec(s: Seq<char>) -> Result<Endpoint, AddressError> {
    if s.len() == 0 {
        Err(AddressError::InvalidFormat)
    } else if !s.contains(':') {
        Ok(Endpoint { host: s, port: None })
    } else if port_part(s).contains(':') {
        Err(AddressError::InvalidFormat)
    } else {
        match port_value(port_part(s)) {
            Some(port) => Ok(Endpoint { host: host_part(s), port: Some(port) }),
            None => Err(AddressError::InvalidPort),
        }
    }
}

/// `text` is read as `address`.
pub open spec fn is_parsed(address: Address, text: Seq<char>) -> bool {
    parse_spec(text) matches Ok(endpoint) && endpoint == address@
}

/// `text` is refused with `error`.
pub open spec fn is_refused(error: AddressError, text: Seq<char>) -> bool {
    parse_spec(text) matches Err(e) && e == error
}

/// The canonical text of an endpoint: the host alone where the port is
/// missing or is the default one, else the host, a colon and the port in
/// decimal.
pub open spec fn render_spec(endpoint: Endpoint) -> Seq<char> {
    match endpoint.port {
        Some(port) => if port == DEFAULT_SSH_PORT {
            endpoint.host
        } else {
            endpoint.host + seq![':'] + decimal_text(port as nat)
        },
        None => endpoint.host,
    }
}

impl Clone for Address {
    fn clone(&self) -> (copy: Address)
        ensures
            copy@ == self@,
    {
        Address { host: self.host.clone(), port: self.port }
    }
}

impl PartialEq for Address {
    fn eq(&self, other: &Address) -> (equal: bool) {
        self.host == other.host && self.port == other.port
    }
}

impl vstd::std_specs::cmp::PartialEqSpecImpl for Address {
    open spec fn obeys_eq_spec() -> bool {
        true
    }

    open spec fn eq_spec(&self, other: &Address) -> bool {
        self@ == other@
    }
}

impl Default for Address {
    /// The address with an empty host and no port.
    fn default() -> (address: Address)
        ensures
            address@ == (Endpoint { host: Seq::empty(), port: None }),
    {
        Address { host: String::new(), port: None }
    }
}

impl Address {
    /// An address with the given host and port.
    pub fn new(host: &str, port: u16) -> (address: Address)
        ensures
            address@ == (Endpoint { host: host@, port: Some(port) }),
    {
        Address { host: host.to_owned(), port: Some(port) }
    }

    /// An address with the given host and no port.
    pub fn from_host(host: &str) -> (address: Address)
        ensures
            address@ == (Endpoint { host: host@, port: None }),
    {
        Address { host: host.to_owned(), port: None }
    }

    /// Parse an address in `host[:port]` format.
    ///
    /// The text is split at its colons. One part is a host, two parts are
    /// a host and a port; an empty text, or one with more parts, is
    /// refused as [`AddressError::InvalidFormat`], and a port that is not
    /// a 16-bit number as [`AddressError::InvalidPort`].
    pub fn parse(address: &str) -> (result: Result<Address, AddressError>)
        ensures
            match result {
                Ok(parsed) => is_parsed(parsed, address@),
                Err(error) => is_refused(error, address@),
            },
    {
        let len = address.unicode_len();
        let mut colon: Option<usize> = None;
        let mut at: usize = 0;
        for c in it: address.chars()
            invariant
                it.seq() == address@,
                len == address@.len(),
                at == it.index(),
                match colon {
                    Some(k) => k < at && address@[k as int] == ':' && forall|j: int|
                        0 <= j < at && j != k ==> address@[j] != ':',
                    None => forall|j: int| 0 <= j < at ==> address@[j] != ':',
                },
        {
            if c == ':' {
                if let Some(k) = colon {
                    proof {
                        first_colon_at(address@, k as int);
                        assert(port_part(address@)[at - k - 1] == ':');
                    }
                    return Err(AddressError::InvalidFormat);
                }
                colon = Some(at);
            }
            at = at + 1;
        }
        match colon {
            Some(k) => {
                proof {
                    first_colon_at(address@, k as int);
                    assert(address@[k as int] == ':');
                    assert(host_part(address@) =~= address@.subrange(0, k as int));
                    assert(port_part(address@) =~= address@.subrange(k + 1, len as int));
                }
                let host = address.substring_char(0, k);
                let port = address.substring_char(k + 1, len);
                match parse_u16(port) {
                    Some(port) => Ok(Address::new(host, port)),
                    None => Err(AddressError::InvalidPort),
                }
            },
            None => {
                if len == 0 {
                    Err(AddressError::InvalidFormat)
                } else {
                    Ok(Address::from_host(address))
                }
            },
        }
    }

    /// Parse each text of a batch, in order, and stop at the first that is
    /// no address: its error is the result, and what was parsed before
    /// it is dropped.
    pub fn parse_all(addresses: &[&str]) -> (result: Result<Vec<Address>, AddressError>)
        ensures
            match result {
                Ok(parsed) => parsed.len() == addresses.len() && forall|i: int|
                    0 <= i < addresses.len() ==> is_parsed(parsed[i], #[trigger] addresses[i]@),
                Err(error) => exists|i: int|
                    0 <= i < addresses.len() && is_refused(error, #[trigger] addresses[i]@)
                        && forall|j: int| 0 <= j < i ==> parse_spec(#[trigger] addresses[j]@) is Ok,
            },
    {
        let mut parsed: Vec<Address> = Vec::new();
        for at in 0..addresses.len()
            invariant
                parsed.len() == at,
                forall|i: int| 0 <= i < at ==> is_parsed(parsed[i], #[trigger] addresses[i]@),
        {
            match Address::parse(addresses[at]) {
                Ok(address) => parsed.push(address),
                Err(error) => {
                    assert(is_refused(error, addresses[at as int]@));
                    return Err(error);
                },
            }
        }
        Ok(parsed)
    }

    /// The address in its canonical form: `host` where there is no port
    /// or the port is the default one, else `host:port`.
    pub fn to_string(&self) -> (text: String)
        ensures
            text@ == render_spec(self@),
    {
        match self.port {
            Some(port) => {
                if port == DEFAULT_SSH_PORT {
                    self.host.clone()
                } else {
                    let mut text = self.host.clone();
                    text.append(":");
                    text.append(u16_to_string(port).as_str());
                    proof {
                        reveal_strlit(":");
                        assert(":"@ =~= seq![':']);
                    }
                    text
                }
            },
            None => self.host.clone(),
        }
    }

    /// Get the port number as a string: its decimal text, or the empty
    /// string where there is none.
    pub fn port_str(&self) -> (text: String)
        ensures
            text@ == match self.port {
                Some(port) => decimal_text(port as nat),
                None => Seq::empty(),
            },
    {
        if let Some(port) = self.port {
            u16_to_string(port)
        } else {
            String::new()
        }
    }
}

/// Reads an address out of a string scalar, the way the visitor of a
/// decoder does: the text is parsed, and a failure is put in the words
/// that the decoder reports.
pub struct AddressVisitor;

impl AddressVisitor {
    /// What the visitor expects to be handed.
    pub fn expecting(&self) -> (text: &'static str)
        ensures
            text@ == "host[:port]"@,
    {
        "host[:port]"
    }

    /// The address that `value` is parsed as, or the message for the
    /// reason why it is none.
    pub fn visit_str(self, value: &str) -> (result: Result<Address, &'static str>)
        ensures
            match result {
                Ok(address) => is_parsed(address, value@),
                Err(message) => {
                    ||| is_refused(AddressError::InvalidFormat, value@) && message@
                        == "invalid address format"@
                    ||| is_refused(AddressError::InvalidPort, value@) && message@
                        == "invalid port number"@
                },
            },
    {
        match Address::parse(value) {
            Ok(address) => Ok(address),
            Err(AddressError::InvalidFormat) => Err("invalid address format"),
            Err(AddressError::InvalidPort) => Err("invalid port number"),
        }
    }
}

/// The first colon stands at `k` where a colon stands there and none
/// before it; `k` may be the length of `s`.
pub proof fn first_colon_at(s: Seq<char>, k: int)
    requires
        0 <= k <= s.len(),
        forall|j: int| 0 <= j < k ==> s[j] != ':',
        k < s.len() ==> s[k] == ':',
    ensures
        first_colon(s) == k,
    decreases k,
{
    if k > 0 {
        let rest = s.drop_first();
        assert forall|j: int| 0 <= j < k - 1 implies rest[j] != ':' by {
            assert(rest[j] == s[j + 1]);
        }
        first_colon_at(rest, k - 1);
    }
}

/// The first colon stands inside `s` or at its end, and no colon stands
/// before it.
pub proof fn first_colon_is_first(s: Seq<char>)
    ensures
        0 <= first_colon(s) <= s.len(),
        first_colon(s) < s.len() ==> s[first_colon(s)] == ':',
        first_colon(s) < s.len() <==> s.contains(':'),
        forall|j: int| 0 <= j < first_colon(s) ==> s[j] != ':',
    decreases s.len(),
{
    if s.len() > 0 && s[0] != ':' {
        let rest = s.drop_first();
        first_colon_is_first(rest);
        assert forall|j: int| 0 <= j < first_colon(s) implies s[j] != ':' by {
            if j > 0 {
                assert(s[j] == rest[j - 1]);
            }
        }
        if first_colon(s) < s.len() {
            assert(s[first_colon(s)] == rest[first_colon(rest)]);
        }
    }
}

/// A host without a colon, a colon and a port text come apart again at
/// that colon.
pub proof fn parts_of_joined(host: Seq<char>, port: Seq<char>)
    requires
        !host.contains(':'),
    ensures
        (host + seq![':'] + port).contains(':'),
        first_colon(host + seq![':'] + port) == host.len(),
        host_part(host + seq![':'] + port) == host,
        port_part(host + seq![':'] + port) == port,
{
    let s = host + seq![':'] + port;
    assert(s[host.len() as int] == ':');
    assert forall|j: int| 0 <= j < host.len() implies s[j] != ':' by {
        assert(s[j] == host[j]);
    }
    first_colon_at(s, host.len() as int);
    assert(host_part(s) =~= host);
    assert(port_part(s) =~= port);
}

/// A text that denotes a port holds no colon.
pub proof fn port_text_has_no_colon(port: Seq<char>)
    requires
        port_value(port) is Some,
    ensures
        !port.contains(':'),
{
    let digits = unsigned_part(port);
    assert forall|j: int| 0 <= j < port.len() implies port[j] != ':' by {
        if digits.len() == port.len() {
            assert(is_digit(digits[j]));
        } else if j > 0 {
            assert(is_digit(digits[j - 1]));
        }
    }
}

/// A text without a colon, unless it is empty, is read as a host without
/// a port: the text itself.
pub proof fn parse_host_alone(text: Seq<char>)
    requires
        text.len() > 0,
        !text.contains(':'),
    ensures
        parse_spec(text) == Ok::<Endpoint, AddressError>(Endpoint { host: text, port: None }),
{
}

/// A host without a colon, a colon and the text of a port are read as
/// that host and that port.
pub proof fn parse_host_and_port(host: Seq<char>, port: Seq<char>)
    requires
        !host.contains(':'),
        port_value(port) is Some,
    ensures
        parse_spec(host + seq![':'] + port) == Ok::<Endpoint, AddressError>(
            Endpoint { host, port: port_value(port) },
        ),
{
    parts_of_joined(host, port);
    port_text_has_no_colon(port);
}

/// A text with two colons or more is refused for its format, whatever
/// stands between them.
pub proof fn parse_many_colons(text: Seq<char>, i: int, j: int)
    requires
        0 <= i < j < text.len(),
        text[i] == ':',
        text[j] == ':',
    ensures
        parse_spec(text) == Err::<Endpoint, AddressError>(AddressError::InvalidFormat),
{
    first_colon_is_first(text);
    let first = first_colon(text);
    assert(first <= i) by {
        if i < first {
            assert(text[i] != ':');
        }
    }
    assert(port_part(text)[j - first - 1] == ':');
}

/// A host without a colon, a colon and a text with no colon that does
/// not denote a port are refused for the port.
pub proof fn parse_bad_port(host: Seq<char>, port: Seq<char>)
    requires
        !host.contains(':'),
        !port.contains(':'),
        port_value(port) is None,
    ensures
        parse_spec(host + seq![':'] + port) == Err::<Endpoint, AddressError>(
            AddressError::InvalidPort,
        ),
{
    parts_of_joined(host, port);
}

/// The host of a parsed address is empty only where the text starts
/// with a colon.
pub proof fn parsed_host_is_empty_before_colon(text: Seq<char>)
    requires
        parse_spec(text) is Ok,
    ensures
        parse_spec(text) matches Ok(endpoint) && (endpoint.host.len() == 0 <==> text[0] == ':'),
{
    first_colon_is_first(text);
}

/// Reading a host without a colon and writing it again gives the same
/// text.
pub proof fn round_trip_host_alone(text: Seq<char>)
    requires
        text.len() > 0,
        !text.contains(':'),
    ensures
        parse_spec(text) matches Ok(endpoint) && render_spec(endpoint) == text,
{
}

/// Reading `host:port`, with the port in its shortest decimal form and
/// not the default one, and writing it again gives the same text.
pub proof fn round_trip_host_and_port(host: Seq<char>, port: u16)
    requires
        !host.contains(':'),
        port != DEFAULT_SSH_PORT,
    ensures
        parse_spec(host + seq![':'] + decimal_text(port as nat)) matches Ok(endpoint)
            && render_spec(endpoint) == host + seq![':'] + decimal_text(port as nat),
{
    decimal_text_denotes(port as nat);
    parse_host_and_port(host, decimal_text(port as nat));
}

/// Reading `host:port` where the port is the default one, however it is
/// written, and writing it again gives the host alone.
pub proof fn round_trip_default_port(host: Seq<char>, port: Seq<char>)
    requires
        !host.contains(':'),
        port_value(port) == Some(DEFAULT_SSH_PORT),
    ensures
        parse_spec(host + seq![':'] + port) matches Ok(endpoint) && render_spec(endpoint) == host,
{
    parse_host_and_port(host, port);
}

} // verus!
