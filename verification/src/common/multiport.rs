//! Addresses with one port or a range of ports.

use crate::common::ip_literal::ip_literal;
use crate::text::{chars_of, push_decimal, string_of};
use vstd::prelude::*;
use vstd::string::*;

verus! {

/// A host, as text, and a port on it.
#[derive(Clone, Debug)]
pub struct HostPort {
    pub host: String,
    pub port: u16,
}

impl View for HostPort {
    type V = (Seq<char>, u16);

    open spec fn view(&self) -> (Seq<char>, u16) {
        (self.host@, self.port)
    }
}

impl HostPort {
    /// `host:port`.
    pub fn to_text(&self) -> (s: String)
        ensures
            s@ == self.host@ + seq![':'] + crate::text::decimal(self.port as nat),
    {
        let mut s: String = self.host.clone();
        s.push(':');
        push_decimal(&mut s, self.port as u64);
        assert(s@ =~= self.host@ + seq![':'] + crate::text::decimal(self.port as nat));
        s
    }
}

/// What is wrong with an address.
#[derive(Clone, Copy, Debug, PartialEq, Eq, Structural)]
pub enum AddrError {
    /// There is no colon before the port.
    MissingPort,
    /// A port is no number between 0 and 65535.
    InvalidPort,
    /// A range is empty or has port 0 in it.
    InvalidRange { min: u16, max: u16 },
    /// The host is no address.
    InvalidHost,
}

/// `c` is a decimal digit.
pub open spec fn is_digit(c: char) -> bool {
    '0' <= c <= '9'
}

/// The number that decimal digits write.
pub open spec fn decimal_value(s: Seq<char>) -> nat
    decreases s.len(),
{
    if s.len() == 0 {
        0
    } else {
        decimal_value(s.drop_last()) * 10 + (s.last() as nat - '0' as nat) as nat
    }
}

/// `s` behind a plus sign, if it begins with one.
pub open spec fn unsigned(s: Seq<char>) -> Seq<char> {
    if s.len() > 0 && s[0] == '+' {
        s.skip(1)
    } else {
        s
    }
}

/// The port that `s` writes: decimal digits, one at least, perhaps behind a plus
/// sign, for a number up to 65535.
pub open spec fn port_value(s: Seq<char>) -> Option<u16> {
    let t = unsigned(s);
    if t.len() > 0 && (forall|i: int| 0 <= i < t.len() ==> is_digit(#[trigger] t[i]))
        && decimal_value(t) <= 65535 {
        Some(decimal_value(t) as u16)
    } else {
        None
    }
}

/// What an address stands for. The port, or the range `min-max`, stands behind
/// the last colon; an empty host means any, and another must be the address of
/// one.
pub open spec fn multi_port(addr: Seq<char>) -> Result<Seq<(Seq<char>, u16)>, AddrError> {
    match addr.index_of_last(':') {
        None => Err(AddrError::MissingPort),
        Some(colon) => {
            let host = if colon == 0 {
                "0.0.0.0"@
            } else {
                addr.take(colon)
            };
            let ports = addr.skip(colon + 1);
            match ports.index_of_first('-') {
                None => match port_value(ports) {
                    None => Err(AddrError::InvalidPort),
                    Some(port) => if crate::common::ip_literal::is_ip_literal(host) {
                        Ok(seq![(host, port)])
                    } else {
                        Err(AddrError::InvalidHost)
                    },
                },
                Some(dash) => match (port_value(ports.take(dash)), port_value(
                    ports.skip(dash + 1),
                )) {
                    (Some(min), Some(max)) => if min > max || min == 0 || max == 0 {
                        Err(AddrError::InvalidRange { min, max })
                    } else if !crate::common::ip_literal::is_ip_literal(host) {
                        Err(AddrError::InvalidHost)
                    } else {
                        Ok(Seq::new((max - min + 1) as nat, |i: int| (host, (min + i) as u16)))
                    },
                    _ => Err(AddrError::InvalidPort),
                },
            }
        },
    }
}

/// The front of a text of digits writes no larger number.
pub proof fn lemma_decimal_value_grows(s: Seq<char>, i: int)
    requires
        0 <= i <= s.len(),
        forall|j: int| 0 <= j < s.len() ==> is_digit(#[trigger] s[j]),
    ensures
        decimal_value(s.take(i)) <= decimal_value(s),
    decreases s.len() - i,
{
    if i < s.len() {
        lemma_decimal_value_grows(s, i + 1);
        assert(s.take(i + 1).drop_last() =~= s.take(i));
    } else {
        assert(s.take(i) =~= s);
    }
}

/// The port that the characters from `from` up to `to` write.
fn parse_port(chars: &Vec<char>, from: usize, to: usize) -> (port: Option<u16>)
    requires
        from <= to <= chars@.len(),
    ensures
        port == port_value(chars@.subrange(from as int, to as int)),
{
    let ghost s = chars@.subrange(from as int, to as int);
    let ghost t = unsigned(s);
    let mut i: usize = from;
    if from < to && chars[from] == '+' {
        i = from + 1;
        assert(t =~= chars@.subrange(from + 1, to as int));
    }
    assert(t =~= chars@.subrange(i as int, to as int));
    if i == to {
        return None;
    }
    let start: usize = i;
    let mut value: u32 = 0;
    assert(t.take(0) =~= Seq::<char>::empty());
    while i < to
        invariant
            start <= i <= to <= chars@.len(),
            t == chars@.subrange(start as int, to as int),
            value <= 65535,
            value == decimal_value(t.take(i - start)),
            forall|j: int| 0 <= j < i - start ==> is_digit(#[trigger] t[j]),
            t == unsigned(chars@.subrange(from as int, to as int)),
        decreases to - i,
    {
        let c: char = chars[i];
        assert(t[i - start] == c);
        assert(t.take(i - start + 1).drop_last() =~= t.take(i - start));
        if c < '0' || c > '9' {
            return None;
        }
        value = value * 10 + (c as u32 - '0' as u32);
        if value > 65535 {
            proof {
                if forall|j: int| 0 <= j < t.len() ==> is_digit(#[trigger] t[j]) {
                    lemma_decimal_value_grows(t, i - start + 1);
                }
            }
            return None;
        }
        i = i + 1;
    }
    assert(t.take(to - start) =~= t);
    Some(value as u16)
}

/// The contents of a list of addresses.
pub open spec fn host_ports(v: Seq<HostPort>) -> Seq<(Seq<char>, u16)> {
    Seq::new(v.len(), |i: int| v[i]@)
}

/// Where `c` stands last.
fn find_last(chars: &Vec<char>, c: char) -> (r: Option<usize>)
    ensures
        match r {
            Some(i) => chars@.index_of_last(c) == Some(i as int) && i < chars@.len(),
            None => chars@.index_of_last(c) is None,
        },
{
    proof {
        chars@.index_of_last_ensures(c);
    }
    let mut i: usize = chars.len();
    while i > 0
        invariant
            i <= chars@.len(),
            forall|j: int| i <= j < chars@.len() ==> chars@[j] != c,
            match chars@.index_of_last(c) {
                Some(index) => {
                    &&& 0 <= index < chars@.len()
                    &&& chars@[index] == c
                    &&& forall|j: int| 0 <= index < j < chars@.len() ==> chars@[j] != c
                },
                None => !chars@.contains(c),
            },
        decreases i,
    {
        i = i - 1;
        if chars[i] == c {
            assert(chars@.contains(c));
            return Some(i);
        }
    }
    None
}

/// Where `c` stands first from `from` on, counted from there.
fn find_from(chars: &Vec<char>, from: usize, c: char) -> (r: Option<usize>)
    requires
        from <= chars@.len(),
    ensures
        match r {
            Some(i) => chars@.skip(from as int).index_of_first(c) == Some(i as int) && i
                < chars@.len() - from,
            None => chars@.skip(from as int).index_of_first(c) is None,
        },
{
    let ghost s = chars@.skip(from as int);
    proof {
        s.index_of_first_ensures(c);
    }
    let mut i: usize = 0;
    let n: usize = chars.len() - from;
    while i < n
        invariant
            n + from == chars.len(),
            i <= n,
            s == chars@.skip(from as int),
            forall|j: int| 0 <= j < i ==> s[j] != c,
            match s.index_of_first(c) {
                Some(index) => {
                    &&& 0 <= index < s.len()
                    &&& s[index] == c
                    &&& forall|j: int| 0 <= j < index < s.len() ==> s[j] != c
                },
                None => !s.contains(c),
            },
        decreases n - i,
    {
        if chars[from + i] == c {
            assert(s[i as int] == c);
            assert(s.contains(c));
            return Some(i);
        }
        i = i + 1;
    }
    None
}

/// Parses `host:port` or `host:min-max` into the addresses that it stands for.
/// An empty host stands for `0.0.0.0`; another must be an address, in brackets
/// where it has colons.
pub fn parse_multi_port(addr: &str) -> (r: Result<Vec<HostPort>, AddrError>)
    ensures
        match r {
            Ok(v) => multi_port(addr@) == Ok::<Seq<(Seq<char>, u16)>, AddrError>(host_ports(v@)),
            Err(e) => multi_port(addr@) == Err::<Seq<(Seq<char>, u16)>, AddrError>(e),
        },
{
    let chars: Vec<char> = chars_of(addr);
    let colon: usize = match find_last(&chars, ':') {
        Some(c) => c,
        None => return Err(AddrError::MissingPort),
    };
    let host: String = if colon == 0 {
        String::from_str("0.0.0.0")
    } else {
        string_of(&chars, 0, colon)
    };
    let n: usize = chars.len();
    let from: usize = colon + 1;
    let ghost ports = addr@.skip(colon + 1);
    assert(colon > 0 ==> addr@.subrange(0, colon as int) =~= addr@.take(colon as int));
    match find_from(&chars, from, '-') {
        None => {
            assert(chars@.subrange(from as int, n as int) =~= ports);
            match parse_port(&chars, from, n) {
                None => Err(AddrError::InvalidPort),
                Some(port) => {
                    if !ip_literal(&chars_of(host.as_str())) {
                        return Err(AddrError::InvalidHost);
                    }
                    let mut v: Vec<HostPort> = Vec::new();
                    v.push(HostPort { host, port });
                    assert(host_ports(v@) =~= seq![(host@, port)]);
                    Ok(v)
                },
            }
        },
        Some(dash) => {
            assert(chars@.subrange(from as int, from + dash) =~= ports.take(dash as int));
            assert(chars@.subrange(from + dash + 1, n as int) =~= ports.skip(dash + 1));
            let min: u16 = match parse_port(&chars, from, from + dash) {
                Some(p) => p,
                None => return Err(AddrError::InvalidPort),
            };
            let max: u16 = match parse_port(&chars, from + dash + 1, n) {
                Some(p) => p,
                None => return Err(AddrError::InvalidPort),
            };
            if min > max || min == 0 || max == 0 {
                return Err(AddrError::InvalidRange { min, max });
            }
            if !ip_literal(&chars_of(host.as_str())) {
                return Err(AddrError::InvalidHost);
            }
            let mut v: Vec<HostPort> = Vec::new();
            let mut port: u32 = min as u32;
            while port <= max as u32
                invariant
                    0 < min <= port <= max + 1,
                    v@.len() == port - min,
                    forall|i: int|
                        0 <= i < v@.len() ==> (#[trigger] v@[i])@ == (host@, (min + i) as u16),
                decreases max + 1 - port,
            {
                v.push(HostPort { host: host.clone(), port: port as u16 });
                port = port + 1;
            }
            assert(host_ports(v@) =~= Seq::new(
                (max - min + 1) as nat,
                |i: int| (host@, (min + i) as u16),
            ));
            Ok(v)
        },
    }
}

/// An address with its host written out: `:port` stands for `0.0.0.0:port`.
pub fn expand_addr(addr: &str) -> (s: String)
    ensures
        s@ == (if addr@.len() > 0 && addr@[0] == ':' {
            "0.0.0.0"@ + addr@
        } else {
            addr@
        }),
{
    let chars: Vec<char> = chars_of(addr);
    let mut s: String = String::new();
    if chars.len() > 0 && chars[0] == ':' {
        s.append("0.0.0.0");
    }
    let ghost s0 = s@;
    s.append(addr);
    assert(s0.len() == 0 ==> s@ =~= addr@);
    assert(s@ =~= s0 + addr@);
    assert(Seq::<char>::empty() + "0.0.0.0"@ =~= "0.0.0.0"@);
    s
}

} // verus!
