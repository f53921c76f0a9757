//! The transports a server can run over, and the names they go by.

use vstd::prelude::*;

verus! {

/// Where a server reads and writes its messages.
#[derive(Debug, Clone, Copy, PartialEq, Eq, Structural)]
#[non_exhaustive]
pub enum Transport {
    /// Connects to a TCP socket on the given port of `127.0.0.1`.
    Socket(u16),
    /// Uses the process standard input and output.
    Stdio,
}

impl Default for Transport {
    /// The standard streams.
    fn default() -> (r: Self)
        ensures
            r == Transport::Stdio,
    {
        Transport::Stdio
    }
}

/// The character of a decimal digit.
pub open spec fn digit_char(d: nat) -> char {
    if d == 0 {
        '0'
    } else if d == 1 {
        '1'
    } else if d == 2 {
        '2'
    } else if d == 3 {
        '3'
    } else if d == 4 {
        '4'
    } else if d == 5 {
        '5'
    } else if d == 6 {
        '6'
    } else if d == 7 {
        '7'
    } else if d == 8 {
        '8'
    } else {
        '9'
    }
}

/// The decimal notation of `n`, without leading zeros.
pub open spec fn decimal(n: nat) -> Seq<char>
    decreases n,
{
    if n < 10 {
        seq![digit_char(n)]
    } else {
        decimal(n / 10).push(digit_char(n % 10))
    }
}

/// The name of a transport: `Stdio`, or `Socket(` with the port in decimal
/// and `)`.
pub open spec fn transport_name(transport: Transport) -> Seq<char> {
    match transport {
        Transport::Stdio => "Stdio"@,
        Transport::Socket(port) => "Socket("@ + decimal(port as nat) + ")"@,
    }
}

/// The one-character text of a decimal digit.
fn digit_str(d: u16) -> (r: &'static str)
    requires
        d < 10,
    ensures
        r@ == seq![digit_char(d as nat)],
{
    proof {
        reveal_strlit("0");
        reveal_strlit("1");
        reveal_strlit("2");
        reveal_strlit("3");
        reveal_strlit("4");
        reveal_strlit("5");
        reveal_strlit("6");
        reveal_strlit("7");
        reveal_strlit("8");
        reveal_strlit("9");
    }
    let r = if d == 0 {
        "0"
    } else if d == 1 {
        "1"
    } else if d == 2 {
        "2"
    } else if d == 3 {
        "3"
    } else if d == 4 {
        "4"
    } else if d == 5 {
        "5"
    } else if d == 6 {
        "6"
    } else if d == 7 {
        "7"
    } else if d == 8 {
        "8"
    } else {
        "9"
    };
    assert(r@ =~= seq![digit_char(d as nat)]);
    r
}

/// Appends the decimal notation of `n` to `s`.
fn append_decimal(s: &mut String, n: u16)
    ensures
        final(s)@ == old(s)@ + decimal(n as nat),
    decreases n,
{
    if n >= 10 {
        append_decimal(s, n / 10);
    }
    let digit = digit_str(n % 10);
    s.append(digit);
    proof {
        if n >= 10 {
            assert(old(s)@ + decimal((n / 10) as nat) + seq![digit_char((n % 10) as nat)] =~= old(
                s,
            )@ + decimal(n as nat));
        } else {
            assert(old(s)@ + seq![digit_char((n % 10) as nat)] =~= old(s)@ + decimal(n as nat));
        }
    }
}

impl Transport {
    /// The transport's name: `Stdio`, or `Socket(port)` with the port in
    /// decimal.
    pub fn to_string(&self) -> (r: String)
        ensures
            r@ == transport_name(*self),
    {
        match self {
            Transport::Stdio => String::from_str("Stdio"),
            Transport::Socket(port) => {
                let mut name = String::from_str("Socket(");
                append_decimal(&mut name, *port);
                name.append(")");
                name
            },
        }
    }
}

} // verus!
