//! How a node is set up from its environment.

use vstd::prelude::*;
use vstd::string::{StrSliceExecFns, StringExecFns};

verus! {

/// The port that a node listens on, unless it is told otherwise.
pub const DEFAULT_PORT: u16 = 51820;

/// The same as text.
pub const DEFAULT_PORT_TEXT: &'static str = "51820";

/// Where the signaling server is.
pub const SIGNALING_SERVER: &'static str = "http://127.0.0.1:50051";

/// The local address that a node registers.
pub const REGISTERED_LOCAL_IP: &'static str = "127.0.0.1";

/// The settings of a node.
pub struct Config {
    /// The port to listen on, as text.
    pub port: String,
    /// The port to ask the router for and to register.
    pub local_port: u16,
    /// The address to bind.
    pub bind_addr: String,
    /// Where the control socket is.
    pub socket_path: String,
    /// Where the identity is kept.
    pub identity_path: String,
    /// The public key of the peer that the node was started for, if any.
    pub peer_pub: Option<String>,
}

/// Whether `c` is a decimal digit.
pub open spec fn is_digit(c: char) -> bool {
    '0' <= c <= '9'
}

/// The number that a row of decimal digits stands for.
pub open spec fn decimal(digits: Seq<char>) -> nat
    decreases digits.len(),
{
    if digits.len() == 0 {
        0
    } else {
        10 * decimal(digits.drop_last()) + (digits.last() as nat - '0' as nat) as nat
    }
}

/// A number without the plus sign that may stand in front of it.
pub open spec fn unsigned(text: Seq<char>) -> Seq<char> {
    if text.len() > 0 && text[0] == '+' {
        text.skip(1)
    } else {
        text
    }
}

/// The 16-bit number that `text` stands for, if it is one: decimal digits, at least one, with or
/// without a plus sign in front.
pub open spec fn port_number(text: Seq<char>) -> Option<u16> {
    let digits = unsigned(text);
    if digits.len() > 0 && (forall|i: int| 0 <= i < digits.len() ==> is_digit(#[trigger] digits[i]))
        && decimal(digits) <= u16::MAX {
        Some(decimal(digits) as u16)
    } else {
        None
    }
}

/// More digits do not make a number smaller.
proof fn digits_add_up(digits: Seq<char>, upto: nat)
    requires
        upto <= digits.len(),
        forall|i: int| 0 <= i < digits.len() ==> is_digit(#[trigger] digits[i]),
    ensures
        decimal(digits.take(upto as int)) <= decimal(digits),
    decreases digits.len() - upto,
{
    if upto < digits.len() {
        let longer = digits.take(upto as int + 1);
        assert(longer.drop_last() =~= digits.take(upto as int));
        assert(longer.last() == digits[upto as int]);
        digits_add_up(digits, upto + 1);
    } else {
        assert(digits.take(upto as int) =~= digits);
    }
}

/// Reads a 16-bit number.
pub fn parse_port(text: &str) -> (port: Option<u16>)
    ensures
        port == port_number(text@),
{
    let len: usize = text.unicode_len();
    let start: usize = if len > 0 && text.get_char(0) == '+' {
        1
    } else {
        0
    };
    if start == len {
        return None;
    }
    let ghost digits = unsigned(text@);
    assert(digits =~= text@.skip(start as int));
    let mut value: u32 = 0;
    let mut i: usize = start;
    while i < len
        invariant
            start <= i <= len == text@.len(),
            start < len,
            digits == unsigned(text@),
            digits == text@.skip(start as int),
            value == decimal(digits.take(i - start)),
            value <= u16::MAX,
            forall|k: int| 0 <= k < i - start ==> is_digit(#[trigger] digits[k]),
        decreases len - i,
    {
        let c: char = text.get_char(i);
        assert(digits[i - start] == c);
        if c < '0' || c > '9' {
            assert(!is_digit(digits[i - start]));
            return None;
        }
        let ghost longer = digits.take(i - start + 1);
        assert(longer.drop_last() =~= digits.take(i - start));
        value = 10 * value + (c as u32 - '0' as u32);
        assert(value == decimal(longer));
        if value > u16::MAX as u32 {
            proof {
                if forall|k: int| 0 <= k < digits.len() ==> is_digit(#[trigger] digits[k]) {
                    digits_add_up(digits, (i - start + 1) as nat);
                }
            }
            return None;
        }
        i = i + 1;
    }
    assert(digits.take(len - start) =~= digits);
    Some(value as u16)
}

/// The text of a path that holds the port.
fn path_with_port(before: &str, port: &str, after: &str) -> (path: String)
    ensures
        path@ == before@ + port@ + after@,
{
    let mut path = String::from_str(before);
    path.append(port);
    path.append(after);
    path
}

/// Sets a node up from the values of its environment, where they are set. A port that is no number
/// is replaced by [`DEFAULT_PORT`] where a number is needed.
pub fn configure(
    port: Option<String>,
    identity_path: Option<String>,
    peer_pub: Option<String>,
) -> (config: Config)
    ensures
        config.port@ == match port {
            Some(port) => port@,
            None => DEFAULT_PORT_TEXT@,
        },
        config.local_port == match port_number(config.port@) {
            Some(port) => port,
            None => DEFAULT_PORT,
        },
        config.bind_addr@ == "0.0.0.0:"@ + config.port@,
        config.socket_path@ == "/tmp/decentis_"@ + config.port@ + ".sock"@,
        config.identity_path@ == match identity_path {
            Some(path) => path@,
            None => "/etc/decentis/node_"@ + config.port@ + ".key"@,
        },
        config.peer_pub == peer_pub,
{
    let port = match port {
        Some(port) => port,
        None => String::from_str(DEFAULT_PORT_TEXT),
    };
    let local_port: u16 = match parse_port(port.as_str()) {
        Some(port) => port,
        None => DEFAULT_PORT,
    };
    let identity_path = match identity_path {
        Some(path) => path,
        None => path_with_port("/etc/decentis/node_", port.as_str(), ".key"),
    };
    let mut bind_addr = String::from_str("0.0.0.0:");
    bind_addr.append(port.as_str());
    let socket_path = path_with_port("/tmp/decentis_", port.as_str(), ".sock");
    Config { port, local_port, bind_addr, socket_path, identity_path, peer_pub }
}

/// The characters of the ten digits, in order.
pub open spec fn digit_characters() -> Seq<char> {
    seq!['0', '1', '2', '3', '4', '5', '6', '7', '8', '9']
}

/// A number written out in decimal, without leading zeros.
pub open spec fn written_out(n: nat) -> Seq<char>
    decreases n,
{
    if n < 10 {
        seq![digit_characters()[n as int]]
    } else {
        written_out(n / 10).push(digit_characters()[(n % 10) as int])
    }
}

/// A row of zeros.
pub open spec fn zeros(count: nat) -> Seq<char> {
    Seq::new(count, |i: int| '0')
}

/// A number written out reads as that number, also behind zeros, and holds nothing but digits.
proof fn written_out_reads_back(n: nat, count: nat)
    ensures
        decimal(zeros(count) + written_out(n)) == n,
        written_out(n).len() > 0,
        forall|i: int|
            0 <= i < (zeros(count) + written_out(n)).len() ==> is_digit(
                #[trigger] (zeros(count) + written_out(n))[i],
            ),
    decreases n, count,
{
    let text = zeros(count) + written_out(n);
    if n < 10 {
        assert(text.drop_last() =~= zeros(count));
        zeros_read_as_nothing(count);
        assert(text.last() == digit_characters()[n as int]);
        assert(digit_characters()[n as int] as nat == '0' as nat + n);
    } else {
        written_out_reads_back(n / 10, count);
        let shorter = zeros(count) + written_out(n / 10);
        assert(text.drop_last() =~= shorter);
        assert(text.last() == digit_characters()[(n % 10) as int]);
        assert(digit_characters()[(n % 10) as int] as nat == '0' as nat + n % 10);
        assert forall|i: int| 0 <= i < text.len() implies is_digit(#[trigger] text[i]) by {
            if i < shorter.len() {
                assert(text[i] == shorter[i]);
            }
        }
    }
}

/// Zeros alone read as zero.
proof fn zeros_read_as_nothing(count: nat)
    ensures
        decimal(zeros(count)) == 0,
    decreases count,
{
    if count > 0 {
        assert(zeros(count).drop_last() =~= zeros((count - 1) as nat));
        zeros_read_as_nothing((count - 1) as nat);
    }
}

/// A row of digits is the number it reads as, written out behind some zeros.
proof fn digits_are_written_out(digits: Seq<char>) -> (count: nat)
    requires
        digits.len() > 0,
        forall|i: int| 0 <= i < digits.len() ==> is_digit(#[trigger] digits[i]),
    ensures
        digits == zeros(count) + written_out(decimal(digits)),
    decreases digits.len(),
{
    let n = decimal(digits);
    let last = digits.last();
    let front = digits.drop_last();
    assert(is_digit(digits[digits.len() - 1]));
    let d = (last as nat - '0' as nat) as nat;
    assert(digit_characters()[d as int] == last);
    if front.len() == 0 {
        assert(decimal(front) == 0);
        assert(digits =~= zeros(0) + written_out(n));
        0
    } else {
        assert forall|i: int| 0 <= i < front.len() implies is_digit(#[trigger] front[i]) by {
            assert(front[i] == digits[i]);
        }
        let count = digits_are_written_out(front);
        let m = decimal(front);
        assert(n == 10 * m + d);
        assert(digits =~= front.push(last));
        if m == 0 {
            assert(written_out(0) =~= seq!['0']);
            assert(written_out(n) =~= seq![last]);
            assert(zeros(count + 1) =~= zeros(count) + seq!['0']);
            assert(digits =~= zeros(count + 1) + written_out(n));
            count + 1
        } else {
            assert(n / 10 == m && n % 10 == d);
            assert(written_out(n) =~= written_out(m).push(last));
            assert(digits =~= zeros(count) + written_out(n));
            count
        }
    }
}

/// Every 16-bit number is read back from its decimal digits, with or without zeros and a plus sign
/// in front.
pub proof fn law_every_port_is_read_back(port: u16, count: nat)
    ensures
        port_number(written_out(port as nat)) == Some(port),
        port_number(zeros(count) + written_out(port as nat)) == Some(port),
        port_number(seq!['+'] + (zeros(count) + written_out(port as nat))) == Some(port),
{
    let text = zeros(count) + written_out(port as nat);
    written_out_reads_back(port as nat, count);
    assert(is_digit(text[0]));
    assert(unsigned(text) == text);
    assert(unsigned(seq!['+'] + text) =~= text);
    written_out_reads_back(port as nat, 0);
    assert(zeros(0) + written_out(port as nat) =~= written_out(port as nat));
    assert(is_digit(written_out(port as nat)[0])) by {
        assert((zeros(0) + written_out(port as nat))[0] == written_out(port as nat)[0]);
    }
}

/// Nothing else is read: a text that gives a number is that number in decimal digits, behind zeros
/// and a plus sign at most.
pub proof fn law_nothing_but_a_port_is_read(text: Seq<char>)
    requires
        port_number(text) is Some,
    ensures
        exists|count: nat|
            {
                let digits = #[trigger] zeros(count) + written_out(port_number(text)->0 as nat);
                text == digits || text == seq!['+'] + digits
            },
{
    let digits = unsigned(text);
    let count = digits_are_written_out(digits);
    assert(digits == zeros(count) + written_out(port_number(text)->0 as nat));
    if digits.len() < text.len() {
        assert(text =~= seq!['+'] + digits);
    }
}

} // verus!
