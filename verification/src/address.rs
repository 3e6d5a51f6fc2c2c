//! Socket addresses as plain values, and their text.
use vstd::prelude::*;
use vstd::string::*;

use crate::text::{concat_text, decimal_text, hexadecimal_text};

verus! {

/// The address of one end of a connection: an IP address, read as one big-endian number, and a
/// port.
#[allow(inconsistent_fields)]
#[derive(Clone, Copy, Debug, PartialEq, Eq, Structural, Hash)]
pub enum SocketAddress {
    V4 { ip: u32, port: u16 },
    V6 { ip: u128, port: u16, flowinfo: u32, scope_id: u32 },
}

impl DeepView for SocketAddress {
    type V = SocketAddress;

    open spec fn deep_view(&self) -> SocketAddress {
        *self
    }
}

/// Octet `i` of an IPv4 address, the most significant one first.
pub open spec fn octet(ip: u32, i: int) -> u8 {
    if i == 0 {
        (ip / 0x100_0000) as u8
    } else if i == 1 {
        (ip / 0x1_0000 % 0x100) as u8
    } else if i == 2 {
        (ip / 0x100 % 0x100) as u8
    } else {
        (ip % 0x100) as u8
    }
}

/// The weight of segment `i` in an IPv6 address.
pub open spec fn segment_weight(i: int) -> u128 {
    if i == 0 {
        0x1_0000_0000_0000_0000_0000_0000_0000
    } else if i == 1 {
        0x1_0000_0000_0000_0000_0000_0000
    } else if i == 2 {
        0x1_0000_0000_0000_0000_0000
    } else if i == 3 {
        0x1_0000_0000_0000_0000
    } else if i == 4 {
        0x1_0000_0000_0000
    } else if i == 5 {
        0x1_0000_0000
    } else if i == 6 {
        0x1_0000
    } else {
        1
    }
}

/// Segment `i` of an IPv6 address, the most significant one first.
pub open spec fn segment(ip: u128, i: int) -> u16 {
    (ip / segment_weight(i) % 0x1_0000) as u16
}

/// The eight segments of an IPv6 address.
pub open spec fn segments(ip: u128) -> Seq<u16> {
    Seq::new(8, |i: int| segment(ip, i))
}

/// `a.b.c.d`.
pub open spec fn ipv4_text(ip: u32) -> Seq<char> {
    crate::text::decimal(octet(ip, 0) as nat) + "."@ + crate::text::decimal(octet(ip, 1) as nat)
        + "."@ + crate::text::decimal(octet(ip, 2) as nat) + "."@ + crate::text::decimal(
        octet(ip, 3) as nat,
    )
}

/// How many segments from `start` on are zero before the first one that is not.
pub open spec fn zeros_from(s: Seq<u16>, start: int) -> int
    decreases s.len() - start,
{
    if 0 <= start < s.len() && s[start] == 0 {
        1 + zeros_from(s, start + 1)
    } else {
        0
    }
}

/// No run of zeros is longer than the one that starts at `start`, and none that starts earlier is
/// as long.
pub open spec fn longest_zeros_at(s: Seq<u16>, start: int) -> bool {
    &&& 0 <= start <= s.len()
    &&& forall|k: int|
        0 <= k < s.len() ==> #[trigger] zeros_from(s, k) <= zeros_from(s, start)
    &&& forall|k: int| 0 <= k < start ==> #[trigger] zeros_from(s, k) < zeros_from(s, start)
}

/// Where the first of the longest runs of zero segments starts.
pub open spec fn longest_zeros(s: Seq<u16>) -> int {
    choose|start: int| longest_zeros_at(s, start)
}

/// The segments in hexadecimal with `:` between two neighbours.
pub open spec fn segments_text(s: Seq<u16>) -> Seq<char> {
    crate::text::joined(s.map_values(|x: u16| crate::text::hexadecimal(x as nat)), ":"@)
}

/// The segments in hexadecimal, with `::` in place of the longest run of two or more zeros.
pub open spec fn compressed_text(s: Seq<u16>) -> Seq<char> {
    let start = longest_zeros(s);
    let length = zeros_from(s, start);
    if length > 1 {
        segments_text(s.take(start)) + "::"@ + segments_text(s.skip(start + length))
    } else {
        segments_text(s)
    }
}

/// An IPv6 address that carries an IPv4 address in its low half.
pub open spec fn is_ipv4_mapped(ip: u128) -> bool {
    ip / 0x1_0000_0000 == 0xffff
}

/// The text of an IPv6 address: an IPv4-mapped address ends in the dotted form, any other one
/// is compressed.
pub open spec fn ipv6_text(ip: u128) -> Seq<char> {
    if is_ipv4_mapped(ip) {
        "::ffff:"@ + ipv4_text((ip % 0x1_0000_0000) as u32)
    } else {
        compressed_text(segments(ip))
    }
}

impl SocketAddress {
    /// `ip:port`, with an IPv6 address in square brackets and its scope, if any, behind a `%`.
    pub open spec fn text(self) -> Seq<char> {
        match self {
            SocketAddress::V4 { ip, port } => ipv4_text(ip) + ":"@ + crate::text::decimal(
                port as nat,
            ),
            SocketAddress::V6 { ip, port, flowinfo, scope_id } => {
                if scope_id == 0 {
                    "["@ + ipv6_text(ip) + "]:"@ + crate::text::decimal(port as nat)
                } else {
                    "["@ + ipv6_text(ip) + "%"@ + crate::text::decimal(scope_id as nat) + "]:"@
                        + crate::text::decimal(port as nat)
                }
            },
        }
    }

    /// Renders the address.
    pub fn to_text(&self) -> (r: String)
        ensures
            r@ == self.text(),
    {
        match *self {
            SocketAddress::V4 { ip, port } => {
                let mut r = render_ipv4(ip);
                r.append(":");
                r.append(decimal_text(port as u64).as_str());
                r
            },
            SocketAddress::V6 { ip, port, flowinfo, scope_id } => {
                let mut r = "[".to_owned();
                r.append(render_ipv6(ip).as_str());
                if scope_id != 0 {
                    r.append("%");
                    r.append(decimal_text(scope_id as u64).as_str());
                }
                r.append("]:");
                r.append(decimal_text(port as u64).as_str());
                r
            },
        }
    }
}

fn render_ipv4(ip: u32) -> (r: String)
    ensures
        r@ == ipv4_text(ip),
{
    let mut r = decimal_text((ip / 0x100_0000) as u64);
    r.append(".");
    r.append(decimal_text((ip / 0x1_0000 % 0x100) as u64).as_str());
    r.append(".");
    r.append(decimal_text((ip / 0x100 % 0x100) as u64).as_str());
    r.append(".");
    r.append(decimal_text((ip % 0x100) as u64).as_str());
    r
}

fn segments_of(ip: u128) -> (r: Vec<u16>)
    ensures
        r@ == segments(ip),
{
    let mut r: Vec<u16> = Vec::new();
    r.push((ip / 0x1_0000_0000_0000_0000_0000_0000_0000 % 0x1_0000) as u16);
    r.push((ip / 0x1_0000_0000_0000_0000_0000_0000 % 0x1_0000) as u16);
    r.push((ip / 0x1_0000_0000_0000_0000_0000 % 0x1_0000) as u16);
    r.push((ip / 0x1_0000_0000_0000_0000 % 0x1_0000) as u16);
    r.push((ip / 0x1_0000_0000_0000 % 0x1_0000) as u16);
    r.push((ip / 0x1_0000_0000 % 0x1_0000) as u16);
    r.push((ip / 0x1_0000 % 0x1_0000) as u16);
    r.push((ip % 0x1_0000) as u16);
    proof {
        assert(r@[7] == segment(ip, 7)) by {
            assert(ip / 1 == ip);
        }
        assert forall|i: int| 0 <= i < 8 implies r@[i] == segment(ip, i) by {
            if i == 0 {
            } else if i == 1 {
            } else if i == 2 {
            } else if i == 3 {
            } else if i == 4 {
            } else if i == 5 {
            } else if i == 6 {
            }
        }
        assert(r@ =~= segments(ip));
    }
    r
}

/// At most one index starts the first of the longest runs.
proof fn lemma_longest_zeros_unique(s: Seq<u16>, a: int, b: int)
    requires
        longest_zeros_at(s, a),
        longest_zeros_at(s, b),
        a < s.len(),
        b < s.len(),
    ensures
        a == b,
{
    if a < b {
        assert(zeros_from(s, a) < zeros_from(s, b));
        assert(zeros_from(s, b) <= zeros_from(s, a));
    } else if b < a {
        assert(zeros_from(s, b) < zeros_from(s, a));
        assert(zeros_from(s, a) <= zeros_from(s, b));
    }
}

fn count_zeros(s: &Vec<u16>, start: usize) -> (n: usize)
    requires
        start <= s.len(),
    ensures
        n == zeros_from(s@, start as int),
        start + n <= s.len(),
    decreases s.len() - start,
{
    if start < s.len() && s[start] == 0 {
        1 + count_zeros(s, start + 1)
    } else {
        0
    }
}

/// Start and length of the first of the longest runs of zeros.
fn find_longest_zeros(s: &Vec<u16>) -> (r: (usize, usize))
    requires
        s.len() > 0,
    ensures
        r.0 == longest_zeros(s@),
        r.1 == zeros_from(s@, r.0 as int),
        r.0 + r.1 <= s.len(),
{
    let mut start: usize = 0;
    let mut length: usize = count_zeros(s, 0);
    let mut i: usize = 1;
    while i < s.len()
        invariant
            0 <= start < i <= s.len(),
            length == zeros_from(s@, start as int),
            start + length <= s.len(),
            forall|k: int| 0 <= k < i ==> #[trigger] zeros_from(s@, k) <= length,
            forall|k: int| 0 <= k < start ==> #[trigger] zeros_from(s@, k) < length,
        decreases s.len() - i,
    {
        let n = count_zeros(s, i);
        if n > length {
            start = i;
            length = n;
        }
        i = i + 1;
    }
    proof {
        assert(longest_zeros_at(s@, start as int));
        let c = longest_zeros(s@);
        assert(longest_zeros_at(s@, c));
        if c == s.len() {
            assert(zeros_from(s@, c) == 0);
            assert(zeros_from(s@, 0) >= 0) by {
                lemma_zeros_nonnegative(s@, 0);
            }
        }
        lemma_longest_zeros_unique(s@, start as int, c);
    }
    (start, length)
}

proof fn lemma_zeros_nonnegative(s: Seq<u16>, start: int)
    ensures
        zeros_from(s, start) >= 0,
    decreases s.len() - start,
{
    if 0 <= start < s.len() && s[start] == 0 {
        lemma_zeros_nonnegative(s, start + 1);
    }
}

fn render_segments(s: &Vec<u16>, from: usize, to: usize) -> (r: String)
    requires
        from <= to <= s.len(),
    ensures
        r@ == segments_text(s@.subrange(from as int, to as int)),
{
    let mut parts: Vec<String> = Vec::new();
    let mut i = from;
    let ghost wanted = s@.subrange(from as int, to as int);
    while i < to
        invariant
            from <= i <= to <= s.len(),
            wanted == s@.subrange(from as int, to as int),
            parts.len() == i - from,
            forall|k: int|
                0 <= k < parts.len() ==> (#[trigger] parts@[k])@ == crate::text::hexadecimal(
                    wanted[k] as nat,
                ),
        decreases to - i,
    {
        parts.push(hexadecimal_text(s[i] as u64));
        i = i + 1;
    }
    proof {
        assert(parts.deep_view() =~= wanted.map_values(
            |x: u16| crate::text::hexadecimal(x as nat),
        ));
    }
    crate::text::join_text(&parts, ":")
}

fn render_ipv6(ip: u128) -> (r: String)
    ensures
        r@ == ipv6_text(ip),
{
    if ip / 0x1_0000_0000 == 0xffff {
        concat_text("::ffff:", render_ipv4((ip % 0x1_0000_0000) as u32).as_str())
    } else {
        let s = segments_of(ip);
        let (start, length) = find_longest_zeros(&s);
        if length > 1 {
            let mut r = render_segments(&s, 0, start);
            r.append("::");
            r.append(render_segments(&s, start + length, s.len()).as_str());
            proof {
                assert(s@.take(start as int) =~= s@.subrange(0, start as int));
                assert(s@.skip(start + length) =~= s@.subrange(
                    start + length,
                    s@.len() as int,
                ));
            }
            r
        } else {
            proof {
                assert(s@.subrange(0, s@.len() as int) =~= s@);
            }
            render_segments(&s, 0, s.len())
        }
    }
}

proof fn lemma_only_digits(n: nat, i: int)
    requires
        0 <= i < crate::text::decimal(n).len(),
    ensures
        '0' <= crate::text::decimal(n)[i] <= '9',
    decreases n,
{
    assert((48 + n % 10) as u8 == 48 + n % 10);
    if n >= 10 && i < crate::text::decimal(n / 10).len() {
        lemma_only_digits(n / 10, i);
    }
}

/// Two numbers in front of the same mark are the same, and so is what follows it.
proof fn lemma_number_in_front(a: nat, x: Seq<char>, b: nat, y: Seq<char>, mark: char)
    requires
        mark == '.' || mark == ':',
        crate::text::decimal(a) + seq![mark] + x == crate::text::decimal(b) + seq![mark] + y,
    ensures
        a == b,
        x == y,
{
    let m = crate::text::decimal(a);
    let n = crate::text::decimal(b);
    let left = m + seq![mark] + x;
    let right = n + seq![mark] + y;
    assert(left[m.len() as int] == mark);
    assert(right[n.len() as int] == mark);
    if m.len() < n.len() {
        lemma_only_digits(b, m.len() as int);
        assert(right[m.len() as int] == n[m.len() as int]);
    } else if n.len() < m.len() {
        lemma_only_digits(a, n.len() as int);
        assert(left[n.len() as int] == m[n.len() as int]);
    }
    assert forall|i: int| 0 <= i < m.len() implies m[i] == n[i] by {
        assert(left[i] == m[i] && right[i] == n[i]);
    }
    assert(m =~= n);
    crate::text::lemma_decimal_injective(a, b);
    assert(x =~= left.skip(m.len() as int + 1));
    assert(y =~= right.skip(n.len() as int + 1));
}

/// The four octets of an IP address make it up.
pub proof fn law_octets_make_up_the_address(ip: u32)
    ensures
        octet(ip, 0) * 0x100_0000 + octet(ip, 1) * 0x1_0000 + octet(ip, 2) * 0x100 + octet(ip, 3)
            == ip,
{
    assert((ip / 0x100_0000) as u8 == ip / 0x100_0000);
    assert((ip / 0x1_0000 % 0x100) as u8 == ip / 0x1_0000 % 0x100);
    assert((ip / 0x100 % 0x100) as u8 == ip / 0x100 % 0x100);
    assert((ip % 0x100) as u8 == ip % 0x100);
}

proof fn lemma_parts(
    a: Seq<char>,
    b: Seq<char>,
    c: Seq<char>,
    d: Seq<char>,
    e: Seq<char>,
    dot: Seq<char>,
    colon: Seq<char>,
)
    ensures
        a + dot + b + dot + c + dot + d + colon + e == a + dot + (b + dot + (c + dot + (d + colon
            + e))),
{
    assert(a + dot + b + dot + c + dot + d + colon + e =~= a + dot + (b + dot + (c + dot + (d
        + colon + e))));
}

/// What follows the octet in place `i` in the text of an address.
spec fn text_behind(ip: u32, port: u16, i: int) -> Seq<char>
    decreases 3 - i,
{
    if i >= 3 {
        crate::text::decimal(port as nat)
    } else if i == 2 {
        crate::text::decimal(octet(ip, 3) as nat) + seq![':'] + text_behind(ip, port, 3)
    } else {
        crate::text::decimal(octet(ip, i + 1) as nat) + seq!['.'] + text_behind(ip, port, i + 1)
    }
}

proof fn lemma_text_from_its_start(ip: u32, port: u16)
    ensures
        (SocketAddress::V4 { ip, port }).text() == crate::text::decimal(octet(ip, 0) as nat)
            + seq!['.'] + text_behind(ip, port, 0),
{
    reveal_strlit(".");
    reveal_strlit(":");
    assert("."@ =~= seq!['.']);
    assert(":"@ =~= seq![':']);
    reveal_with_fuel(text_behind, 4);
    lemma_parts(
        crate::text::decimal(octet(ip, 0) as nat),
        crate::text::decimal(octet(ip, 1) as nat),
        crate::text::decimal(octet(ip, 2) as nat),
        crate::text::decimal(octet(ip, 3) as nat),
        crate::text::decimal(port as nat),
        "."@,
        ":"@,
    );
}

proof fn lemma_same_behind(ip: u32, port: u16, other_ip: u32, other_port: u16, i: int)
    requires
        0 <= i < 3,
        text_behind(ip, port, i) == text_behind(other_ip, other_port, i),
    ensures
        octet(ip, i + 1) == octet(other_ip, i + 1),
        text_behind(ip, port, i + 1) == text_behind(other_ip, other_port, i + 1),
{
    lemma_number_in_front(
        octet(ip, i + 1) as nat,
        text_behind(ip, port, i + 1),
        octet(other_ip, i + 1) as nat,
        text_behind(other_ip, other_port, i + 1),
        if i == 2 {
            ':'
        } else {
            '.'
        },
    );
}

/// Different addresses of the fourth version of IP, or different ports, are told apart by their texts.
pub proof fn law_texts_tell_addresses_apart(ip: u32, port: u16, other_ip: u32, other_port: u16)
    requires
        (SocketAddress::V4 { ip, port }).text() == (SocketAddress::V4 {
            ip: other_ip,
            port: other_port,
        }).text(),
    ensures
        ip == other_ip,
        port == other_port,
{
    lemma_text_from_its_start(ip, port);
    lemma_text_from_its_start(other_ip, other_port);
    lemma_number_in_front(
        octet(ip, 0) as nat,
        text_behind(ip, port, 0),
        octet(other_ip, 0) as nat,
        text_behind(other_ip, other_port, 0),
        '.',
    );
    lemma_same_behind(ip, port, other_ip, other_port, 0);
    lemma_same_behind(ip, port, other_ip, other_port, 1);
    lemma_same_behind(ip, port, other_ip, other_port, 2);
    crate::text::lemma_decimal_injective(port as nat, other_port as nat);
    law_octets_make_up_the_address(ip);
    law_octets_make_up_the_address(other_ip);
}

} // verus!
