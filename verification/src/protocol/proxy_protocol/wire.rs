//! Where everything stands in the bytes of a header, and what becomes of bytes that are none.
use vstd::prelude::*;

use crate::address::SocketAddress;
use crate::buffer::BufferModel;
use crate::protocol::pipe::ConnectionStatus;
use crate::ready::{Ready, Token};
use crate::session::{ProtocolResult, SessionMetrics, SocketResult};

use super::expect::{ExpectModel, ExpectReport, ExpectStep, ExpectTurn};
use super::header::{Command, HeaderV2Model};
use super::parser::ParsedModel;

verus! {

/// The bytes that every header starts with.
pub open spec fn starts_well(bytes: Seq<u8>) -> bool {
    &&& bytes.len() > 0 ==> bytes[0] == 13
    &&& bytes.len() > 1 ==> bytes[1] == 10
    &&& bytes.len() > 2 ==> bytes[2] == 13
    &&& bytes.len() > 3 ==> bytes[3] == 10
    &&& bytes.len() > 4 ==> bytes[4] == 0
    &&& bytes.len() > 5 ==> bytes[5] == 13
    &&& bytes.len() > 6 ==> bytes[6] == 10
    &&& bytes.len() > 7 ==> bytes[7] == 81
    &&& bytes.len() > 8 ==> bytes[8] == 85
    &&& bytes.len() > 9 ==> bytes[9] == 73
    &&& bytes.len() > 10 ==> bytes[10] == 84
    &&& bytes.len() > 11 ==> bytes[11] == 10
}

/// Two bytes from place `i` on, the higher one first.
pub open spec fn two_at(bytes: Seq<u8>, i: int) -> int {
    bytes[i] * 256 + bytes[i + 1]
}

/// Four bytes from place `i` on, the highest one first.
pub open spec fn four_at(bytes: Seq<u8>, i: int) -> int {
    two_at(bytes, i) * 65536 + two_at(bytes, i + 2)
}

/// Sixteen bytes from place `i` on, the highest one first.
pub open spec fn sixteen_at(bytes: Seq<u8>, i: int) -> int {
    ((four_at(bytes, i) * 0x1_0000_0000 + four_at(bytes, i + 4)) * 0x1_0000_0000 + four_at(
        bytes,
        i + 8,
    )) * 0x1_0000_0000 + four_at(bytes, i + 12)
}

proof fn lemma_two_big_endian(n: nat)
    requires
        n < 0x1_0000,
    ensures
        super::header::big_endian(n, 2).len() == 2,
        two_at(super::header::big_endian(n, 2), 0) == n,
{
    reveal_with_fuel(super::header::big_endian, 3);
    assert((n % 256) as u8 == n % 256);
    assert(((n / 256) % 256) as u8 == n / 256);
}

proof fn lemma_four_big_endian(n: nat)
    requires
        n < 0x1_0000_0000,
    ensures
        super::header::big_endian(n, 4).len() == 4,
        four_at(super::header::big_endian(n, 4), 0) == n,
{
    let b = super::header::big_endian(n, 4);
    super::header::lemma_big_endian_len(n, 4);
    assert(super::header::byte_limit(2) == 0x1_0000) by {
        reveal_with_fuel(super::header::byte_limit, 3);
    }
    super::header::lemma_big_endian_splits(n / 0x1_0000, n % 0x1_0000, 2, 2);
    assert((n / 0x1_0000) * 0x1_0000 + n % 0x1_0000 == n);
    lemma_two_big_endian(n / 0x1_0000);
    lemma_two_big_endian(n % 0x1_0000);
    let high = super::header::big_endian(n / 0x1_0000, 2);
    let low = super::header::big_endian(n % 0x1_0000, 2);
    assert(b == high + low);
    assert(two_at(b, 0) == two_at(high, 0));
    assert(two_at(b, 2) == two_at(low, 0));
}

proof fn lemma_sixteen_big_endian(n: nat)
    requires
        n < 0x1_0000_0000_0000_0000_0000_0000_0000_0000,
    ensures
        super::header::big_endian(n, 16).len() == 16,
        sixteen_at(super::header::big_endian(n, 16), 0) == n,
{
    let limit: nat = 0x1_0000_0000;
    assert(super::header::byte_limit(4) == limit) by {
        reveal_with_fuel(super::header::byte_limit, 5);
    }
    super::header::lemma_big_endian_len(n, 16);
    let b = super::header::big_endian(n, 16);
    let n3 = n / limit;
    let n2 = n3 / limit;
    let n1 = n2 / limit;
    super::header::lemma_big_endian_splits(n3, n % limit, 12, 4);
    super::header::lemma_big_endian_splits(n2, n3 % limit, 8, 4);
    super::header::lemma_big_endian_splits(n1, n2 % limit, 4, 4);
    lemma_four_big_endian(n1);
    lemma_four_big_endian(n2 % limit);
    lemma_four_big_endian(n3 % limit);
    lemma_four_big_endian(n % limit);
    let a1 = super::header::big_endian(n1, 4);
    let a2 = super::header::big_endian(n2 % limit, 4);
    let a3 = super::header::big_endian(n3 % limit, 4);
    let a4 = super::header::big_endian(n % limit, 4);
    assert(b =~= a1 + a2 + a3 + a4);
    assert(four_at(b, 0) == four_at(a1, 0));
    assert(four_at(b, 4) == four_at(a2, 0));
    assert(four_at(b, 8) == four_at(a3, 0));
    assert(four_at(b, 12) == four_at(a4, 0));
}

/// A header says who speaks to whom: behind the signature stand the command, the family and the length
/// of the addresses, and then the addresses and the ports, first those of the client. An address of
/// the fourth version of IP is mapped to one of the sixth where the other one is of the sixth.
pub proof fn law_where_a_header_says_what(command: Command, src: SocketAddress, dst: SocketAddress)
    ensures
        ({
            let bytes = HeaderV2Model::of(command, src, dst).bytes();
            &&& starts_well(bytes)
            &&& bytes[12] == (if command == Command::Local {
                32
            } else {
                33int
            })
            &&& match (src, dst) {
                (
                    SocketAddress::V4 { ip: src_ip, port: src_port },
                    SocketAddress::V4 { ip: dst_ip, port: dst_port },
                ) => {
                    &&& bytes.len() == 28
                    &&& bytes[13] == 17
                    &&& two_at(bytes, 14) == 12
                    &&& four_at(bytes, 16) == src_ip
                    &&& four_at(bytes, 20) == dst_ip
                    &&& two_at(bytes, 24) == src_port
                    &&& two_at(bytes, 26) == dst_port
                },
                _ => {
                    &&& bytes.len() == 52
                    &&& bytes[13] == 33
                    &&& two_at(bytes, 14) == 36
                    &&& sixteen_at(bytes, 16) == (match src {
                        SocketAddress::V4 { ip, .. } => 0xFFFF_0000_0000 + ip,
                        SocketAddress::V6 { ip, .. } => ip as int,
                    })
                    &&& sixteen_at(bytes, 32) == (match dst {
                        SocketAddress::V4 { ip, .. } => 0xFFFF_0000_0000 + ip,
                        SocketAddress::V6 { ip, .. } => ip as int,
                    })
                    &&& two_at(bytes, 48) == (match src {
                        SocketAddress::V4 { port, .. } => port,
                        SocketAddress::V6 { port, .. } => port,
                    })
                    &&& two_at(bytes, 50) == (match dst {
                        SocketAddress::V4 { port, .. } => port,
                        SocketAddress::V6 { port, .. } => port,
                    })
                },
            }
        }),
{
    let header = HeaderV2Model::of(command, src, dst);
    let bytes = header.bytes();
    super::parser::lemma_fixed_part(header);
    super::parser::lemma_two_bytes(bytes.subrange(14, 16));
    assert(starts_well(bytes)) by {
        let s = super::header::signature();
        assert(bytes[0] == s[0] && bytes[1] == s[1] && bytes[2] == s[2] && bytes[3] == s[3]);
        assert(bytes[4] == s[4] && bytes[5] == s[5] && bytes[6] == s[6] && bytes[7] == s[7]);
        assert(bytes[8] == s[8] && bytes[9] == s[9] && bytes[10] == s[10] && bytes[11] == s[11]);
    }
    let addr = header.addr.bytes();
    assert(addr =~= bytes.subrange(16, bytes.len() as int));
    match (src, dst) {
        (
            SocketAddress::V4 { ip: src_ip, port: src_port },
            SocketAddress::V4 { ip: dst_ip, port: dst_port },
        ) => {
            lemma_four_big_endian(src_ip as nat);
            lemma_four_big_endian(dst_ip as nat);
            lemma_two_big_endian(src_port as nat);
            lemma_two_big_endian(dst_port as nat);
            let a = super::header::big_endian(src_ip as nat, 4);
            let b = super::header::big_endian(dst_ip as nat, 4);
            let c = super::header::big_endian(src_port as nat, 2);
            let d = super::header::big_endian(dst_port as nat, 2);
            assert(addr == a + b + c + d);
            assert(bytes.len() == 28);
            assert(four_at(bytes, 16) == four_at(addr, 0) == four_at(a, 0));
            assert(four_at(bytes, 20) == four_at(addr, 4) == four_at(b, 0));
            assert(two_at(bytes, 24) == two_at(addr, 8) == two_at(c, 0));
            assert(two_at(bytes, 26) == two_at(addr, 10) == two_at(d, 0));
        },
        _ => {
            let src_ip = super::header::mapped(src);
            let dst_ip = super::header::mapped(dst);
            let src_port = super::header::port_of(src);
            let dst_port = super::header::port_of(dst);
            lemma_sixteen_big_endian(src_ip as nat);
            lemma_sixteen_big_endian(dst_ip as nat);
            lemma_two_big_endian(src_port as nat);
            lemma_two_big_endian(dst_port as nat);
            let a = super::header::big_endian(src_ip as nat, 16);
            let b = super::header::big_endian(dst_ip as nat, 16);
            let c = super::header::big_endian(src_port as nat, 2);
            let d = super::header::big_endian(dst_port as nat, 2);
            assert(addr == a + b + c + d);
            assert(bytes.len() == 52);
            assert(sixteen_at(bytes, 16) == sixteen_at(addr, 0) == sixteen_at(a, 0));
            assert(sixteen_at(bytes, 32) == sixteen_at(addr, 16) == sixteen_at(b, 0));
            assert(two_at(bytes, 48) == two_at(addr, 32) == two_at(c, 0));
            assert(two_at(bytes, 50) == two_at(addr, 34) == two_at(d, 0));
        },
    }
}

/// All bytes are there that the header says it has.
pub open spec fn is_complete(bytes: Seq<u8>) -> bool {
    bytes.len() >= 16 && bytes.len() >= 16 + two_at(bytes, 14)
}

/// The addresses of the family that the header names do not fit into the length that it names, or it
/// names no family.
pub open spec fn has_no_addresses(bytes: Seq<u8>) -> bool {
    let len = two_at(bytes, 14);
    let kind = bytes[13] / 16;
    ||| kind == 1 && len < 12
    ||| kind == 2 && len < 36
    ||| kind == 3 && len < 216
    ||| kind > 3
}

/// Bytes are refused exactly where no header can come of them, and a header is seen in all others
/// exactly once they are complete.
pub proof fn law_which_bytes_are_refused(bytes: Seq<u8>)
    ensures
        ({
            let wrong = !starts_well(bytes) || (bytes.len() > 12 && bytes[12] != 32 && bytes[12]
                != 33);
            let parsed = super::parser::parsed(bytes);
            &&& parsed is Refused <==> wrong || (is_complete(bytes) && has_no_addresses(bytes))
            &&& parsed is Incomplete <==> !wrong && !is_complete(bytes)
            &&& parsed matches ParsedModel::Header(header, n) ==> {
                &&& n == 16 + two_at(bytes, 14)
                &&& header.command == (if bytes[12] == 32 {
                    Command::Local
                } else {
                    Command::Proxy
                })
                &&& header.family == bytes[13]
                &&& header.addr is AfUnspec <==> bytes[13] / 16 == 0
                &&& header.addr is IPv4Addr <==> bytes[13] / 16 == 1
                &&& header.addr is IPv6Addr <==> bytes[13] / 16 == 2
                &&& header.addr is UnixAddr <==> bytes[13] / 16 == 3
            }
        }),
{
    let s = super::header::signature();
    if super::parser::fits_signature(bytes) {
        assert(s[0] == 13 && s[1] == 10 && s[2] == 13 && s[3] == 10 && s[4] == 0 && s[5] == 13);
        assert(s[6] == 10 && s[7] == 81 && s[8] == 85 && s[9] == 73 && s[10] == 84 && s[11] == 10);
        assert(starts_well(bytes));
    }
    if starts_well(bytes) {
        assert forall|i: int| 0 <= i < bytes.len() && i < 12 implies bytes[i]
            == #[trigger] super::header::signature()[i] by {}
    }
    if bytes.len() >= 16 {
        super::parser::lemma_two_bytes(bytes.subrange(14, 16));
    }
}

/// Bytes of which no header can come, and a socket that fails, end the session with an error; so does
/// a header that is longer than any that can be taken, which lets the session do no more work.
/// Otherwise the session goes on, or is handed over with the addresses of the header. Every byte
/// counts as received from the client.
pub proof fn law_what_is_no_header_ends_the_session(
    state: ExpectModel,
    metrics: SessionMetrics,
    bytes: Seq<u8>,
    res: SocketResult,
)
    requires
        state.wf(),
        bytes.len() <= state.room(),
        metrics.bin + bytes.len() <= usize::MAX,
    ensures
        ({
            let (after, counted, report) = state.after_read(metrics, bytes, res);
            let all = state.received + bytes;
            let parsed = super::parser::parsed(all);
            let failed = res == SocketResult::Error || parsed is Refused;
            &&& counted.bin == metrics.bin + bytes.len()
            &&& counted.bout == metrics.bout
            &&& after.received == all
            &&& report.result == ProtocolResult::Close <==> failed
            &&& report.result == ProtocolResult::Upgrade <==> !failed && parsed is Header
            &&& report.error <==> failed || (parsed is Incomplete && all.len() == 232)
            &&& report.error ==> {
                &&& counted.service_stopped
                &&& after.frontend_readiness.interest == Ready::none()
                &&& after.frontend_readiness.event == Ready::none()
            }
            &&& !report.error ==> counted.service_stopped == metrics.service_stopped
            &&& report.result == ProtocolResult::Upgrade ==> (parsed matches ParsedModel::Header(
                header,
                _,
            ) && after.addresses == Some(header.addr))
            &&& report.result != ProtocolResult::Upgrade ==> after.addresses == state.addresses
            &&& !report.error ==> {
                &&& after.frontend_readiness.event.readable == (
                state.frontend_readiness.event.readable && bytes.len() > 0 && res
                    != SocketResult::WouldBlock)
                &&& after.frontend_readiness.event.hup == state.frontend_readiness.event.hup
                &&& after.frontend_readiness.event.writable
                    == state.frontend_readiness.event.writable
                &&& after.frontend_readiness.event.error == state.frontend_readiness.event.error
                &&& all.len() < 232 ==> after.frontend_readiness.interest
                    == state.frontend_readiness.interest
            }
            &&& after.frontend_token == state.frontend_token
            &&& after.request_id == state.request_id
        }),
{
}

/// The pipe that takes over serves the same client, wants to hear of everything, and forgets nothing
/// of what the event loop told.
pub proof fn law_pipe_takes_over(
    state: ExpectModel,
    front_buf: BufferModel,
    back_buf: BufferModel,
    backend: bool,
    backend_token: Option<Token>,
    peer: Option<SocketAddress>,
)
    ensures
        ({
            let pipe = state.as_pipe(front_buf, back_buf, backend, backend_token, peer);
            &&& pipe.frontend_token == state.frontend_token
            &&& pipe.request_id == state.request_id
            &&& pipe.frontend_readiness.event == state.frontend_readiness.event
            &&& pipe.frontend_readiness.interest == (Ready {
                readable: true,
                writable: true,
                error: true,
                hup: true,
            })
            &&& pipe.backend_readiness.interest == (Ready {
                readable: true,
                writable: true,
                error: true,
                hup: true,
            })
            &&& pipe.frontend_buffer == front_buf
            &&& pipe.backend_buffer == back_buf
            &&& pipe.backend_token == backend_token
            &&& pipe.session_address == peer
            &&& pipe.frontend_status == ConnectionStatus::Normal
            &&& pipe.backend_status == ConnectionStatus::Normal <==> backend
        }),
{
}

/// A turn closes the session where the client has hung up, where the bytes are no header or the socket
/// fails, or where the rounds ran out, and in no other case while nothing but bytes is heard of. It
/// hands the session over once the header is there, asks for more while there may be more, and leaves
/// the session alone otherwise, for good where a header is too long.
pub proof fn law_how_turns_of_waiting_end(
    state: ExpectModel,
    turn: ExpectTurn,
    metrics: SessionMetrics,
    bytes: Seq<u8>,
    res: SocketResult,
)
    requires
        state.wf(),
        bytes.len() <= state.room(),
        metrics.bin + bytes.len() <= usize::MAX,
        turn.counter < 100000,
        turn.pending == (Ready { readable: true, ..Ready::none() }),
        state.frontend_readiness.interest == (Ready { readable: true, ..Ready::none() }),
    ensures
        ({
            let (_, begun, step) = state.started();
            let event = state.frontend_readiness.event;
            &&& event.hup ==> step == ExpectStep::Finished(
                ExpectReport { result: ProtocolResult::Close, error: false },
            )
            &&& !event.hup && event.readable ==> step is Read && begun.counter == 0
            &&& !event.hup && !event.readable ==> step == ExpectStep::Finished(
                ExpectReport { result: ProtocolResult::Continue, error: false },
            )
        }),
        ({
            let (after, next, counted, step) = state.answered(turn, metrics, bytes, res);
            let all = state.received + bytes;
            let parsed = super::parser::parsed(all);
            let failed = res == SocketResult::Error || parsed is Refused;
            let still_readable = state.frontend_readiness.event.readable && bytes.len() > 0 && res
                != SocketResult::WouldBlock;
            &&& counted.bin == metrics.bin + bytes.len()
            &&& failed ==> step == ExpectStep::Finished(
                ExpectReport { result: ProtocolResult::Close, error: true },
            )
            &&& !failed && parsed is Header ==> step == ExpectStep::Finished(
                ExpectReport { result: ProtocolResult::Upgrade, error: false },
            )
            &&& !failed && parsed is Incomplete && all.len() == 232 && turn.counter + 1 < 100000
                ==> step == ExpectStep::Finished(
                ExpectReport { result: ProtocolResult::Continue, error: true },
            )
            &&& !failed && parsed is Incomplete && all.len() < 232 && turn.counter + 1 < 100000 ==> {
                &&& still_readable ==> step is Read && next.counter == turn.counter + 1
                &&& !still_readable ==> step == ExpectStep::Finished(
                    ExpectReport { result: ProtocolResult::Continue, error: false },
                )
                &&& after.frontend_readiness.interest == state.frontend_readiness.interest
            }
        }),
{
}

} // verus!
