//! Reads the header of the proxy protocol.
use vstd::prelude::*;

use super::header::{
    Command, HeaderV2, HeaderV2Model, ProxyAddr, ProxyAddrModel, UNIX_PATH,
};

verus! {

/// What was found at the start of some bytes.
#[derive(Debug)]
pub enum Parsed {
    /// a header may still come of them
    Incomplete,
    /// no header can come of them
    Refused,
    /// a header, and how many bytes it takes
    Header(HeaderV2, usize),
}

/// What a [`Parsed`] holds.
#[verifier::ext_equal]
pub enum ParsedModel {
    Incomplete,
    Refused,
    Header(HeaderV2Model, nat),
}

impl View for Parsed {
    type V = ParsedModel;

    open spec fn view(&self) -> ParsedModel {
        match self {
            Parsed::Incomplete => ParsedModel::Incomplete,
            Parsed::Refused => ParsedModel::Refused,
            Parsed::Header(header, n) => ParsedModel::Header(header@, *n as nat),
        }
    }
}

/// The bytes from `from` up to `to` as a number.
pub open spec fn number_in(bytes: Seq<u8>, from: int, to: int) -> nat {
    super::header::number(bytes.subrange(from, to))
}

/// The addresses of a family. Bytes behind them are left aside.
pub open spec fn address(family: u8, data: Seq<u8>) -> Option<ProxyAddrModel> {
    let kind = family / 16;
    if kind == 0 {
        Some(ProxyAddrModel::AfUnspec)
    } else if kind == 1 && data.len() >= 12 {
        Some(
            ProxyAddrModel::IPv4Addr {
                src_ip: number_in(data, 0, 4) as u32,
                dst_ip: number_in(data, 4, 8) as u32,
                src_port: number_in(data, 8, 10) as u16,
                dst_port: number_in(data, 10, 12) as u16,
            },
        )
    } else if kind == 2 && data.len() >= 36 {
        Some(
            ProxyAddrModel::IPv6Addr {
                src_ip: number_in(data, 0, 16) as u128,
                dst_ip: number_in(data, 16, 32) as u128,
                src_port: number_in(data, 32, 34) as u16,
                dst_port: number_in(data, 34, 36) as u16,
            },
        )
    } else if kind == 3 && data.len() >= 2 * UNIX_PATH {
        Some(
            ProxyAddrModel::UnixAddr {
                src: data.subrange(0, UNIX_PATH as int),
                dst: data.subrange(UNIX_PATH as int, 2 * UNIX_PATH as int),
            },
        )
    } else {
        None
    }
}

/// The bytes do not contradict the signature.
pub open spec fn fits_signature(bytes: Seq<u8>) -> bool {
    forall|i: int|
        0 <= i < bytes.len() && i < 12 ==> bytes[i] == #[trigger] super::header::signature()[i]
}

/// The header at the start of `bytes`.
pub open spec fn parsed(bytes: Seq<u8>) -> ParsedModel {
    let len = number_in(bytes, 14, 16);
    if !fits_signature(bytes) {
        ParsedModel::Refused
    } else if bytes.len() < 13 {
        ParsedModel::Incomplete
    } else if bytes[12] != 0x20 && bytes[12] != 0x21 {
        ParsedModel::Refused
    } else if bytes.len() < 16 || bytes.len() < 16 + len {
        ParsedModel::Incomplete
    } else {
        match address(bytes[13], bytes.subrange(16, 16 + len as int)) {
            None => ParsedModel::Refused,
            Some(addr) => ParsedModel::Header(
                HeaderV2Model {
                    command: if bytes[12] == 0x20 {
                        Command::Local
                    } else {
                        Command::Proxy
                    },
                    family: bytes[13],
                    addr,
                },
                16 + len,
            ),
        }
    }
}

/// The number in two bytes.
fn read_u16(bytes: &Vec<u8>, from: usize) -> (r: u16)
    requires
        from + 2 <= bytes.len(),
    ensures
        r == number_in(bytes@, from as int, from + 2),
{
    let r: u16 = bytes[from] as u16 * 256 + bytes[from + 1] as u16;
    proof {
        lemma_two_bytes(bytes@.subrange(from as int, from + 2));
    }
    r
}

pub(crate) proof fn lemma_two_bytes(bytes: Seq<u8>)
    requires
        bytes.len() == 2,
    ensures
        super::header::number(bytes) == bytes[0] * 256 + bytes[1],
{
    reveal_with_fuel(super::header::number, 3);
}

/// The number of some bytes is the number of their first half times the limit of the second half,
/// plus the number of the second half.
proof fn lemma_number_splits(a: Seq<u8>, b: Seq<u8>)
    ensures
        super::header::number(a + b) == super::header::number(a) * super::header::byte_limit(
            b.len(),
        ) + super::header::number(b),
    decreases b.len(),
{
    if b.len() == 0 {
        assert(a + b =~= a);
        let x = super::header::number(a);
        assert(x * super::header::byte_limit(0) == x) by (nonlinear_arith)
            requires
                super::header::byte_limit(0) == 1,
        ;
    } else {
        let c = b.drop_last();
        lemma_number_splits(a, c);
        assert((a + b).drop_last() =~= a + c);
        let x = super::header::number(a);
        let limit = super::header::byte_limit(c.len());
        let y = super::header::number(c);
        assert((x * limit + y) * 256 == x * (256 * limit) + y * 256) by (nonlinear_arith);
    }
}

/// The number in four bytes.
fn read_u32(bytes: &Vec<u8>, from: usize) -> (r: u32)
    requires
        from + 4 <= bytes.len(),
    ensures
        r == number_in(bytes@, from as int, from + 4),
{
    let high = read_u16(bytes, from);
    let low = read_u16(bytes, from + 2);
    proof {
        let a = bytes@.subrange(from as int, from + 2);
        let b = bytes@.subrange(from + 2, from + 4);
        lemma_number_splits(a, b);
        assert(a + b =~= bytes@.subrange(from as int, from + 4));
        reveal_with_fuel(super::header::byte_limit, 3);
    }
    high as u32 * 0x1_0000 + low as u32
}

/// The number in eight bytes.
fn read_u64(bytes: &Vec<u8>, from: usize) -> (r: u64)
    requires
        from + 8 <= bytes.len(),
    ensures
        r == number_in(bytes@, from as int, from + 8),
{
    let high = read_u32(bytes, from);
    let low = read_u32(bytes, from + 4);
    proof {
        let a = bytes@.subrange(from as int, from + 4);
        let b = bytes@.subrange(from + 4, from + 8);
        lemma_number_splits(a, b);
        assert(a + b =~= bytes@.subrange(from as int, from + 8));
        reveal_with_fuel(super::header::byte_limit, 5);
    }
    high as u64 * 0x1_0000_0000 + low as u64
}

/// The number in sixteen bytes.
fn read_u128(bytes: &Vec<u8>, from: usize) -> (r: u128)
    requires
        from + 16 <= bytes.len(),
    ensures
        r == number_in(bytes@, from as int, from + 16),
{
    let high = read_u64(bytes, from);
    let low = read_u64(bytes, from + 8);
    proof {
        let a = bytes@.subrange(from as int, from + 8);
        let b = bytes@.subrange(from + 8, from + 16);
        lemma_number_splits(a, b);
        assert(a + b =~= bytes@.subrange(from as int, from + 16));
        reveal_with_fuel(super::header::byte_limit, 9);
    }
    high as u128 * 0x1_0000_0000_0000_0000 + low as u128
}

/// A copy of the bytes from `from` up to `to`.
fn copy_bytes(bytes: &Vec<u8>, from: usize, to: usize) -> (r: Vec<u8>)
    requires
        from <= to <= bytes.len(),
    ensures
        r@ == bytes@.subrange(from as int, to as int),
{
    let mut r: Vec<u8> = Vec::new();
    let mut i: usize = from;
    while i < to
        invariant
            from <= i <= to <= bytes.len(),
            r@ == bytes@.subrange(from as int, i as int),
        decreases to - i,
    {
        r.push(bytes[i]);
        i = i + 1;
        proof {
            assert(r@ =~= bytes@.subrange(from as int, i as int));
        }
    }
    r
}

/// The addresses of a family, in the `len` bytes from the end of the fixed part on.
fn parse_addr_v2(family: u8, bytes: &Vec<u8>, len: usize) -> (r: Option<ProxyAddr>)
    requires
        16 + len <= bytes.len(),
    ensures
        match (r, address(family, bytes@.subrange(16, 16 + len))) {
            (Some(addr), Some(model)) => addr@ == model,
            (None, None) => true,
            _ => false,
        },
{
    let ghost data = bytes@.subrange(16, 16 + len);
    let kind = family / 16;
    if kind == 0 {
        Some(ProxyAddr::AfUnspec)
    } else if kind == 1 && len >= 12 {
        proof {
            assert(data.subrange(0, 4) =~= bytes@.subrange(16, 20));
            assert(data.subrange(4, 8) =~= bytes@.subrange(20, 24));
            assert(data.subrange(8, 10) =~= bytes@.subrange(24, 26));
            assert(data.subrange(10, 12) =~= bytes@.subrange(26, 28));
        }
        Some(
            ProxyAddr::IPv4Addr {
                src_ip: read_u32(bytes, 16),
                dst_ip: read_u32(bytes, 20),
                src_port: read_u16(bytes, 24),
                dst_port: read_u16(bytes, 26),
            },
        )
    } else if kind == 2 && len >= 36 {
        proof {
            assert(data.subrange(0, 16) =~= bytes@.subrange(16, 32));
            assert(data.subrange(16, 32) =~= bytes@.subrange(32, 48));
            assert(data.subrange(32, 34) =~= bytes@.subrange(48, 50));
            assert(data.subrange(34, 36) =~= bytes@.subrange(50, 52));
        }
        Some(
            ProxyAddr::IPv6Addr {
                src_ip: read_u128(bytes, 16),
                dst_ip: read_u128(bytes, 32),
                src_port: read_u16(bytes, 48),
                dst_port: read_u16(bytes, 50),
            },
        )
    } else if kind == 3 && len >= 2 * UNIX_PATH {
        proof {
            assert(data.subrange(0, UNIX_PATH as int) =~= bytes@.subrange(16, 16 + UNIX_PATH));
            assert(data.subrange(UNIX_PATH as int, 2 * UNIX_PATH as int) =~= bytes@.subrange(
                16 + UNIX_PATH,
                16 + 2 * UNIX_PATH,
            ));
        }
        Some(
            ProxyAddr::UnixAddr {
                src: copy_bytes(bytes, 16, 16 + UNIX_PATH),
                dst: copy_bytes(bytes, 16 + UNIX_PATH, 16 + 2 * UNIX_PATH),
            },
        )
    } else {
        None
    }
}

/// A byte of the signature.
fn signature_byte(i: usize) -> (r: u8)
    requires
        i < 12,
    ensures
        r == super::header::signature()[i as int],
{
    match i {
        0 => 0x0D,
        1 => 0x0A,
        2 => 0x0D,
        3 => 0x0A,
        4 => 0x00,
        5 => 0x0D,
        6 => 0x0A,
        7 => 0x51,
        8 => 0x55,
        9 => 0x49,
        10 => 0x54,
        _ => 0x0A,
    }
}

/// Looks for a header at the start of `bytes`.
pub fn parse_v2_header(bytes: &Vec<u8>) -> (r: Parsed)
    ensures
        r@ == parsed(bytes@),
{
    let mut i: usize = 0;
    while i < bytes.len() && i < 12
        invariant
            i <= bytes.len(),
            i <= 12,
            forall|k: int| 0 <= k < i ==> bytes@[k] == #[trigger] super::header::signature()[k],
        decreases 12 - i,
    {
        if bytes[i] != signature_byte(i) {
            return Parsed::Refused;
        }
        i = i + 1;
    }
    if bytes.len() < 13 {
        return Parsed::Incomplete;
    }
    let command = match bytes[12] {
        0x20 => Command::Local,
        0x21 => Command::Proxy,
        _ => {
            return Parsed::Refused;
        },
    };
    if bytes.len() < 16 {
        return Parsed::Incomplete;
    }
    let family = bytes[13];
    let len = read_u16(bytes, 14) as usize;
    if bytes.len() - 16 < len {
        return Parsed::Incomplete;
    }
    match parse_addr_v2(family, bytes, len) {
        None => Parsed::Refused,
        Some(addr) => Parsed::Header(HeaderV2 { command, family, addr }, 16 + len),
    }
}

/// The addresses are read back from their bytes; of the family only the upper half counts.
proof fn lemma_address_of_bytes(family: u8, addr: ProxyAddrModel)
    requires
        addr.wf(),
        family / 16 == addr.family() / 16,
    ensures
        address(family, addr.bytes()) == Some(addr),
{
    super::header::lemma_address_len(addr);
    let data = addr.bytes();
    match addr {
        ProxyAddrModel::IPv4Addr { src_ip, src_port, dst_ip, dst_port } => {
            let (a, b) = (
                super::header::big_endian(src_ip as nat, 4),
                super::header::big_endian(dst_ip as nat, 4),
            );
            let (c, d) = (
                super::header::big_endian(src_port as nat, 2),
                super::header::big_endian(dst_port as nat, 2),
            );
            super::header::lemma_big_endian_len(src_ip as nat, 4);
            super::header::lemma_big_endian_len(dst_ip as nat, 4);
            super::header::lemma_big_endian_len(src_port as nat, 2);
            super::header::lemma_big_endian_len(dst_port as nat, 2);
            assert(data.subrange(0, 4) =~= a);
            assert(data.subrange(4, 8) =~= b);
            assert(data.subrange(8, 10) =~= c);
            assert(data.subrange(10, 12) =~= d);
            reveal_with_fuel(super::header::byte_limit, 5);
            super::header::lemma_number_of_big_endian(src_ip as nat, 4);
            super::header::lemma_number_of_big_endian(dst_ip as nat, 4);
            super::header::lemma_number_of_big_endian(src_port as nat, 2);
            super::header::lemma_number_of_big_endian(dst_port as nat, 2);
        },
        ProxyAddrModel::IPv6Addr { src_ip, src_port, dst_ip, dst_port } => {
            let (a, b) = (
                super::header::big_endian(src_ip as nat, 16),
                super::header::big_endian(dst_ip as nat, 16),
            );
            let (c, d) = (
                super::header::big_endian(src_port as nat, 2),
                super::header::big_endian(dst_port as nat, 2),
            );
            super::header::lemma_big_endian_len(src_ip as nat, 16);
            super::header::lemma_big_endian_len(dst_ip as nat, 16);
            super::header::lemma_big_endian_len(src_port as nat, 2);
            super::header::lemma_big_endian_len(dst_port as nat, 2);
            assert(data.subrange(0, 16) =~= a);
            assert(data.subrange(16, 32) =~= b);
            assert(data.subrange(32, 34) =~= c);
            assert(data.subrange(34, 36) =~= d);
            reveal_with_fuel(super::header::byte_limit, 17);
            super::header::lemma_number_of_big_endian(src_ip as nat, 16);
            super::header::lemma_number_of_big_endian(dst_ip as nat, 16);
            super::header::lemma_number_of_big_endian(src_port as nat, 2);
            super::header::lemma_number_of_big_endian(dst_port as nat, 2);
        },
        ProxyAddrModel::UnixAddr { src, dst } => {
            assert(data.subrange(0, UNIX_PATH as int) =~= src);
            assert(data.subrange(UNIX_PATH as int, 2 * UNIX_PATH as int) =~= dst);
        },
        ProxyAddrModel::AfUnspec => {},
    }
}

/// A header whose family fits its addresses, whatever transport the family names, is read back from
/// its bytes, whatever stands behind them, and takes exactly these bytes.
pub proof fn law_header_is_read_back(header: HeaderV2Model, rest: Seq<u8>)
    requires
        header.addr.wf(),
        header.family / 16 == header.addr.family() / 16,
    ensures
        parsed(header.bytes() + rest) == ParsedModel::Header(header, header.bytes().len()),
{
    lemma_fixed_part(header);
    let bytes = header.bytes();
    let all = bytes + rest;
    let len = header.addr.bytes().len();
    assert(all.subrange(14, 16) =~= bytes.subrange(14, 16));
    assert(all.subrange(16, 16 + len as int) =~= header.addr.bytes());
    assert(fits_signature(all)) by {
        assert forall|i: int| 0 <= i < all.len() && i < 12 implies all[i]
            == #[trigger] super::header::signature()[i] by {
            assert(all[i] == bytes[i]);
        }
    }
    assert(all[12] == bytes[12] && all[13] == bytes[13]);
    lemma_address_of_bytes(header.family, header.addr);
}

/// Where the fields of a header stand in its bytes.
pub(crate) proof fn lemma_fixed_part(header: HeaderV2Model)
    requires
        header.addr.wf(),
    ensures
        header.bytes().len() == 16 + header.addr.bytes().len(),
        header.bytes()[12] == header.command.byte(),
        header.bytes()[13] == header.family,
        number_in(header.bytes(), 14, 16) == header.addr.bytes().len(),
        header.bytes().subrange(16, header.bytes().len() as int) == header.addr.bytes(),
        forall|i: int|
            0 <= i < 12 ==> header.bytes()[i] == #[trigger] super::header::signature()[i],
{
    super::header::lemma_address_len(header.addr);
    let len = header.addr.bytes().len();
    let size = super::header::big_endian(len, 2);
    super::header::lemma_big_endian_len(len, 2);
    reveal_with_fuel(super::header::byte_limit, 3);
    super::header::lemma_number_of_big_endian(len, 2);
    let bytes = header.bytes();
    assert(bytes.subrange(14, 16) =~= size);
    assert(bytes.subrange(16, bytes.len() as int) =~= header.addr.bytes());
}

/// No header is seen before all of its bytes are there.
pub proof fn law_header_needs_all_of_its_bytes(header: HeaderV2Model, n: int)
    requires
        header.addr.wf(),
        0 <= n < header.bytes().len(),
    ensures
        parsed(header.bytes().take(n)) == ParsedModel::Incomplete,
{
    lemma_fixed_part(header);
    let bytes = header.bytes();
    let part = bytes.take(n);
    assert(fits_signature(part)) by {
        assert forall|i: int| 0 <= i < part.len() && i < 12 implies part[i]
            == #[trigger] super::header::signature()[i] by {
            assert(part[i] == bytes[i]);
        }
    }
    if n >= 16 {
        assert(part.subrange(14, 16) =~= bytes.subrange(14, 16));
    }
}

} // verus!
