//! The header of the proxy protocol and its bytes.
use vstd::prelude::*;

use crate::address::SocketAddress;

verus! {

/// What the sender of the header asks for.
#[derive(Debug, Clone, Copy, PartialEq, Eq, Structural)]
pub enum Command {
    /// the proxy connects on its own behalf
    Local,
    /// the proxy stands for a client
    Proxy,
}

/// The addresses of a header.
#[allow(inconsistent_fields)]
#[derive(Debug)]
pub enum ProxyAddr {
    IPv4Addr { src_ip: u32, src_port: u16, dst_ip: u32, dst_port: u16 },
    IPv6Addr { src_ip: u128, src_port: u16, dst_ip: u128, dst_port: u16 },
    /// the two paths, each padded to its full length
    UnixAddr { src: Vec<u8>, dst: Vec<u8> },
    AfUnspec,
}

/// What a [`ProxyAddr`] holds.
#[allow(inconsistent_fields)]
#[verifier::ext_equal]
pub enum ProxyAddrModel {
    IPv4Addr { src_ip: u32, src_port: u16, dst_ip: u32, dst_port: u16 },
    IPv6Addr { src_ip: u128, src_port: u16, dst_ip: u128, dst_port: u16 },
    UnixAddr { src: Seq<u8>, dst: Seq<u8> },
    AfUnspec,
}

impl View for ProxyAddr {
    type V = ProxyAddrModel;

    open spec fn view(&self) -> ProxyAddrModel {
        match self {
            ProxyAddr::IPv4Addr { src_ip, src_port, dst_ip, dst_port } =>
            ProxyAddrModel::IPv4Addr {
                src_ip: *src_ip,
                src_port: *src_port,
                dst_ip: *dst_ip,
                dst_port: *dst_port,
            },
            ProxyAddr::IPv6Addr { src_ip, src_port, dst_ip, dst_port } =>
            ProxyAddrModel::IPv6Addr {
                src_ip: *src_ip,
                src_port: *src_port,
                dst_ip: *dst_ip,
                dst_port: *dst_port,
            },
            ProxyAddr::UnixAddr { src, dst } => ProxyAddrModel::UnixAddr { src: src@, dst: dst@ },
            ProxyAddr::AfUnspec => ProxyAddrModel::AfUnspec,
        }
    }
}

/// The length of the path of a Unix socket in a header.
pub const UNIX_PATH: usize = 108;

/// A header.
#[derive(Debug)]
pub struct HeaderV2 {
    pub command: Command,
    /// the family of the addresses in the upper half, the transport in the lower half
    pub family: u8,
    pub addr: ProxyAddr,
}

/// What a [`HeaderV2`] holds.
#[verifier::ext_equal]
pub struct HeaderV2Model {
    pub command: Command,
    pub family: u8,
    pub addr: ProxyAddrModel,
}

impl View for HeaderV2 {
    type V = HeaderV2Model;

    open spec fn view(&self) -> HeaderV2Model {
        HeaderV2Model { command: self.command, family: self.family, addr: self.addr@ }
    }
}

/// What every header starts with.
pub open spec fn signature() -> Seq<u8> {
    seq![0x0Du8, 0x0A, 0x0D, 0x0A, 0x00, 0x0D, 0x0A, 0x51, 0x55, 0x49, 0x54, 0x0A]
}

/// `n` in `k` bytes, the highest one first.
pub open spec fn big_endian(n: nat, k: nat) -> Seq<u8>
    decreases k,
{
    if k == 0 {
        Seq::empty()
    } else {
        big_endian(n / 256, (k - 1) as nat).push((n % 256) as u8)
    }
}

/// The number that these bytes stand for, the highest one first.
pub open spec fn number(bytes: Seq<u8>) -> nat
    decreases bytes.len(),
{
    if bytes.len() == 0 {
        0
    } else {
        number(bytes.drop_last()) * 256 + bytes.last() as nat
    }
}

impl Command {
    /// The byte of the command, behind the version of the protocol.
    pub open spec fn byte(self) -> u8 {
        match self {
            Command::Local => 0x20,
            Command::Proxy => 0x21,
        }
    }
}

impl ProxyAddrModel {
    /// The paths of Unix sockets have their full length.
    pub open spec fn wf(self) -> bool {
        self matches ProxyAddrModel::UnixAddr { src, dst } ==> src.len() == UNIX_PATH && dst.len()
            == UNIX_PATH
    }

    /// The family of the addresses, with a stream as transport.
    pub open spec fn family(self) -> u8 {
        match self {
            ProxyAddrModel::IPv4Addr { .. } => 0x11,
            ProxyAddrModel::IPv6Addr { .. } => 0x21,
            ProxyAddrModel::UnixAddr { .. } => 0x31,
            ProxyAddrModel::AfUnspec => 0x00,
        }
    }

    pub open spec fn bytes(self) -> Seq<u8> {
        match self {
            ProxyAddrModel::IPv4Addr { src_ip, src_port, dst_ip, dst_port } => big_endian(
                src_ip as nat,
                4,
            ) + big_endian(dst_ip as nat, 4) + big_endian(src_port as nat, 2) + big_endian(
                dst_port as nat,
                2,
            ),
            ProxyAddrModel::IPv6Addr { src_ip, src_port, dst_ip, dst_port } => big_endian(
                src_ip as nat,
                16,
            ) + big_endian(dst_ip as nat, 16) + big_endian(src_port as nat, 2) + big_endian(
                dst_port as nat,
                2,
            ),
            ProxyAddrModel::UnixAddr { src, dst } => src + dst,
            ProxyAddrModel::AfUnspec => Seq::empty(),
        }
    }

    /// The addresses of a connection. Where only one of them is of the fourth version of IP, it is
    /// written as one of the sixth.
    pub open spec fn of(src: SocketAddress, dst: SocketAddress) -> ProxyAddrModel {
        match (src, dst) {
            (
                SocketAddress::V4 { ip: src_ip, port: src_port },
                SocketAddress::V4 { ip: dst_ip, port: dst_port },
            ) => ProxyAddrModel::IPv4Addr { src_ip, src_port, dst_ip, dst_port },
            _ => ProxyAddrModel::IPv6Addr {
                src_ip: mapped(src),
                src_port: port_of(src),
                dst_ip: mapped(dst),
                dst_port: port_of(dst),
            },
        }
    }
}

/// The IP address in the sixth version of IP.
pub open spec fn mapped(address: SocketAddress) -> u128 {
    match address {
        SocketAddress::V4 { ip, .. } => (0xFFFF_0000_0000 + ip) as u128,
        SocketAddress::V6 { ip, .. } => ip,
    }
}

pub open spec fn port_of(address: SocketAddress) -> u16 {
    match address {
        SocketAddress::V4 { port, .. } => port,
        SocketAddress::V6 { port, .. } => port,
    }
}

impl HeaderV2Model {
    /// The header for a connection.
    pub open spec fn of(command: Command, src: SocketAddress, dst: SocketAddress) -> HeaderV2Model {
        let addr = ProxyAddrModel::of(src, dst);
        HeaderV2Model { command, family: addr.family(), addr }
    }

    /// The signature, the command, the family, the length of the addresses and the addresses.
    pub open spec fn bytes(self) -> Seq<u8> {
        signature() + seq![self.command.byte(), self.family] + big_endian(
            self.addr.bytes().len(),
            2,
        ) + self.addr.bytes()
    }
}

pub proof fn lemma_big_endian_len(n: nat, k: nat)
    ensures
        big_endian(n, k).len() == k,
    decreases k,
{
    if k > 0 {
        lemma_big_endian_len(n / 256, (k - 1) as nat);
    }
}

/// How many numbers fit into `k` bytes.
pub open spec fn byte_limit(k: nat) -> nat
    decreases k,
{
    if k == 0 {
        1
    } else {
        256 * byte_limit((k - 1) as nat)
    }
}

/// A number that fits is read back from its bytes.
pub proof fn lemma_number_of_big_endian(n: nat, k: nat)
    requires
        n < byte_limit(k),
    ensures
        number(big_endian(n, k)) == n,
    decreases k,
{
    if k > 0 {
        let m = (k - 1) as nat;
        lemma_number_of_big_endian(n / 256, m);
        assert(big_endian(n, k).drop_last() =~= big_endian(n / 256, m));
        assert((n % 256) as u8 as nat == n % 256);
    }
}

/// Appends the two bytes of a number.
fn push_u16(bytes: &mut Vec<u8>, n: u16)
    ensures
        final(bytes)@ == old(bytes)@ + big_endian(n as nat, 2),
{
    let ghost before = bytes@;
    bytes.push((n / 256) as u8);
    bytes.push((n % 256) as u8);
    proof {
        reveal_with_fuel(big_endian, 3);
        assert(bytes@ =~= before + big_endian(n as nat, 2));
    }
}

/// Two numbers one behind the other.
pub(crate) proof fn lemma_big_endian_splits(high: nat, low: nat, j: nat, k: nat)
    requires
        low < byte_limit(k),
    ensures
        big_endian(high * byte_limit(k) + low, j + k) == big_endian(high, j) + big_endian(low, k),
    decreases k,
{
    if k == 0 {
        assert(big_endian(high, j) + big_endian(low, 0) =~= big_endian(high, j));
    } else {
        let m = (k - 1) as nat;
        let limit = byte_limit(m);
        let n = high * byte_limit(k) + low;
        assert(high * (256 * limit) == 256 * (high * limit)) by (nonlinear_arith);
        assert(n / 256 == high * limit + low / 256);
        assert(n % 256 == low % 256);
        lemma_big_endian_splits(high, low / 256, j, m);
        assert(big_endian(n, j + k) == big_endian(n / 256, (j + m) as nat).push((n % 256) as u8));
        assert(big_endian(high, j) + big_endian(low, k) =~= (big_endian(high, j) + big_endian(
            low / 256,
            m,
        )).push((low % 256) as u8));
    }
}

/// Appends the four bytes of a number.
fn push_u32(bytes: &mut Vec<u8>, n: u32)
    ensures
        final(bytes)@ == old(bytes)@ + big_endian(n as nat, 4),
{
    let ghost before = bytes@;
    push_u16(bytes, (n / 0x1_0000) as u16);
    push_u16(bytes, (n % 0x1_0000) as u16);
    proof {
        assert(byte_limit(2) == 0x1_0000) by {
            reveal_with_fuel(byte_limit, 3);
        }
        lemma_big_endian_splits((n / 0x1_0000) as nat, (n % 0x1_0000) as nat, 2, 2);
        assert(bytes@ =~= before + big_endian(n as nat, 4));
    }
}

/// Appends the eight bytes of a number.
fn push_u64(bytes: &mut Vec<u8>, n: u64)
    ensures
        final(bytes)@ == old(bytes)@ + big_endian(n as nat, 8),
{
    let ghost before = bytes@;
    push_u32(bytes, (n / 0x1_0000_0000) as u32);
    push_u32(bytes, (n % 0x1_0000_0000) as u32);
    proof {
        assert(byte_limit(4) == 0x1_0000_0000) by {
            reveal_with_fuel(byte_limit, 5);
        }
        lemma_big_endian_splits((n / 0x1_0000_0000) as nat, (n % 0x1_0000_0000) as nat, 4, 4);
        assert(bytes@ =~= before + big_endian(n as nat, 8));
    }
}

/// Appends the sixteen bytes of a number.
fn push_u128(bytes: &mut Vec<u8>, n: u128)
    ensures
        final(bytes)@ == old(bytes)@ + big_endian(n as nat, 16),
{
    let ghost before = bytes@;
    push_u64(bytes, (n / 0x1_0000_0000_0000_0000) as u64);
    push_u64(bytes, (n % 0x1_0000_0000_0000_0000) as u64);
    proof {
        assert(byte_limit(8) == 0x1_0000_0000_0000_0000) by {
            reveal_with_fuel(byte_limit, 9);
        }
        lemma_big_endian_splits(
            (n / 0x1_0000_0000_0000_0000) as nat,
            (n % 0x1_0000_0000_0000_0000) as nat,
            8,
            8,
        );
        assert(bytes@ =~= before + big_endian(n as nat, 16));
    }
}

impl Command {
    fn to_byte(&self) -> (r: u8)
        ensures
            r == self.byte(),
    {
        match self {
            Command::Local => 0x20,
            Command::Proxy => 0x21,
        }
    }
}

fn mapped_ip(address: SocketAddress) -> (r: (u128, u16))
    ensures
        r.0 == mapped(address),
        r.1 == port_of(address),
{
    match address {
        SocketAddress::V4 { ip, port } => (0xFFFF_0000_0000 + ip as u128, port),
        SocketAddress::V6 { ip, port, .. } => (ip, port),
    }
}

impl ProxyAddr {
    /// The addresses of a connection.
    pub fn from(src: SocketAddress, dst: SocketAddress) -> (r: ProxyAddr)
        ensures
            r@ == ProxyAddrModel::of(src, dst),
            r@.wf(),
    {
        match (src, dst) {
            (
                SocketAddress::V4 { ip: src_ip, port: src_port },
                SocketAddress::V4 { ip: dst_ip, port: dst_port },
            ) => ProxyAddr::IPv4Addr { src_ip, src_port, dst_ip, dst_port },
            _ => {
                let (src_ip, src_port) = mapped_ip(src);
                let (dst_ip, dst_port) = mapped_ip(dst);
                ProxyAddr::IPv6Addr { src_ip, src_port, dst_ip, dst_port }
            },
        }
    }

    fn to_family(&self) -> (r: u8)
        ensures
            r == self@.family(),
    {
        match self {
            ProxyAddr::IPv4Addr { .. } => 0x11,
            ProxyAddr::IPv6Addr { .. } => 0x21,
            ProxyAddr::UnixAddr { .. } => 0x31,
            ProxyAddr::AfUnspec => 0x00,
        }
    }

    /// The bytes of the addresses.
    pub fn to_bytes(&self) -> (r: Vec<u8>)
        ensures
            r@ == self@.bytes(),
    {
        let mut bytes: Vec<u8> = Vec::new();
        match self {
            ProxyAddr::IPv4Addr { src_ip, src_port, dst_ip, dst_port } => {
                push_u32(&mut bytes, *src_ip);
                push_u32(&mut bytes, *dst_ip);
                push_u16(&mut bytes, *src_port);
                push_u16(&mut bytes, *dst_port);
            },
            ProxyAddr::IPv6Addr { src_ip, src_port, dst_ip, dst_port } => {
                push_u128(&mut bytes, *src_ip);
                push_u128(&mut bytes, *dst_ip);
                push_u16(&mut bytes, *src_port);
                push_u16(&mut bytes, *dst_port);
            },
            ProxyAddr::UnixAddr { src, dst } => {
                let mut src_bytes = src.clone();
                let mut dst_bytes = dst.clone();
                bytes.append(&mut src_bytes);
                bytes.append(&mut dst_bytes);
            },
            ProxyAddr::AfUnspec => {},
        }
        proof {
            assert(bytes@ =~= self@.bytes());
        }
        bytes
    }
}

impl HeaderV2 {
    /// The header for a connection from `addr_src` to `addr_dst`.
    pub fn new(command: Command, addr_src: SocketAddress, addr_dst: SocketAddress) -> (r: HeaderV2)
        ensures
            r@ == HeaderV2Model::of(command, addr_src, addr_dst),
            r@.addr.wf(),
    {
        let addr = ProxyAddr::from(addr_src, addr_dst);
        let family = addr.to_family();
        HeaderV2 { command, family, addr }
    }

    /// The bytes of the header.
    pub fn into_bytes(&self) -> (r: Vec<u8>)
        requires
            self@.addr.wf(),
        ensures
            r@ == self@.bytes(),
    {
        let mut addr = self.addr.to_bytes();
        proof {
            lemma_address_len(self@.addr);
        }
        let mut bytes: Vec<u8> = Vec::new();
        bytes.push(0x0D);
        bytes.push(0x0A);
        bytes.push(0x0D);
        bytes.push(0x0A);
        bytes.push(0x00);
        bytes.push(0x0D);
        bytes.push(0x0A);
        bytes.push(0x51);
        bytes.push(0x55);
        bytes.push(0x49);
        bytes.push(0x54);
        bytes.push(0x0A);
        bytes.push(self.command.to_byte());
        bytes.push(self.family);
        proof {
            assert(bytes@ =~= signature() + seq![self.command.byte(), self.family]);
        }
        push_u16(&mut bytes, addr.len() as u16);
        bytes.append(&mut addr);
        proof {
            assert(bytes@ =~= self@.bytes());
        }
        bytes
    }
}

/// The length of the addresses depends on their family alone.
pub proof fn lemma_address_len(addr: ProxyAddrModel)
    requires
        addr.wf(),
    ensures
        addr.bytes().len() == match addr {
            ProxyAddrModel::IPv4Addr { .. } => 12nat,
            ProxyAddrModel::IPv6Addr { .. } => 36nat,
            ProxyAddrModel::UnixAddr { .. } => 216nat,
            ProxyAddrModel::AfUnspec => 0nat,
        },
{
    match addr {
        ProxyAddrModel::IPv4Addr { src_ip, src_port, dst_ip, dst_port } => {
            lemma_big_endian_len(src_ip as nat, 4);
            lemma_big_endian_len(dst_ip as nat, 4);
            lemma_big_endian_len(src_port as nat, 2);
            lemma_big_endian_len(dst_port as nat, 2);
        },
        ProxyAddrModel::IPv6Addr { src_ip, src_port, dst_ip, dst_port } => {
            lemma_big_endian_len(src_ip as nat, 16);
            lemma_big_endian_len(dst_ip as nat, 16);
            lemma_big_endian_len(src_port as nat, 2);
            lemma_big_endian_len(dst_port as nat, 2);
        },
        ProxyAddrModel::UnixAddr { .. } => {},
        ProxyAddrModel::AfUnspec => {},
    }
}

} // verus!
