//! IP addresses and address blocks (network prefixes) as plain integers.
//!
//! An IPv4 address is its 32-bit big-endian value, an IPv6 address its
//! 128-bit value. A block is an address together with a prefix length; the
//! block covers every address that agrees with it on the leading
//! `prefix_len` bits. Containment is computed by the `ipnet` crate.

use vstd::arithmetic::div_mod::lemma_fundamental_div_mod;
use vstd::arithmetic::power2::{lemma_pow2_adds, lemma_pow2_pos, pow2};
use vstd::prelude::*;

verus! {

/// An IP address of either family.
#[derive(Clone, Copy, Debug, PartialEq, Eq, Structural)]
pub enum IpAddress {
    /// An IPv4 address: `a.b.c.d` is `a * 2^24 + b * 2^16 + c * 2^8 + d`.
    V4(u32),
    /// An IPv6 address: the eight 16-bit groups, most significant first.
    V6(u128),
}

/// The 32-bit value of the dotted quad `a.b.c.d`.
pub open spec fn ipv4_bits(a: u8, b: u8, c: u8, d: u8) -> u32 {
    (a * 0x100_0000 + b * 0x1_0000 + c * 0x100 + d) as u32
}

/// The 128-bit value of the address with the given 16-bit groups, most
/// significant first.
pub open spec fn ipv6_bits(
    g0: u16,
    g1: u16,
    g2: u16,
    g3: u16,
    g4: u16,
    g5: u16,
    g6: u16,
    g7: u16,
) -> u128 {
    (g0 * 0x1_0000_0000_0000_0000_0000_0000_0000 + g1 * 0x1_0000_0000_0000_0000_0000_0000 + g2
        * 0x1_0000_0000_0000_0000_0000 + g3 * 0x1_0000_0000_0000_0000 + g4 * 0x1_0000_0000_0000
        + g5 * 0x1_0000_0000 + g6 * 0x1_0000 + g7) as u128
}

/// The 32-bit value of the dotted quad `a.b.c.d`.
pub fn ipv4_from_octets(a: u8, b: u8, c: u8, d: u8) -> (r: u32)
    ensures
        r == ipv4_bits(a, b, c, d),
        r == a * 0x100_0000 + b * 0x1_0000 + c * 0x100 + d,
{
    (a as u32) * 0x100_0000 + (b as u32) * 0x1_0000 + (c as u32) * 0x100 + (d as u32)
}

/// The 128-bit value of the address with the given 16-bit groups, most
/// significant first.
pub fn ipv6_from_groups(
    g0: u16,
    g1: u16,
    g2: u16,
    g3: u16,
    g4: u16,
    g5: u16,
    g6: u16,
    g7: u16,
) -> (r: u128)
    ensures
        r == ipv6_bits(g0, g1, g2, g3, g4, g5, g6, g7),
        r == g0 * 0x1_0000_0000_0000_0000_0000_0000_0000 + g1
            * 0x1_0000_0000_0000_0000_0000_0000 + g2 * 0x1_0000_0000_0000_0000_0000 + g3
            * 0x1_0000_0000_0000_0000 + g4 * 0x1_0000_0000_0000 + g5 * 0x1_0000_0000 + g6
            * 0x1_0000 + g7,
{
    let hi: u128 = (g0 as u128) * 0x1_0000_0000_0000_0000_0000_0000_0000 + (g1 as u128)
        * 0x1_0000_0000_0000_0000_0000_0000 + (g2 as u128) * 0x1_0000_0000_0000_0000_0000 + (
    g3 as u128) * 0x1_0000_0000_0000_0000;
    let lo: u128 = (g4 as u128) * 0x1_0000_0000_0000 + (g5 as u128) * 0x1_0000_0000 + (g6 as u128)
        * 0x1_0000 + (g7 as u128);
    hi + lo
}

impl IpAddress {
    /// Whether this is an IPv4 address.
    pub open spec fn spec_is_ipv4(&self) -> bool {
        self is V4
    }

    /// Whether this is an IPv6 address.
    pub open spec fn spec_is_ipv6(&self) -> bool {
        self is V6
    }

    /// The IPv4 address `a.b.c.d`.
    pub fn v4(a: u8, b: u8, c: u8, d: u8) -> (r: IpAddress)
        ensures
            r == IpAddress::V4(ipv4_bits(a, b, c, d)),
    {
        IpAddress::V4(ipv4_from_octets(a, b, c, d))
    }

    /// The IPv6 address with the given 16-bit groups, most significant first.
    pub fn v6(g0: u16, g1: u16, g2: u16, g3: u16, g4: u16, g5: u16, g6: u16, g7: u16) -> (r:
        IpAddress)
        ensures
            r == IpAddress::V6(ipv6_bits(g0, g1, g2, g3, g4, g5, g6, g7)),
    {
        IpAddress::V6(ipv6_from_groups(g0, g1, g2, g3, g4, g5, g6, g7))
    }

    /// Whether this is an IPv4 address.
    #[verifier::when_used_as_spec(spec_is_ipv4)]
    pub fn is_ipv4(&self) -> (r: bool)
        ensures
            r == self.spec_is_ipv4(),
    {
        match self {
            IpAddress::V4(_) => true,
            IpAddress::V6(_) => false,
        }
    }

    /// Whether this is an IPv6 address.
    #[verifier::when_used_as_spec(spec_is_ipv6)]
    pub fn is_ipv6(&self) -> (r: bool)
        ensures
            r == self.spec_is_ipv6(),
    {
        match self {
            IpAddress::V4(_) => false,
            IpAddress::V6(_) => true,
        }
    }
}

/// The lowest address of the block that `addr` lies in when the last
/// `host_bits` bits are free: `addr` with those bits cleared.
pub open spec fn network_of(addr: int, host_bits: nat) -> int {
    (addr / pow2(host_bits) as int) * pow2(host_bits)
}

/// The highest address of that block: `addr` with the last `host_bits` bits set.
pub open spec fn broadcast_of(addr: int, host_bits: nat) -> int {
    network_of(addr, host_bits) + pow2(host_bits) - 1
}

/// An IPv4 address block: an address and a prefix length of at most 32.
#[derive(Clone, Copy, Debug, PartialEq, Eq)]
pub struct Ipv4Block {
    pub(crate) addr: u32,
    pub(crate) prefix_len: u8,
}

/// An IPv6 address block: an address and a prefix length of at most 128.
#[derive(Clone, Copy, Debug, PartialEq, Eq)]
pub struct Ipv6Block {
    pub(crate) addr: u128,
    pub(crate) prefix_len: u8,
}

impl Ipv4Block {
    /// The prefix length is at most 32.
    #[verifier::type_invariant]
    pub open(crate) spec fn well_formed(self) -> bool {
        self.prefix_len <= 32
    }

    /// The block with the given address and prefix length.
    pub open(crate) spec fn block(addr: u32, prefix_len: u8) -> Ipv4Block {
        Ipv4Block { addr, prefix_len }
    }

    /// The address the block was made with.
    pub open(crate) spec fn spec_addr(self) -> u32 {
        self.addr
    }

    /// The number of leading bits that an address must share with the block.
    pub open(crate) spec fn spec_prefix_len(self) -> u8 {
        self.prefix_len
    }

    /// The number of trailing bits that are free inside the block.
    pub open(crate) spec fn host_bits(self) -> nat {
        (32 - self.prefix_len) as nat
    }

    /// The lowest address of the block.
    pub open(crate) spec fn first(self) -> int {
        network_of(self.addr as int, self.host_bits())
    }

    /// The highest address of the block.
    pub open(crate) spec fn last(self) -> int {
        broadcast_of(self.addr as int, self.host_bits())
    }

    /// Whether `ip` lies in the block.
    pub open(crate) spec fn spec_contains_addr(self, ip: u32) -> bool {
        self.first() <= ip <= self.last()
    }

    /// Whether every address of `other` lies in the block.
    pub open(crate) spec fn spec_contains_block(self, other: Ipv4Block) -> bool {
        self.first() <= other.first() && other.last() <= self.last()
    }

    /// The block of `addr` with the given prefix length, or `None` where the
    /// prefix length is over 32.
    pub fn new(addr: u32, prefix_len: u8) -> (r: Option<Ipv4Block>)
        ensures
            r is Some <==> prefix_len <= 32,
            r is Some ==> r->0 == Ipv4Block::block(addr, prefix_len),
    {
        if prefix_len <= 32 {
            Some(Ipv4Block { addr, prefix_len })
        } else {
            None
        }
    }

    /// The address the block was made with.
    pub fn addr(&self) -> (r: u32)
        ensures
            r == self.spec_addr(),
    {
        self.addr
    }

    /// The prefix length.
    pub fn prefix_len(&self) -> (r: u8)
        ensures
            r == self.spec_prefix_len(),
            r <= 32,
    {
        proof {
            use_type_invariant(self);
        }
        self.prefix_len
    }

    /// Whether `ip` lies in the block.
    pub fn contains_addr(&self, ip: u32) -> (r: bool)
        ensures
            r == self.spec_contains_addr(ip),
    {
        proof {
            use_type_invariant(self);
        }
        v4_net_contains_addr(self.addr, self.prefix_len, ip)
    }

    /// Whether every address of `other` lies in the block.
    pub fn contains_block(&self, other: &Ipv4Block) -> (r: bool)
        ensures
            r == self.spec_contains_block(*other),
    {
        proof {
            use_type_invariant(self);
            use_type_invariant(other);
        }
        v4_net_contains_net(self.addr, self.prefix_len, other.addr, other.prefix_len)
    }
}

impl Ipv6Block {
    /// The prefix length is at most 128.
    #[verifier::type_invariant]
    pub open(crate) spec fn well_formed(self) -> bool {
        self.prefix_len <= 128
    }

    /// The block with the given address and prefix length.
    pub open(crate) spec fn block(addr: u128, prefix_len: u8) -> Ipv6Block {
        Ipv6Block { addr, prefix_len }
    }

    /// The address the block was made with.
    pub open(crate) spec fn spec_addr(self) -> u128 {
        self.addr
    }

    /// The number of leading bits that an address must share with the block.
    pub open(crate) spec fn spec_prefix_len(self) -> u8 {
        self.prefix_len
    }

    /// The number of trailing bits that are free inside the block.
    pub open(crate) spec fn host_bits(self) -> nat {
        (128 - self.prefix_len) as nat
    }

    /// The lowest address of the block.
    pub open(crate) spec fn first(self) -> int {
        network_of(self.addr as int, self.host_bits())
    }

    /// The highest address of the block.
    pub open(crate) spec fn last(self) -> int {
        broadcast_of(self.addr as int, self.host_bits())
    }

    /// Whether `ip` lies in the block.
    pub open(crate) spec fn spec_contains_addr(self, ip: u128) -> bool {
        self.first() <= ip <= self.last()
    }

    /// Whether every address of `other` lies in the block.
    pub open(crate) spec fn spec_contains_block(self, other: Ipv6Block) -> bool {
        self.first() <= other.first() && other.last() <= self.last()
    }

    /// The block of `addr` with the given prefix length, or `None` where the
    /// prefix length is over 128.
    pub fn new(addr: u128, prefix_len: u8) -> (r: Option<Ipv6Block>)
        ensures
            r is Some <==> prefix_len <= 128,
            r is Some ==> r->0 == Ipv6Block::block(addr, prefix_len),
    {
        if prefix_len <= 128 {
            Some(Ipv6Block { addr, prefix_len })
        } else {
            None
        }
    }

    /// The address the block was made with.
    pub fn addr(&self) -> (r: u128)
        ensures
            r == self.spec_addr(),
    {
        self.addr
    }

    /// The prefix length.
    pub fn prefix_len(&self) -> (r: u8)
        ensures
            r == self.spec_prefix_len(),
            r <= 128,
    {
        proof {
            use_type_invariant(self);
        }
        self.prefix_len
    }

    /// Whether `ip` lies in the block.
    pub fn contains_addr(&self, ip: u128) -> (r: bool)
        ensures
            r == self.spec_contains_addr(ip),
    {
        proof {
            use_type_invariant(self);
        }
        v6_net_contains_addr(self.addr, self.prefix_len, ip)
    }

    /// Whether every address of `other` lies in the block.
    pub fn contains_block(&self, other: &Ipv6Block) -> (r: bool)
        ensures
            r == self.spec_contains_block(*other),
    {
        proof {
            use_type_invariant(self);
            use_type_invariant(other);
        }
        v6_net_contains_net(self.addr, self.prefix_len, other.addr, other.prefix_len)
    }
}

/// An address block of either family.
#[derive(Clone, Copy, Debug, PartialEq, Eq)]
pub enum AddressBlock {
    /// A block of IPv4 addresses.
    V4(Ipv4Block),
    /// A block of IPv6 addresses.
    V6(Ipv6Block),
}

impl AddressBlock {
    /// The IPv4 block `a.b.c.d/prefix_len`.
    pub open spec fn spec_v4(a: u8, b: u8, c: u8, d: u8, prefix_len: u8) -> AddressBlock {
        AddressBlock::V4(Ipv4Block::block(ipv4_bits(a, b, c, d), prefix_len))
    }

    /// The IPv6 block of the address with the given groups and prefix length.
    pub open spec fn spec_v6(
        g0: u16,
        g1: u16,
        g2: u16,
        g3: u16,
        g4: u16,
        g5: u16,
        g6: u16,
        g7: u16,
        prefix_len: u8,
    ) -> AddressBlock {
        AddressBlock::V6(Ipv6Block::block(ipv6_bits(g0, g1, g2, g3, g4, g5, g6, g7), prefix_len))
    }

    /// Whether the prefix length fits the family.
    pub open spec fn well_formed(self) -> bool {
        match self {
            AddressBlock::V4(b) => b.well_formed(),
            AddressBlock::V6(b) => b.well_formed(),
        }
    }

    /// Whether `ip` lies in the block. An address of the other family never does.
    pub open spec fn spec_contains_addr(self, ip: IpAddress) -> bool {
        match (self, ip) {
            (AddressBlock::V4(b), IpAddress::V4(a)) => b.spec_contains_addr(a),
            (AddressBlock::V6(b), IpAddress::V6(a)) => b.spec_contains_addr(a),
            _ => false,
        }
    }

    /// Whether every address of `other` lies in the block. A block of the
    /// other family is never contained.
    pub open spec fn spec_contains_block(self, other: AddressBlock) -> bool {
        match (self, other) {
            (AddressBlock::V4(a), AddressBlock::V4(b)) => a.spec_contains_block(b),
            (AddressBlock::V6(a), AddressBlock::V6(b)) => a.spec_contains_block(b),
            _ => false,
        }
    }

    /// The IPv4 block `a.b.c.d/prefix_len`, or `None` where the prefix length
    /// is over 32.
    pub fn v4(a: u8, b: u8, c: u8, d: u8, prefix_len: u8) -> (r: Option<AddressBlock>)
        ensures
            r is Some <==> prefix_len <= 32,
            r is Some ==> r->0 == AddressBlock::spec_v4(a, b, c, d, prefix_len),
    {
        match Ipv4Block::new(ipv4_from_octets(a, b, c, d), prefix_len) {
            Some(block) => Some(AddressBlock::V4(block)),
            None => None,
        }
    }

    /// The IPv6 block of the address with the given groups, or `None` where
    /// the prefix length is over 128.
    pub fn v6(
        g0: u16,
        g1: u16,
        g2: u16,
        g3: u16,
        g4: u16,
        g5: u16,
        g6: u16,
        g7: u16,
        prefix_len: u8,
    ) -> (r: Option<AddressBlock>)
        ensures
            r is Some <==> prefix_len <= 128,
            r is Some ==> r->0 == AddressBlock::spec_v6(g0, g1, g2, g3, g4, g5, g6, g7, prefix_len),
    {
        match Ipv6Block::new(ipv6_from_groups(g0, g1, g2, g3, g4, g5, g6, g7), prefix_len) {
            Some(block) => Some(AddressBlock::V6(block)),
            None => None,
        }
    }

    /// Whether `ip` lies in the block.
    pub fn contains_addr(&self, ip: &IpAddress) -> (r: bool)
        ensures
            r == self.spec_contains_addr(*ip),
            self.well_formed(),
    {
        match (self, ip) {
            (AddressBlock::V4(b), IpAddress::V4(a)) => {
                proof {
                    use_type_invariant(b);
                }
                b.contains_addr(*a)
            },
            (AddressBlock::V6(b), IpAddress::V6(a)) => {
                proof {
                    use_type_invariant(b);
                }
                b.contains_addr(*a)
            },
            (AddressBlock::V4(b), _) => {
                proof {
                    use_type_invariant(b);
                }
                false
            },
            (AddressBlock::V6(b), _) => {
                proof {
                    use_type_invariant(b);
                }
                false
            },
        }
    }

    /// Whether every address of `other` lies in the block.
    pub fn contains_block(&self, other: &AddressBlock) -> (r: bool)
        ensures
            r == self.spec_contains_block(*other),
    {
        match (self, other) {
            (AddressBlock::V4(a), AddressBlock::V4(b)) => a.contains_block(b),
            (AddressBlock::V6(a), AddressBlock::V6(b)) => a.contains_block(b),
            _ => false,
        }
    }
}

/// The extent of a block in plain arithmetic: it starts at the address
/// without what the address holds in its host bits, and holds `2^host_bits`
/// addresses.
pub proof fn lemma_extent(addr: int, host_bits: nat, size: int)
    requires
        pow2(host_bits) == size,
    ensures
        network_of(addr, host_bits) == addr - addr % size,
        broadcast_of(addr, host_bits) == addr - addr % size + size - 1,
{
    lemma_pow2_pos(host_bits);
    lemma_fundamental_div_mod(addr, size);
    assert((addr / size) * size == size * (addr / size)) by (nonlinear_arith);
}

/// Of two aligned ranges that share a point, the one with fewer free bits
/// lies inside the other.
pub proof fn lemma_ranges_nest(a: int, a_bits: nat, b: int, b_bits: nat, ip: int)
    requires
        a_bits <= b_bits,
        network_of(a, a_bits) <= ip <= broadcast_of(a, a_bits),
        network_of(b, b_bits) <= ip <= broadcast_of(b, b_bits),
    ensures
        network_of(b, b_bits) <= network_of(a, a_bits),
        broadcast_of(a, a_bits) <= broadcast_of(b, b_bits),
{
    let sa = pow2(a_bits) as int;
    let k = pow2((b_bits - a_bits) as nat) as int;
    let sb = pow2(b_bits) as int;
    lemma_pow2_pos(a_bits);
    lemma_pow2_pos((b_bits - a_bits) as nat);
    lemma_pow2_adds(a_bits, (b_bits - a_bits) as nat);
    let m = a / sa;
    let q = b / sb;
    assert(q * sb == (q * k) * sa) by (nonlinear_arith)
        requires
            sb == sa * k,
    ;
    assert(q * k <= m) by (nonlinear_arith)
        requires
            (q * k) * sa <= ip,
            ip < m * sa + sa,
            sa > 0,
    ;
    assert((q * k) * sa <= m * sa) by (nonlinear_arith)
        requires
            q * k <= m,
            sa > 0,
    ;
    assert(m + 1 <= q * k + k) by (nonlinear_arith)
        requires
            m * sa <= ip,
            ip < (q * k) * sa + sa * k,
            sa > 0,
    ;
    assert(m * sa + sa <= (q * k) * sa + sa * k) by (nonlinear_arith)
        requires
            m + 1 <= q * k + k,
            sa > 0,
    ;
}

/// Two blocks that hold a common address are nested: one of them contains
/// the other.
pub proof fn lemma_blocks_nest(a: AddressBlock, b: AddressBlock, ip: IpAddress)
    requires
        a.well_formed(),
        b.well_formed(),
        a.spec_contains_addr(ip),
        b.spec_contains_addr(ip),
    ensures
        a.spec_contains_block(b) || b.spec_contains_block(a),
{
    match (a, b, ip) {
        (AddressBlock::V4(x), AddressBlock::V4(y), IpAddress::V4(p)) => {
            if x.host_bits() <= y.host_bits() {
                lemma_ranges_nest(
                    x.addr as int,
                    x.host_bits(),
                    y.addr as int,
                    y.host_bits(),
                    p as int,
                );
            } else {
                lemma_ranges_nest(
                    y.addr as int,
                    y.host_bits(),
                    x.addr as int,
                    x.host_bits(),
                    p as int,
                );
            }
        },
        (AddressBlock::V6(x), AddressBlock::V6(y), IpAddress::V6(p)) => {
            if x.host_bits() <= y.host_bits() {
                lemma_ranges_nest(
                    x.addr as int,
                    x.host_bits(),
                    y.addr as int,
                    y.host_bits(),
                    p as int,
                );
            } else {
                lemma_ranges_nest(
                    y.addr as int,
                    y.host_bits(),
                    x.addr as int,
                    x.host_bits(),
                    p as int,
                );
            }
        },
        _ => {},
    }
}

/// The block that `ipnet` reads a text as, by CIDR notation: an address, a
/// slash and a prefix length. `None` where the text is no such block.
pub uninterp spec fn parsed_net(text: Seq<char>) -> Option<AddressBlock>;

/// The text of an IPv4 block as `ipnet` writes it.
pub uninterp spec fn v4_net_text(addr: u32, prefix_len: u8) -> Seq<char>;

/// The text of an IPv6 block as `ipnet` writes it.
pub uninterp spec fn v6_net_text(addr: u128, prefix_len: u8) -> Seq<char>;

impl AddressBlock {
    /// The text of the block in CIDR notation.
    pub open spec fn text(self) -> Seq<char> {
        match self {
            AddressBlock::V4(b) => v4_net_text(b.spec_addr(), b.spec_prefix_len()),
            AddressBlock::V6(b) => v6_net_text(b.spec_addr(), b.spec_prefix_len()),
        }
    }

    /// Reads a block in CIDR notation, such as `192.0.0.0/24` or `fc00::/7`.
    pub fn parse(text: &str) -> (r: Option<AddressBlock>)
        ensures
            r == parsed_net(text@),
    {
        parse_net(text)
    }

    /// Writes the block in CIDR notation.
    pub fn to_text(&self) -> (r: String)
        ensures
            r@ == self.text(),
    {
        match self {
            AddressBlock::V4(b) => {
                proof {
                    use_type_invariant(b);
                }
                v4_net_to_string(b.addr, b.prefix_len)
            },
            AddressBlock::V6(b) => {
                proof {
                    use_type_invariant(b);
                }
                v6_net_to_string(b.addr, b.prefix_len)
            },
        }
    }
}

/// `ipnet::IpNet::from_str`: the network that the text gives in CIDR
/// notation, with the address as written and a prefix length that fits its
/// family, or `None` where `ipnet` reports that the text is none. The same
/// text always gives the same result.
#[verifier::external_body]
fn parse_net(text: &str) -> (r: Option<AddressBlock>)
    ensures
        r == parsed_net(text@),
{
    match text.parse::<ipnet::IpNet>() {
        Ok(ipnet::IpNet::V4(net)) => Some(
            AddressBlock::V4(Ipv4Block { addr: net.addr().into(), prefix_len: net.prefix_len() }),
        ),
        Ok(ipnet::IpNet::V6(net)) => Some(
            AddressBlock::V6(Ipv6Block { addr: net.addr().into(), prefix_len: net.prefix_len() }),
        ),
        Err(_) => None,
    }
}

/// `ipnet::Ipv4Net`'s `Display`: the text of the block, which depends on
/// its address and prefix length alone.
#[verifier::external_body]
fn v4_net_to_string(addr: u32, prefix_len: u8) -> (r: String)
    requires
        prefix_len <= 32,
    ensures
        r@ == v4_net_text(addr, prefix_len),
{
    ipnet::Ipv4Net::new_assert(addr.into(), prefix_len).to_string()
}

/// `ipnet::Ipv6Net`'s `Display`: the text of the block, which depends on
/// its address and prefix length alone.
#[verifier::external_body]
fn v6_net_to_string(addr: u128, prefix_len: u8) -> (r: String)
    requires
        prefix_len <= 128,
    ensures
        r@ == v6_net_text(addr, prefix_len),
{
    ipnet::Ipv6Net::new_assert(addr.into(), prefix_len).to_string()
}

/// `ipnet::Ipv4Net::contains` with an address: true exactly when `ip` lies
/// between the network address of the block (its address with the host bits
/// cleared) and its broadcast address (the host bits set), both included.
#[verifier::external_body]
fn v4_net_contains_addr(addr: u32, prefix_len: u8, ip: u32) -> (r: bool)
    requires
        prefix_len <= 32,
    ensures
        r == (network_of(addr as int, (32 - prefix_len) as nat) <= ip <= broadcast_of(
            addr as int,
            (32 - prefix_len) as nat,
        )),
{
    let net = ipnet::Ipv4Net::new_assert(addr.into(), prefix_len);
    let point = ipnet::Ipv4Net::new_assert(ip.into(), prefix_len);
    net.contains(&point.addr())
}

/// `ipnet::Ipv4Net::contains` with a block: true exactly when the network
/// address of `b` is not below that of `a` and the broadcast address of `b`
/// is not above that of `a`.
#[verifier::external_body]
fn v4_net_contains_net(a: u32, a_len: u8, b: u32, b_len: u8) -> (r: bool)
    requires
        a_len <= 32,
        b_len <= 32,
    ensures
        r == (network_of(a as int, (32 - a_len) as nat) <= network_of(
            b as int,
            (32 - b_len) as nat,
        ) && broadcast_of(b as int, (32 - b_len) as nat) <= broadcast_of(
            a as int,
            (32 - a_len) as nat,
        )),
{
    let outer = ipnet::Ipv4Net::new_assert(a.into(), a_len);
    let inner = ipnet::Ipv4Net::new_assert(b.into(), b_len);
    outer.contains(&inner)
}

/// `ipnet::Ipv6Net::contains` with an address: true exactly when `ip` lies
/// between the network address of the block and its last address, both
/// included.
#[verifier::external_body]
fn v6_net_contains_addr(addr: u128, prefix_len: u8, ip: u128) -> (r: bool)
    requires
        prefix_len <= 128,
    ensures
        r == (network_of(addr as int, (128 - prefix_len) as nat) <= ip <= broadcast_of(
            addr as int,
            (128 - prefix_len) as nat,
        )),
{
    let net = ipnet::Ipv6Net::new_assert(addr.into(), prefix_len);
    let point = ipnet::Ipv6Net::new_assert(ip.into(), prefix_len);
    net.contains(&point.addr())
}

/// `ipnet::Ipv6Net::contains` with a block: true exactly when the network
/// address of `b` is not below that of `a` and the last address of `b` is
/// not above that of `a`.
#[verifier::external_body]
fn v6_net_contains_net(a: u128, a_len: u8, b: u128, b_len: u8) -> (r: bool)
    requires
        a_len <= 128,
        b_len <= 128,
    ensures
        r == (network_of(a as int, (128 - a_len) as nat) <= network_of(
            b as int,
            (128 - b_len) as nat,
        ) && broadcast_of(b as int, (128 - b_len) as nat) <= broadcast_of(
            a as int,
            (128 - a_len) as nat,
        )),
{
    let outer = ipnet::Ipv6Net::new_assert(a.into(), a_len);
    let inner = ipnet::Ipv6Net::new_assert(b.into(), b_len);
    outer.contains(&inner)
}

} // verus!
