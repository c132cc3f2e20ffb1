//! The special-purpose address registries of RFC 6890 and the two routing
//! questions asked of them: is an address forwardable, is it global.
//!
//! The registry maintains the following about each entry:
//!
//! - Address Block: a block of IPv4 or IPv6 addresses that has been
//!   registered for a special purpose.
//! - Name: a descriptive name for the block.
//! - RFC: the RFC through which the block was requested.
//! - Allocation Date and Termination Date.
//! - Source / Destination: whether an address of the block is valid as the
//!   source / destination of a datagram that transits two devices.
//! - Forwardable: whether a router may forward a datagram whose destination
//!   is drawn from the block between external interfaces.
//! - Global: whether such a datagram is forwardable beyond a specified
//!   administrative domain.
//! - Reserved-by-Protocol: whether the block is reserved by IP itself.
//!
//! Blocks of the registry overlap (`192.0.0.0/29` lies inside
//! `192.0.0.0/24`), so a query is answered by the most specific entry that
//! holds the address, wherever it stands in the table.

use crate::address::{
    ipv4_bits, ipv4_from_octets, ipv6_from_groups, lemma_blocks_nest, lemma_extent, AddressBlock,
    IpAddress, Ipv4Block, Ipv6Block,
};
use vstd::arithmetic::power2::lemma2_to64;
use vstd::prelude::*;

verus! {

/// The answer to both routing questions for an address that no entry of the
/// table holds: such an address is ordinary public space, forwardable and
/// global.
pub const UNMATCHED_DEFAULT: bool = true;

/// One entry of the RFC 6890 registries.
#[derive(Clone, Debug, PartialEq, Eq)]
pub struct Rfc6890Entry {
    /// The address block.
    pub address_block: AddressBlock,
    /// Name from the RFC.
    pub name: String,
    /// The RFC through which the block was requested.
    pub rfc: String,
    /// Allocation date.
    pub allocation_date: String,
    /// Termination date, if any.
    pub termination_date: String,
    /// Valid as a source address.
    pub source: bool,
    /// Valid as a destination address.
    pub destination: bool,
    /// May be forwarded between external interfaces.
    pub forwardable: bool,
    /// May be forwarded beyond an administrative domain.
    pub global: bool,
    /// Reserved by IP itself.
    pub reserved_by_protocol: bool,
}

/// The mathematical value of an [`Rfc6890Entry`]: its texts as sequences of
/// characters.
pub struct Rfc6890EntryView {
    pub address_block: AddressBlock,
    pub name: Seq<char>,
    pub rfc: Seq<char>,
    pub allocation_date: Seq<char>,
    pub termination_date: Seq<char>,
    pub source: bool,
    pub destination: bool,
    pub forwardable: bool,
    pub global: bool,
    pub reserved_by_protocol: bool,
}

impl View for Rfc6890Entry {
    type V = Rfc6890EntryView;

    open spec fn view(&self) -> Rfc6890EntryView {
        Rfc6890EntryView {
            address_block: self.address_block,
            name: self.name@,
            rfc: self.rfc@,
            allocation_date: self.allocation_date@,
            termination_date: self.termination_date@,
            source: self.source,
            destination: self.destination,
            forwardable: self.forwardable,
            global: self.global,
            reserved_by_protocol: self.reserved_by_protocol,
        }
    }
}

/// An entry of some registry; RFC 6890 is the only registry there is.
#[derive(Clone, Debug, PartialEq, Eq)]
pub enum RfcEntry {
    /// An entry of the RFC 6890 registries.
    Rfc6890(Rfc6890Entry),
}

/// Checks addresses against all the RFC 6890 entries and answers by the one
/// that matches most specifically.
#[derive(Clone, Debug, PartialEq, Eq)]
pub struct WithRfc6890 {
    /// All of the available entries.
    pub entries: Vec<Rfc6890Entry>,
}

/// The table under the name of the RFC whose registries it holds.
pub type Rfc6890 = WithRfc6890;

impl View for WithRfc6890 {
    type V = Seq<Rfc6890EntryView>;

    open spec fn view(&self) -> Seq<Rfc6890EntryView> {
        Seq::new(self.entries@.len(), |i: int| self.entries@[i]@)
    }
}

/// The entry with the given fields.
pub open spec fn entry_view(
    address_block: AddressBlock,
    name: Seq<char>,
    rfc: Seq<char>,
    allocation_date: Seq<char>,
    termination_date: Seq<char>,
    source: bool,
    destination: bool,
    forwardable: bool,
    global: bool,
    reserved_by_protocol: bool,
) -> Rfc6890EntryView {
    Rfc6890EntryView {
        address_block,
        name,
        rfc,
        allocation_date,
        termination_date,
        source,
        destination,
        forwardable,
        global,
        reserved_by_protocol,
    }
}

/// The IPv4 and IPv6 special-purpose address registries of RFC 6890.
pub open spec fn rfc6890_entries() -> Seq<Rfc6890EntryView> {
    seq![
        entry_view(
            AddressBlock::spec_v4(0, 0, 0, 0, 8),
            "\"This host on this network"@,
            "[RFC1122], Section 3.2.1.3"@,
            "September 1981"@,
            "N/A"@,
            true,
            false,
            false,
            false,
            true,
        ),
        entry_view(
            AddressBlock::spec_v4(10, 0, 0, 0, 8),
            "Private-Use"@,
            "[RFC1918]"@,
            "February 1996"@,
            "N/A"@,
            true,
            true,
            true,
            false,
            false,
        ),
        entry_view(
            AddressBlock::spec_v4(100, 64, 0, 0, 10),
            "Shared Address Space"@,
            "[RFC6598]"@,
            "April 2012"@,
            "N/A"@,
            true,
            true,
            true,
            false,
            false,
        ),
        entry_view(
            AddressBlock::spec_v4(127, 0, 0, 0, 8),
            "Loopback"@,
            "[RFC1122], Section 3.2.1.3"@,
            "September 1981"@,
            "N/A"@,
            false,
            false,
            false,
            false,
            true,
        ),
        entry_view(
            AddressBlock::spec_v4(169, 254, 0, 0, 16),
            "Link Local"@,
            "[RFC3927]"@,
            "May 2005"@,
            "N/A"@,
            true,
            true,
            false,
            false,
            true,
        ),
        entry_view(
            AddressBlock::spec_v4(172, 16, 0, 0, 12),
            "Private-Use"@,
            "[RFC1918]"@,
            "February 1996"@,
            "N/A"@,
            true,
            true,
            true,
            false,
            false,
        ),
        entry_view(
            AddressBlock::spec_v4(192, 0, 0, 0, 24),
            "IETF Protocol Assignments"@,
            "Section 2.1 of this document"@,
            "January 2010"@,
            "N/A"@,
            false,
            false,
            false,
            false,
            false,
        ),
        entry_view(
            AddressBlock::spec_v4(192, 0, 0, 0, 29),
            "DS-Lite"@,
            "[RFC6333]"@,
            "June 2011"@,
            "N/A"@,
            true,
            true,
            true,
            false,
            false,
        ),
        entry_view(
            AddressBlock::spec_v4(192, 0, 2, 0, 24),
            "Documentation (TEST-NET-1)"@,
            "[RFC5737]"@,
            "January 2010"@,
            "N/A"@,
            false,
            false,
            false,
            false,
            false,
        ),
        entry_view(
            AddressBlock::spec_v4(192, 88, 99, 0, 24),
            "6to4 Relay Anycast"@,
            "[RFC3068]"@,
            "June 2001"@,
            "N/A"@,
            true,
            true,
            true,
            true,
            false,
        ),
        entry_view(
            AddressBlock::spec_v4(192, 168, 0, 0, 16),
            "Private-Use"@,
            "[RFC1918]"@,
            "February 1996"@,
            "N/A"@,
            true,
            true,
            true,
            false,
            false,
        ),
        entry_view(
            AddressBlock::spec_v4(198, 18, 0, 0, 15),
            "Benchmarking"@,
            "[RFC2544]"@,
            "March 1999"@,
            "N/A"@,
            true,
            true,
            true,
            false,
            false,
        ),
        entry_view(
            AddressBlock::spec_v4(198, 51, 100, 0, 24),
            "Documentation (TEST-NET-2)"@,
            "[RFC5737]"@,
            "January 2010"@,
            "N/A"@,
            false,
            false,
            false,
            false,
            false,
        ),
        entry_view(
            AddressBlock::spec_v4(203, 0, 113, 0, 24),
            "Documentation (TEST-NET-3)"@,
            "[RFC5737]"@,
            "January 2010"@,
            "N/A"@,
            false,
            false,
            false,
            false,
            false,
        ),
        entry_view(
            AddressBlock::spec_v4(240, 0, 0, 0, 4),
            "Reserved"@,
            "[RFC1112], Section 4"@,
            "August 1989"@,
            "N/A"@,
            false,
            false,
            false,
            false,
            true,
        ),
        entry_view(
            AddressBlock::spec_v4(255, 255, 255, 255, 32),
            "Limited Broadcast"@,
            "[RFC0919], Section 7"@,
            "October 1984"@,
            "N/A"@,
            false,
            true,
            false,
            false,
            false,
        ),
        entry_view(
            AddressBlock::spec_v6(0, 0, 0, 0, 0, 0, 0, 0x1, 128),
            "Loopback Address"@,
            "[RFC4291]"@,
            "February 2006"@,
            "N/A"@,
            false,
            false,
            false,
            false,
            true,
        ),
        entry_view(
            AddressBlock::spec_v6(0, 0, 0, 0, 0, 0, 0, 0, 128),
            "Unspecified Address"@,
            "[RFC4291]"@,
            "February 2006"@,
            "N/A"@,
            true,
            false,
            false,
            false,
            true,
        ),
        entry_view(
            AddressBlock::spec_v6(0x64, 0xff9b, 0, 0, 0, 0, 0, 0, 96),
            "IPv4-IPv6 Translat."@,
            "[RFC6052]"@,
            "October 2010"@,
            "N/A"@,
            true,
            true,
            true,
            true,
            false,
        ),
        entry_view(
            AddressBlock::spec_v6(0, 0, 0, 0, 0, 0xffff, 0, 0, 96),
            "IPv4-mapped Address"@,
            "[RFC4291]"@,
            "February 2006"@,
            "N/A"@,
            false,
            false,
            false,
            false,
            true,
        ),
        entry_view(
            AddressBlock::spec_v6(0x100, 0, 0, 0, 0, 0, 0, 0, 64),
            "Discard-Only Address Block"@,
            "[RFC6666]"@,
            "June 2012"@,
            "N/A"@,
            true,
            true,
            true,
            false,
            false,
        ),
        entry_view(
            AddressBlock::spec_v6(0x2001, 0, 0, 0, 0, 0, 0, 0, 23),
            "IETF Protocol Assignments"@,
            "[RFC2928]"@,
            "September 2000"@,
            "N/A"@,
            false,
            false,
            false,
            false,
            false,
        ),
        entry_view(
            AddressBlock::spec_v6(0x2001, 0, 0, 0, 0, 0, 0, 0, 32),
            "TEREDO"@,
            "[RFC4380]"@,
            "January 2006"@,
            "N/A"@,
            true,
            true,
            true,
            false,
            false,
        ),
        entry_view(
            AddressBlock::spec_v6(0x2001, 0x2, 0, 0, 0, 0, 0, 0, 48),
            "Benchmarking"@,
            "[RFC5180]"@,
            "April 2008"@,
            "N/A"@,
            true,
            true,
            true,
            false,
            false,
        ),
        entry_view(
            AddressBlock::spec_v6(0x2001, 0xdb8, 0, 0, 0, 0, 0, 0, 32),
            "Documentation"@,
            "[RFC3849]"@,
            "July 2004"@,
            "N/A"@,
            false,
            false,
            false,
            false,
            false,
        ),
        entry_view(
            AddressBlock::spec_v6(0x2001, 0x10, 0, 0, 0, 0, 0, 0, 28),
            "ORCHID"@,
            "[RFC4843]"@,
            "March 2007"@,
            "March 2014"@,
            false,
            false,
            false,
            false,
            false,
        ),
        entry_view(
            AddressBlock::spec_v6(0x2002, 0, 0, 0, 0, 0, 0, 0, 16),
            "6to4"@,
            "[RFC3056]"@,
            "February 2001"@,
            "N/A"@,
            true,
            true,
            true,
            false,
            false,
        ),
        entry_view(
            AddressBlock::spec_v6(0xfc00, 0, 0, 0, 0, 0, 0, 0, 7),
            "Unique-Local"@,
            "[RFC4193]"@,
            "October 2005"@,
            "N/A"@,
            true,
            true,
            true,
            false,
            false,
        ),
        entry_view(
            AddressBlock::spec_v6(0xfe80, 0, 0, 0, 0, 0, 0, 0, 10),
            "Linked-Scoped Unicast"@,
            "[RFC4291]"@,
            "February 2006"@,
            "N/A"@,
            true,
            true,
            false,
            false,
            true,
        ),
    ]
}

/// Whether entry `j` holds `ip`.
pub open spec fn holds(entries: Seq<Rfc6890EntryView>, ip: IpAddress, j: int) -> bool {
    entries[j].address_block.spec_contains_addr(ip)
}

/// Whether entry `i` is the most specific match for `ip` among the first `n`
/// entries: it holds `ip`, every entry that holds `ip` contains its block,
/// and no earlier entry that holds `ip` has the very same extent.
pub open spec fn is_most_specific(
    entries: Seq<Rfc6890EntryView>,
    n: int,
    ip: IpAddress,
    i: int,
) -> bool {
    &&& 0 <= i < n <= entries.len()
    &&& holds(entries, ip, i)
    &&& forall|j: int|
        0 <= j < n && #[trigger] holds(entries, ip, j)
            ==> entries[j].address_block.spec_contains_block(entries[i].address_block)
    &&& forall|j: int|
        0 <= j < i && #[trigger] holds(entries, ip, j)
            ==> !entries[i].address_block.spec_contains_block(entries[j].address_block)
}

/// The index of the most specific entry that holds `ip`, or `None` where no
/// entry holds it.
pub open spec fn most_specific(entries: Seq<Rfc6890EntryView>, ip: IpAddress) -> Option<int> {
    if exists|i: int| is_most_specific(entries, entries.len() as int, ip, i) {
        Some(choose|i: int| is_most_specific(entries, entries.len() as int, ip, i))
    } else {
        None
    }
}

/// Whether `ip` is forwardable by the given table.
pub open spec fn forwardable_in(entries: Seq<Rfc6890EntryView>, ip: IpAddress) -> bool {
    match most_specific(entries, ip) {
        Some(i) => entries[i].forwardable,
        None => UNMATCHED_DEFAULT,
    }
}

/// Whether `ip` is global by the given table.
pub open spec fn global_in(entries: Seq<Rfc6890EntryView>, ip: IpAddress) -> bool {
    match most_specific(entries, ip) {
        Some(i) => entries[i].global,
        None => UNMATCHED_DEFAULT,
    }
}

/// At most one entry is the most specific match.
pub proof fn lemma_most_specific_unique(
    entries: Seq<Rfc6890EntryView>,
    n: int,
    ip: IpAddress,
    i: int,
    k: int,
)
    requires
        is_most_specific(entries, n, ip, i),
        is_most_specific(entries, n, ip, k),
    ensures
        i == k,
{
    if i < k {
        assert(holds(entries, ip, i));
    } else if k < i {
        assert(holds(entries, ip, k));
    }
}

/// The most specific match is the entry that satisfies its definition.
pub proof fn lemma_most_specific_is(entries: Seq<Rfc6890EntryView>, ip: IpAddress, i: int)
    requires
        is_most_specific(entries, entries.len() as int, ip, i),
    ensures
        most_specific(entries, ip) == Some(i),
{
    let k = choose|k: int| is_most_specific(entries, entries.len() as int, ip, k);
    lemma_most_specific_unique(entries, entries.len() as int, ip, i, k);
}

/// Where no entry holds the address, there is no most specific match.
pub proof fn lemma_most_specific_none(entries: Seq<Rfc6890EntryView>, ip: IpAddress)
    requires
        forall|j: int| 0 <= j < entries.len() ==> !#[trigger] holds(entries, ip, j),
    ensures
        most_specific(entries, ip) is None,
{
}

/// The IPv4 entries of the registry as ranges of addresses: entry `j` holds
/// `ip` exactly when `ip` lies between the first and the last address of
/// its block. No IPv6 entry holds an IPv4 address.
proof fn lemma_registry_v4_extents(ip: u32)
    ensures
        rfc6890_entries().len() == 29,
        forall|j: int|
            0 <= j < 29 && #[trigger] holds(rfc6890_entries(), IpAddress::V4(ip), j) ==> j < 16,
        holds(rfc6890_entries(), IpAddress::V4(ip), 0) <==> 0x0000_0000 <= ip <= 0x00FF_FFFF,
        holds(rfc6890_entries(), IpAddress::V4(ip), 1) <==> 0x0A00_0000 <= ip <= 0x0AFF_FFFF,
        holds(rfc6890_entries(), IpAddress::V4(ip), 2) <==> 0x6440_0000 <= ip <= 0x647F_FFFF,
        holds(rfc6890_entries(), IpAddress::V4(ip), 3) <==> 0x7F00_0000 <= ip <= 0x7FFF_FFFF,
        holds(rfc6890_entries(), IpAddress::V4(ip), 4) <==> 0xA9FE_0000 <= ip <= 0xA9FE_FFFF,
        holds(rfc6890_entries(), IpAddress::V4(ip), 5) <==> 0xAC10_0000 <= ip <= 0xAC1F_FFFF,
        holds(rfc6890_entries(), IpAddress::V4(ip), 6) <==> 0xC000_0000 <= ip <= 0xC000_00FF,
        holds(rfc6890_entries(), IpAddress::V4(ip), 7) <==> 0xC000_0000 <= ip <= 0xC000_0007,
        holds(rfc6890_entries(), IpAddress::V4(ip), 8) <==> 0xC000_0200 <= ip <= 0xC000_02FF,
        holds(rfc6890_entries(), IpAddress::V4(ip), 9) <==> 0xC058_6300 <= ip <= 0xC058_63FF,
        holds(rfc6890_entries(), IpAddress::V4(ip), 10) <==> 0xC0A8_0000 <= ip <= 0xC0A8_FFFF,
        holds(rfc6890_entries(), IpAddress::V4(ip), 11) <==> 0xC612_0000 <= ip <= 0xC613_FFFF,
        holds(rfc6890_entries(), IpAddress::V4(ip), 12) <==> 0xC633_6400 <= ip <= 0xC633_64FF,
        holds(rfc6890_entries(), IpAddress::V4(ip), 13) <==> 0xCB00_7100 <= ip <= 0xCB00_71FF,
        holds(rfc6890_entries(), IpAddress::V4(ip), 14) <==> 0xF000_0000 <= ip <= 0xFFFF_FFFF,
        holds(rfc6890_entries(), IpAddress::V4(ip), 15) <==> 0xFFFF_FFFF <= ip <= 0xFFFF_FFFF,
        rfc6890_entries()[6].address_block.spec_contains_block(
            rfc6890_entries()[7].address_block,
        ),
        !rfc6890_entries()[7].address_block.spec_contains_block(
            rfc6890_entries()[6].address_block,
        ),
{
    lemma2_to64();
    lemma_extent(ipv4_bits(0, 0, 0, 0) as int, 24, 0x1000000);
    lemma_extent(ipv4_bits(10, 0, 0, 0) as int, 24, 0x1000000);
    lemma_extent(ipv4_bits(100, 64, 0, 0) as int, 22, 0x400000);
    lemma_extent(ipv4_bits(127, 0, 0, 0) as int, 24, 0x1000000);
    lemma_extent(ipv4_bits(169, 254, 0, 0) as int, 16, 0x10000);
    lemma_extent(ipv4_bits(172, 16, 0, 0) as int, 20, 0x100000);
    lemma_extent(ipv4_bits(192, 0, 0, 0) as int, 8, 0x100);
    lemma_extent(ipv4_bits(192, 0, 0, 0) as int, 3, 0x8);
    lemma_extent(ipv4_bits(192, 0, 2, 0) as int, 8, 0x100);
    lemma_extent(ipv4_bits(192, 88, 99, 0) as int, 8, 0x100);
    lemma_extent(ipv4_bits(192, 168, 0, 0) as int, 16, 0x10000);
    lemma_extent(ipv4_bits(198, 18, 0, 0) as int, 17, 0x20000);
    lemma_extent(ipv4_bits(198, 51, 100, 0) as int, 8, 0x100);
    lemma_extent(ipv4_bits(203, 0, 113, 0) as int, 8, 0x100);
    lemma_extent(ipv4_bits(240, 0, 0, 0) as int, 28, 0x10000000);
    lemma_extent(ipv4_bits(255, 255, 255, 255) as int, 0, 0x1);
}

/// Most-specific match on the overlapping registry blocks `192.0.0.0/24`
/// (not forwardable) and `192.0.0.0/29` (forwardable): an address of the
/// `/24` is forwardable exactly when it lies inside the `/29`.
pub proof fn lemma_most_specific_192(ip: u32)
    requires
        ipv4_bits(192, 0, 0, 0) <= ip <= ipv4_bits(192, 0, 0, 255),
    ensures
        forwardable_in(rfc6890_entries(), IpAddress::V4(ip)) == (ip <= ipv4_bits(192, 0, 0, 7)),
{
    let table = rfc6890_entries();
    let a = IpAddress::V4(ip);
    lemma_registry_v4_extents(ip);
    if ip <= ipv4_bits(192, 0, 0, 7) {
        assert(is_most_specific(table, 29, a, 7));
        lemma_most_specific_is(table, a, 7);
    } else {
        assert(is_most_specific(table, 29, a, 6));
        lemma_most_specific_is(table, a, 6);
    }
}

/// Every address of the 6to4 relay anycast block `192.88.99.0/24` is global
/// and forwardable.
pub proof fn lemma_relay_anycast_is_global(ip: u32)
    requires
        ipv4_bits(192, 88, 99, 0) <= ip <= ipv4_bits(192, 88, 99, 255),
    ensures
        global_in(rfc6890_entries(), IpAddress::V4(ip)),
        forwardable_in(rfc6890_entries(), IpAddress::V4(ip)),
{
    let table = rfc6890_entries();
    let a = IpAddress::V4(ip);
    lemma_registry_v4_extents(ip);
    assert(is_most_specific(table, 29, a, 9));
    lemma_most_specific_is(table, a, 9);
}

/// An address that no entry of the registry holds gets the default answer
/// to both questions.
pub proof fn lemma_unmatched_default(entries: Seq<Rfc6890EntryView>, ip: IpAddress)
    requires
        forall|j: int| 0 <= j < entries.len() ==> !#[trigger] holds(entries, ip, j),
    ensures
        forwardable_in(entries, ip) == UNMATCHED_DEFAULT,
        global_in(entries, ip) == UNMATCHED_DEFAULT,
{
    lemma_most_specific_none(entries, ip);
}

/// The IPv4 block `a.b.c.d/prefix_len`.
fn v4(a: u8, b: u8, c: u8, d: u8, prefix_len: u8) -> (r: AddressBlock)
    requires
        prefix_len <= 32,
    ensures
        r == AddressBlock::spec_v4(a, b, c, d, prefix_len),
{
    AddressBlock::V4(Ipv4Block { addr: ipv4_from_octets(a, b, c, d), prefix_len })
}

/// The IPv6 block of the address with the given groups and prefix length.
fn v6(
    g0: u16,
    g1: u16,
    g2: u16,
    g3: u16,
    g4: u16,
    g5: u16,
    g6: u16,
    g7: u16,
    prefix_len: u8,
) -> (r: AddressBlock)
    requires
        prefix_len <= 128,
    ensures
        r == AddressBlock::spec_v6(g0, g1, g2, g3, g4, g5, g6, g7, prefix_len),
{
    AddressBlock::V6(
        Ipv6Block { addr: ipv6_from_groups(g0, g1, g2, g3, g4, g5, g6, g7), prefix_len },
    )
}

/// The entry with the given fields.
fn entry(
    address_block: AddressBlock,
    name: &str,
    rfc: &str,
    allocation_date: &str,
    termination_date: &str,
    source: bool,
    destination: bool,
    forwardable: bool,
    global: bool,
    reserved_by_protocol: bool,
) -> (r: Rfc6890Entry)
    ensures
        r@ == entry_view(
            address_block,
            name@,
            rfc@,
            allocation_date@,
            termination_date@,
            source,
            destination,
            forwardable,
            global,
            reserved_by_protocol,
        ),
{
    Rfc6890Entry {
        address_block,
        name: name.to_owned(),
        rfc: rfc.to_owned(),
        allocation_date: allocation_date.to_owned(),
        termination_date: termination_date.to_owned(),
        source,
        destination,
        forwardable,
        global,
        reserved_by_protocol,
    }
}

impl WithRfc6890 {
    /// Builds the table of all RFC 6890 entries.
    pub fn create() -> (r: WithRfc6890)
        ensures
            r@ == rfc6890_entries(),
    {
        let mut entries: Vec<Rfc6890Entry> = Vec::new();
        entries.push(
            entry(
                v4(0, 0, 0, 0, 8),
                "\"This host on this network",
                "[RFC1122], Section 3.2.1.3",
                "September 1981",
                "N/A",
                true,
                false,
                false,
                false,
                true,
            ),
        );
        entries.push(
            entry(
                v4(10, 0, 0, 0, 8),
                "Private-Use",
                "[RFC1918]",
                "February 1996",
                "N/A",
                true,
                true,
                true,
                false,
                false,
            ),
        );
        entries.push(
            entry(
                v4(100, 64, 0, 0, 10),
                "Shared Address Space",
                "[RFC6598]",
                "April 2012",
                "N/A",
                true,
                true,
                true,
                false,
                false,
            ),
        );
        entries.push(
            entry(
                v4(127, 0, 0, 0, 8),
                "Loopback",
                "[RFC1122], Section 3.2.1.3",
                "September 1981",
                "N/A",
                false,
                false,
                false,
                false,
                true,
            ),
        );
        entries.push(
            entry(
                v4(169, 254, 0, 0, 16),
                "Link Local",
                "[RFC3927]",
                "May 2005",
                "N/A",
                true,
                true,
                false,
                false,
                true,
            ),
        );
        entries.push(
            entry(
                v4(172, 16, 0, 0, 12),
                "Private-Use",
                "[RFC1918]",
                "February 1996",
                "N/A",
                true,
                true,
                true,
                false,
                false,
            ),
        );
        entries.push(
            entry(
                v4(192, 0, 0, 0, 24),
                "IETF Protocol Assignments",
                "Section 2.1 of this document",
                "January 2010",
                "N/A",
                false,
                false,
                false,
                false,
                false,
            ),
        );
        entries.push(
            entry(
                v4(192, 0, 0, 0, 29),
                "DS-Lite",
                "[RFC6333]",
                "June 2011",
                "N/A",
                true,
                true,
                true,
                false,
                false,
            ),
        );
        entries.push(
            entry(
                v4(192, 0, 2, 0, 24),
                "Documentation (TEST-NET-1)",
                "[RFC5737]",
                "January 2010",
                "N/A",
                false,
                false,
                false,
                false,
                false,
            ),
        );
        entries.push(
            entry(
                v4(192, 88, 99, 0, 24),
                "6to4 Relay Anycast",
                "[RFC3068]",
                "June 2001",
                "N/A",
                true,
                true,
                true,
                true,
                false,
            ),
        );
        entries.push(
            entry(
                v4(192, 168, 0, 0, 16),
                "Private-Use",
                "[RFC1918]",
                "February 1996",
                "N/A",
                true,
                true,
                true,
                false,
                false,
            ),
        );
        entries.push(
            entry(
                v4(198, 18, 0, 0, 15),
                "Benchmarking",
                "[RFC2544]",
                "March 1999",
                "N/A",
                true,
                true,
                true,
                false,
                false,
            ),
        );
        entries.push(
            entry(
                v4(198, 51, 100, 0, 24),
                "Documentation (TEST-NET-2)",
                "[RFC5737]",
                "January 2010",
                "N/A",
                false,
                false,
                false,
                false,
                false,
            ),
        );
        entries.push(
            entry(
                v4(203, 0, 113, 0, 24),
                "Documentation (TEST-NET-3)",
                "[RFC5737]",
                "January 2010",
                "N/A",
                false,
                false,
                false,
                false,
                false,
            ),
        );
        entries.push(
            entry(
                v4(240, 0, 0, 0, 4),
                "Reserved",
                "[RFC1112], Section 4",
                "August 1989",
                "N/A",
                false,
                false,
                false,
                false,
                true,
            ),
        );
        entries.push(
            entry(
                v4(255, 255, 255, 255, 32),
                "Limited Broadcast",
                "[RFC0919], Section 7",
                "October 1984",
                "N/A",
                false,
                true,
                false,
                false,
                false,
            ),
        );
        entries.push(
            entry(
                v6(0, 0, 0, 0, 0, 0, 0, 0x1, 128),
                "Loopback Address",
                "[RFC4291]",
                "February 2006",
                "N/A",
                false,
                false,
                false,
                false,
                true,
            ),
        );
        entries.push(
            entry(
                v6(0, 0, 0, 0, 0, 0, 0, 0, 128),
                "Unspecified Address",
                "[RFC4291]",
                "February 2006",
                "N/A",
                true,
                false,
                false,
                false,
                true,
            ),
        );
        entries.push(
            entry(
                v6(0x64, 0xff9b, 0, 0, 0, 0, 0, 0, 96),
                "IPv4-IPv6 Translat.",
                "[RFC6052]",
                "October 2010",
                "N/A",
                true,
                true,
                true,
                true,
                false,
            ),
        );
        entries.push(
            entry(
                v6(0, 0, 0, 0, 0, 0xffff, 0, 0, 96),
                "IPv4-mapped Address",
                "[RFC4291]",
                "February 2006",
                "N/A",
                false,
                false,
                false,
                false,
                true,
            ),
        );
        entries.push(
            entry(
                v6(0x100, 0, 0, 0, 0, 0, 0, 0, 64),
                "Discard-Only Address Block",
                "[RFC6666]",
                "June 2012",
                "N/A",
                true,
                true,
                true,
                false,
                false,
            ),
        );
        entries.push(
            entry(
                v6(0x2001, 0, 0, 0, 0, 0, 0, 0, 23),
                "IETF Protocol Assignments",
                "[RFC2928]",
                "September 2000",
                "N/A",
                false,
                false,
                false,
                false,
                false,
            ),
        );
        entries.push(
            entry(
                v6(0x2001, 0, 0, 0, 0, 0, 0, 0, 32),
                "TEREDO",
                "[RFC4380]",
                "January 2006",
                "N/A",
                true,
                true,
                true,
                false,
                false,
            ),
        );
        entries.push(
            entry(
                v6(0x2001, 0x2, 0, 0, 0, 0, 0, 0, 48),
                "Benchmarking",
                "[RFC5180]",
                "April 2008",
                "N/A",
                true,
                true,
                true,
                false,
                false,
            ),
        );
        entries.push(
            entry(
                v6(0x2001, 0xdb8, 0, 0, 0, 0, 0, 0, 32),
                "Documentation",
                "[RFC3849]",
                "July 2004",
                "N/A",
                false,
                false,
                false,
                false,
                false,
            ),
        );
        entries.push(
            entry(
                v6(0x2001, 0x10, 0, 0, 0, 0, 0, 0, 28),
                "ORCHID",
                "[RFC4843]",
                "March 2007",
                "March 2014",
                false,
                false,
                false,
                false,
                false,
            ),
        );
        entries.push(
            entry(
                v6(0x2002, 0, 0, 0, 0, 0, 0, 0, 16),
                "6to4",
                "[RFC3056]",
                "February 2001",
                "N/A",
                true,
                true,
                true,
                false,
                false,
            ),
        );
        entries.push(
            entry(
                v6(0xfc00, 0, 0, 0, 0, 0, 0, 0, 7),
                "Unique-Local",
                "[RFC4193]",
                "October 2005",
                "N/A",
                true,
                true,
                true,
                false,
                false,
            ),
        );
        entries.push(
            entry(
                v6(0xfe80, 0, 0, 0, 0, 0, 0, 0, 10),
                "Linked-Scoped Unicast",
                "[RFC4291]",
                "February 2006",
                "N/A",
                true,
                true,
                false,
                false,
                true,
            ),
        );
        WithRfc6890 { entries }
    }

    /// The most specific entry that holds `ip`, if any entry does.
    pub fn find_most_specific(&self, ip: &IpAddress) -> (r: Option<&Rfc6890Entry>)
        ensures
            match r {
                Some(e) => most_specific(self@, *ip) matches Some(i) && 0 <= i
                    < self.entries@.len() && *e == self.entries@[i],
                None => most_specific(self@, *ip) is None,
            },
    {
        let mut best: Option<usize> = None;
        let mut i: usize = 0;
        while i < self.entries.len()
            invariant
                i <= self.entries@.len(),
                self@.len() == self.entries@.len(),
                match best {
                    Some(b) => is_most_specific(self@, i as int, *ip, b as int)
                        && self@[b as int].address_block.well_formed(),
                    None => forall|j: int| 0 <= j < i ==> !#[trigger] holds(self@, *ip, j),
                },
            decreases self.entries@.len() - i,
        {
            let cur = &self.entries[i];
            if cur.address_block.contains_addr(ip) {
                match best {
                    None => {
                        best = Some(i);
                    },
                    Some(b) => {
                        let existing = &self.entries[b];
                        let inside = existing.address_block.contains_block(&cur.address_block);
                        let covers = cur.address_block.contains_block(&existing.address_block);
                        proof {
                            lemma_blocks_nest(
                                existing.address_block,
                                cur.address_block,
                                *ip,
                            );
                        }
                        if inside && !covers {
                            best = Some(i);
                        }
                    },
                }
            }
            i += 1;
        }
        match best {
            Some(b) => {
                proof {
                    lemma_most_specific_is(self@, *ip, b as int);
                }
                Some(&self.entries[b])
            },
            None => {
                proof {
                    lemma_most_specific_none(self@, *ip);
                }
                None
            },
        }
    }

    /// Whether a router may forward a datagram whose destination is `ip`
    /// between external interfaces: the most specific entry's flag, or
    /// [`UNMATCHED_DEFAULT`] where no entry holds the address.
    pub fn is_forwardable(&self, ip: &IpAddress) -> (r: bool)
        ensures
            r == forwardable_in(self@, *ip),
    {
        match self.find_most_specific(ip) {
            Some(e) => e.forwardable,
            None => UNMATCHED_DEFAULT,
        }
    }

    /// Whether a datagram whose destination is `ip` is forwardable beyond an
    /// administrative domain: the most specific entry's flag, or
    /// [`UNMATCHED_DEFAULT`] where no entry holds the address.
    pub fn is_global(&self, ip: &IpAddress) -> (r: bool)
        ensures
            r == global_in(self@, *ip),
    {
        match self.find_most_specific(ip) {
            Some(e) => e.global,
            None => UNMATCHED_DEFAULT,
        }
    }
}

} // verus!
