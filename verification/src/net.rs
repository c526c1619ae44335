//! IP addresses and networks as plain values, with containment and parsing
//! delegated to the `cidr` crate.

use vstd::prelude::*;

verus! {

/// An IP address: an IPv4 address as its 32-bit big-endian value, or an IPv6
/// address as its 128-bit big-endian value.
#[derive(Clone, Copy, Debug, PartialEq, Eq, Hash)]
pub enum IpAddress {
    V4(u32),
    V6(u128),
}

/// A host address inside a network of the given prefix length
/// (the shape of `cidr::IpInet`: host bits may be set).
#[derive(Clone, Copy, Debug, PartialEq, Eq)]
pub enum IpNet {
    V4 { addr: u32, len: u8 },
    V6 { addr: u128, len: u8 },
}

/// The network mask of an IPv4 prefix length: its first `len` bits set.
pub open spec fn v4_mask(len: u8) -> u32 {
    if len == 0 { 0u32 } else { (0xffff_ffffu32 << ((32 - len) as u32)) as u32 }
}

/// The network mask of an IPv6 prefix length: its first `len` bits set.
pub open spec fn v6_mask(len: u8) -> u128 {
    if len == 0 {
        0u128
    } else {
        (0xffff_ffff_ffff_ffff_ffff_ffff_ffff_ffffu128 << ((128 - len) as u128)) as u128
    }
}

impl IpNet {
    /// The prefix length fits the address family.
    pub open spec fn well_formed(self) -> bool {
        match self {
            IpNet::V4 { len, .. } => len <= 32,
            IpNet::V6 { len, .. } => len <= 128,
        }
    }

    /// `ip` lies in this network: same family, and equal in the first
    /// prefix-length bits.
    pub open spec fn spec_contains(self, ip: IpAddress) -> bool {
        match (self, ip) {
            (IpNet::V4 { addr, len }, IpAddress::V4(a)) => (addr & v4_mask(len)) == (a & v4_mask(len)),
            (IpNet::V6 { addr, len }, IpAddress::V6(a)) => (addr & v6_mask(len)) == (a & v6_mask(len)),
            _ => false,
        }
    }
}

/// Containment needs the same address family: an IPv4 address lies in no
/// IPv6 network and an IPv6 address in no IPv4 network. Every network holds
/// its own address; a network of prefix length 0 holds every address of its
/// family; a network of full length holds its own address and no other.
pub proof fn lemma_containment(n: IpNet, ip: IpAddress)
    ensures
        (n is V4 && ip is V6) ==> !n.spec_contains(ip),
        (n is V6 && ip is V4) ==> !n.spec_contains(ip),
        n matches IpNet::V4 { addr, len } ==> n.spec_contains(IpAddress::V4(addr)),
        n matches IpNet::V6 { addr, len } ==> n.spec_contains(IpAddress::V6(addr)),
        n matches IpNet::V4 { addr, len } ==> (len == 0 && ip is V4 ==> n.spec_contains(ip)),
        n matches IpNet::V6 { addr, len } ==> (len == 0 && ip is V6 ==> n.spec_contains(ip)),
        n matches IpNet::V4 { addr, len } ==> (len == 32 && ip is V4 ==> (n.spec_contains(ip) <==> ip == IpAddress::V4(addr))),
        n matches IpNet::V6 { addr, len } ==> (len == 128 && ip is V6 ==> (n.spec_contains(ip) <==> ip == IpAddress::V6(addr))),
{
    assert(forall|x: u32| #[trigger] (x & 0u32) == 0u32) by (bit_vector);
    assert(forall|x: u128| #[trigger] (x & 0u128) == 0u128) by (bit_vector);
    assert(forall|x: u32| #[trigger] (x & ((0xffff_ffffu32 << 0u32) as u32)) == x) by (bit_vector);
    assert(forall|x: u128| #[trigger] (x & ((0xffff_ffff_ffff_ffff_ffff_ffff_ffff_ffffu128 << 0u128) as u128)) == x) by (bit_vector);
}

#[verifier::rlimit(100)]
proof fn lemma_v6_mask_shift(x: u128, y: u128, sh: u128)
    by (bit_vector)
    requires
        sh < 128,
    ensures
        (x & ((0xffff_ffff_ffff_ffff_ffff_ffff_ffff_ffffu128 << sh) as u128))
            == (y & ((0xffff_ffff_ffff_ffff_ffff_ffff_ffff_ffffu128 << sh) as u128))
            <==> (x >> sh) == (y >> sh),
{
}

/// A network of prefix length `len` holds exactly the addresses of its family
/// that agree with its address in the first `len` bits, i.e. whose leading
/// `len` bits, shifted down, are equal.
pub proof fn lemma_containment_by_leading_bits(n: IpNet, ip: IpAddress)
    requires
        n.well_formed(),
    ensures
        n matches IpNet::V4 { addr, len } ==> (ip matches IpAddress::V4(a) ==> (len > 0 ==>
            (n.spec_contains(ip) <==> (addr >> ((32 - len) as u32)) == (a >> ((32 - len) as u32))))),
        n matches IpNet::V6 { addr, len } ==> (ip matches IpAddress::V6(a) ==> (len > 0 ==>
            (n.spec_contains(ip) <==> (addr >> ((128 - len) as u128)) == (a >> ((128 - len) as u128))))),
{
    match (n, ip) {
        (IpNet::V4 { addr, len }, IpAddress::V4(a)) => {
            if len > 0 {
                let sh: u32 = (32 - len) as u32;
                assert(sh < 32);
                assert((addr & ((0xffff_ffffu32 << sh) as u32)) == (a & ((0xffff_ffffu32 << sh) as u32))
                    <==> (addr >> sh) == (a >> sh)) by (bit_vector)
                    requires sh < 32u32;
            }
        },
        (IpNet::V6 { addr, len }, IpAddress::V6(a)) => {
            if len > 0 {
                let sh: u128 = (128 - len) as u128;
                assert(sh < 128);
                lemma_v6_mask_shift(addr, a, sh);
            }
        },
        _ => {},
    }
}

/// `cidr::Ipv4Inet::contains`: whether `ip` agrees with `addr` on the first
/// `len` bits. The contract restates the prefix match that the crate computes.
#[verifier::external_body]
fn v4_prefix_match(addr: u32, len: u8, ip: u32) -> (res: bool)
    requires
        len <= 32,
    ensures
        res == ((addr & v4_mask(len)) == (ip & v4_mask(len))),
{
    let net = cidr::Ipv4Inet::new(addr.into(), len).unwrap();
    net.contains(&ip.into())
}

/// `cidr::Ipv6Inet::contains`: whether `ip` agrees with `addr` on the first
/// `len` bits. The contract restates the prefix match that the crate computes.
#[verifier::external_body]
fn v6_prefix_match(addr: u128, len: u8, ip: u128) -> (res: bool)
    requires
        len <= 128,
    ensures
        res == ((addr & v6_mask(len)) == (ip & v6_mask(len))),
{
    let net = cidr::Ipv6Inet::new(addr.into(), len).unwrap();
    net.contains(&ip.into())
}

impl IpNet {
    /// Whether `ip` lies in this network; addresses of the other family never do.
    pub fn contains(&self, ip: &IpAddress) -> (res: bool)
        requires
            self.well_formed(),
        ensures
            res == self.spec_contains(*ip),
    {
        match (self, ip) {
            (IpNet::V4 { addr, len }, IpAddress::V4(a)) => v4_prefix_match(*addr, *len, *a),
            (IpNet::V6 { addr, len }, IpAddress::V6(a)) => v6_prefix_match(*addr, *len, *a),
            _ => false,
        }
    }
}


/// What `cidr::IpInet::from_str` makes of a text: the network it denotes, or
/// `None` where the crate rejects it.
pub uninterp spec fn cidr_parse(text: Seq<char>) -> Option<IpNet>;

/// `<cidr::IpInet as FromStr>::from_str`, its result taken apart into plain values.
/// Claimed: the result is the crate's parse of the text, and a parsed prefix
/// length fits its family (`Ipv4Inet::new` and `Ipv6Inet::new` refuse longer ones,
/// and a bare address becomes a host network of full length).
#[verifier::external_body]
fn parse_inet(text: &str) -> (res: Option<IpNet>)
    ensures
        res == cidr_parse(text@),
        res matches Some(n) ==> n.well_formed(),
{
    match text.parse::<cidr::IpInet>() {
        Ok(cidr::IpInet::V4(n)) => Some(IpNet::V4 { addr: n.address().into(), len: n.network_length() }),
        Ok(cidr::IpInet::V6(n)) => Some(IpNet::V6 { addr: n.address().into(), len: n.network_length() }),
        Err(_) => None,
    }
}

/// The networks that a list of texts denotes, in order, skipping texts that
/// do not parse.
pub open spec fn parsed_networks(texts: Seq<Seq<char>>) -> Seq<IpNet>
    decreases texts.len(),
{
    if texts.len() == 0 {
        Seq::empty()
    } else {
        let prefix = parsed_networks(texts.drop_last());
        match cidr_parse(texts.last()) {
            Some(n) => prefix.push(n),
            None => prefix,
        }
    }
}

/// The views of a list of strings.
pub open spec fn string_views(v: Seq<String>) -> Seq<Seq<char>> {
    v.map_values(|s: String| s@)
}

/// No address lies in an empty list; an address lies in a one-network list
/// exactly when it lies in that network; and it lies in a joined list exactly
/// when it lies in one of the parts.
pub proof fn lemma_in_any(a: Seq<IpNet>, b: Seq<IpNet>, n: IpNet, ip: IpAddress)
    ensures
        !in_any(Seq::<IpNet>::empty(), ip),
        in_any(seq![n], ip) == n.spec_contains(ip),
        in_any(a + b, ip) == (in_any(a, ip) || in_any(b, ip)),
{
    if in_any(seq![n], ip) {
        let i = choose|i: int| 0 <= i < 1 && (#[trigger] seq![n][i]).spec_contains(ip);
        assert(seq![n][i] == n);
    }
    if n.spec_contains(ip) {
        assert(seq![n][0] == n);
    }
    let ab = a + b;
    if in_any(ab, ip) {
        let i = choose|i: int| 0 <= i < ab.len() && (#[trigger] ab[i]).spec_contains(ip);
        if i < a.len() {
            assert(ab[i] == a[i]);
        } else {
            assert(ab[i] == b[i - a.len()]);
        }
    }
    if in_any(a, ip) {
        let i = choose|i: int| 0 <= i < a.len() && (#[trigger] a[i]).spec_contains(ip);
        assert(ab[i] == a[i]);
    }
    if in_any(b, ip) {
        let i = choose|i: int| 0 <= i < b.len() && (#[trigger] b[i]).spec_contains(ip);
        assert(ab[a.len() + i] == b[i]);
    }
}

/// Every network of the list has a prefix length that fits its family.
pub open spec fn all_well_formed(nets: Seq<IpNet>) -> bool {
    forall|i: int| 0 <= i < nets.len() ==> (#[trigger] nets[i]).well_formed()
}

/// The parsed networks are never more than the texts; where every text
/// parses they are the texts' networks in the same order; where none does
/// there are none.
pub proof fn lemma_parsed_networks(texts: Seq<Seq<char>>)
    ensures
        parsed_networks(texts).len() <= texts.len(),
        (forall|i: int| 0 <= i < texts.len() ==> (#[trigger] cidr_parse(texts[i])) is Some) ==> {
            &&& parsed_networks(texts).len() == texts.len()
            &&& forall|i: int| 0 <= i < texts.len() ==> Some(#[trigger] parsed_networks(texts)[i]) == cidr_parse(texts[i])
        },
        (forall|i: int| 0 <= i < texts.len() ==> (#[trigger] cidr_parse(texts[i])) is None) ==> parsed_networks(texts).len() == 0,
    decreases texts.len(),
{
    if texts.len() > 0 {
        let init = texts.drop_last();
        lemma_parsed_networks(init);
        if forall|i: int| 0 <= i < texts.len() ==> (#[trigger] cidr_parse(texts[i])) is Some {
            assert forall|i: int| 0 <= i < init.len() implies (#[trigger] cidr_parse(init[i])) is Some by {
                assert(init[i] == texts[i]);
                assert(cidr_parse(texts[i]) is Some);
            }
            assert(cidr_parse(texts[texts.len() - 1]) is Some);
            assert forall|i: int| 0 <= i < texts.len() implies Some(#[trigger] parsed_networks(texts)[i]) == cidr_parse(texts[i]) by {
                if i < init.len() {
                    assert(init[i] == texts[i]);
                    assert(Some(parsed_networks(init)[i]) == cidr_parse(init[i]));
                }
            }
        }
        if forall|i: int| 0 <= i < texts.len() ==> (#[trigger] cidr_parse(texts[i])) is None {
            assert forall|i: int| 0 <= i < init.len() implies (#[trigger] cidr_parse(init[i])) is None by {
                assert(init[i] == texts[i]);
                assert(cidr_parse(texts[i]) is None);
            }
            assert(cidr_parse(texts[texts.len() - 1]) is None);
        }
    }
}

/// Parses each text of `texts` as a network and keeps those that parse, in
/// order; the others are dropped.
pub fn parse_networks(texts: &Vec<String>) -> (nets: Vec<IpNet>)
    ensures
        nets@ == parsed_networks(string_views(texts@)),
        all_well_formed(nets@),
{
    let mut nets: Vec<IpNet> = Vec::new();
    let ghost views = string_views(texts@);
    let mut i: usize = 0;
    while i < texts.len()
        invariant
            i <= texts.len(),
            views == string_views(texts@),
            nets@ == parsed_networks(views.take(i as int)),
            all_well_formed(nets@),
        decreases texts.len() - i,
    {
        let parsed = parse_inet(texts[i].as_str());
        proof {
            assert(views.take(i + 1).drop_last() =~= views.take(i as int));
            assert(views.take(i + 1).last() == texts@[i as int]@);
        }
        match parsed {
            Some(n) => {
                nets.push(n);
            },
            None => {},
        }
        i = i + 1;
    }
    assert(views.take(texts.len() as int) =~= views);
    nets
}

/// Whether `ip` lies in some network of `nets`.
pub open spec fn in_any(nets: Seq<IpNet>, ip: IpAddress) -> bool {
    exists|i: int| 0 <= i < nets.len() && (#[trigger] nets[i]).spec_contains(ip)
}

/// The decimal digit character of `d` (for `d < 10`).
pub open spec fn digit_char(d: nat) -> char {
    (48 + d) as char
}

/// The decimal numeral of `n`, without leading zeros.
pub open spec fn decimal(n: nat) -> Seq<char>
    decreases n,
{
    if n < 10 {
        seq![digit_char(n)]
    } else {
        decimal(n / 10).push(digit_char(n % 10))
    }
}

/// The number a string of decimal digits denotes.
pub open spec fn digits_value(d: Seq<char>) -> int
    decreases d.len(),
{
    if d.len() == 0 {
        0
    } else {
        digits_value(d.drop_last()) * 10 + (d.last() as int - 48)
    }
}

/// A decimal numeral is a non-empty string of digits, with no leading zero
/// unless it is `0`, that denotes its number.
pub proof fn lemma_decimal(n: nat)
    ensures
        decimal(n).len() >= 1,
        forall|i: int| 0 <= i < decimal(n).len() ==> '0' <= #[trigger] decimal(n)[i] && decimal(n)[i] <= '9',
        digits_value(decimal(n)) == n,
        decimal(n)[0] == '0' ==> n == 0,
    decreases n,
{
    if n >= 10 {
        lemma_decimal(n / 10);
        let d = decimal(n);
        assert(d.drop_last() == decimal(n / 10));
        assert(d[0] == decimal(n / 10)[0]);
        assert(d.last() == digit_char(n % 10));
        assert(digit_char(n % 10) as int == 48 + n % 10);
        assert(digits_value(d) == digits_value(decimal(n / 10)) * 10 + (n % 10));
        assert((n / 10) * 10 + n % 10 == n) by (nonlinear_arith);
    } else {
        assert(digit_char(n) as int == 48 + n);
        assert(decimal(n).drop_last() =~= Seq::<char>::empty());
        assert(digits_value(Seq::<char>::empty()) == 0);
        assert(decimal(n).last() == digit_char(n));
    }
}

/// The dotted-quad text of an IPv4 address, such as `192.168.1.10`.
pub open spec fn dotted_quad(a: u32) -> Seq<char> {
    decimal((a / 0x100_0000) as nat) + seq!['.'] + decimal(((a / 0x1_0000) % 256) as nat) + seq!['.']
        + decimal(((a / 0x100) % 256) as nat) + seq!['.'] + decimal((a % 256) as nat)
}

/// The address with bytes `b0.b1.b2.b3`, most significant first, is written
/// as the numerals of those bytes in that order, separated by dots.
pub proof fn lemma_dotted_quad_bytes(b0: u8, b1: u8, b2: u8, b3: u8)
    ensures
        dotted_quad((b0 * 0x100_0000 + b1 * 0x1_0000 + b2 * 0x100 + b3) as u32)
            == decimal(b0 as nat) + seq!['.'] + decimal(b1 as nat) + seq!['.'] + decimal(b2 as nat) + seq!['.'] + decimal(b3 as nat),
{
    let v: int = b0 * 0x100_0000 + b1 * 0x1_0000 + b2 * 0x100 + b3;
    assert(0 <= v < 0x1_0000_0000) by (nonlinear_arith)
        requires v == b0 * 0x100_0000 + b1 * 0x1_0000 + b2 * 0x100 + b3, b0 < 256, b1 < 256, b2 < 256, b3 < 256;
    let a = v as u32;
    assert(a as int == v);
    assert(a / 0x100_0000 == b0) by (nonlinear_arith)
        requires a as int == b0 * 0x100_0000 + b1 * 0x1_0000 + b2 * 0x100 + b3, b1 < 256, b2 < 256, b3 < 256;
    assert((a / 0x1_0000) % 256 == b1) by (nonlinear_arith)
        requires a as int == b0 * 0x100_0000 + b1 * 0x1_0000 + b2 * 0x100 + b3, b1 < 256, b2 < 256, b3 < 256;
    assert((a / 0x100) % 256 == b2) by (nonlinear_arith)
        requires a as int == b0 * 0x100_0000 + b1 * 0x1_0000 + b2 * 0x100 + b3, b2 < 256, b3 < 256;
    assert(a % 256 == b3) by (nonlinear_arith)
        requires a as int == b0 * 0x100_0000 + b1 * 0x1_0000 + b2 * 0x100 + b3, b3 < 256;
}

/// The text std's `Display` gives an IPv6 address.
pub uninterp spec fn ipv6_text(addr: u128) -> Seq<char>;

/// The one-character text of a decimal digit.
fn digit_text(d: u8) -> (res: &'static str)
    requires
        d < 10,
    ensures
        res@ == seq![digit_char(d as nat)],
{
    match d {
        0 => { proof { reveal_strlit("0"); } "0" },
        1 => { proof { reveal_strlit("1"); } "1" },
        2 => { proof { reveal_strlit("2"); } "2" },
        3 => { proof { reveal_strlit("3"); } "3" },
        4 => { proof { reveal_strlit("4"); } "4" },
        5 => { proof { reveal_strlit("5"); } "5" },
        6 => { proof { reveal_strlit("6"); } "6" },
        7 => { proof { reveal_strlit("7"); } "7" },
        8 => { proof { reveal_strlit("8"); } "8" },
        _ => { proof { reveal_strlit("9"); } "9" },
    }
}

/// Appends the decimal numeral of `n` to `out`.
fn push_decimal(out: &mut String, n: u8)
    ensures
        final(out)@ == old(out)@ + decimal(n as nat),
{
    proof {
        reveal_with_fuel(decimal, 3);
    }
    if n >= 100 {
        out.append(digit_text(n / 100));
        out.append(digit_text((n / 10) % 10));
        assert(decimal(n as nat) =~= seq![digit_char((n / 100) as nat), digit_char(((n / 10) % 10) as nat), digit_char((n % 10) as nat)]);
    } else if n >= 10 {
        out.append(digit_text(n / 10));
        assert(decimal(n as nat) =~= seq![digit_char((n / 10) as nat), digit_char((n % 10) as nat)]);
    } else {
        assert(decimal(n as nat) =~= seq![digit_char(n as nat)]);
    }
    out.append(digit_text(n % 10));
}

/// The dotted-quad text of an IPv4 address, as std's `Display` writes it.
fn v4_text(a: u32) -> (res: String)
    ensures
        res@ == dotted_quad(a),
{
    proof {
        reveal_strlit(".");
    }
    let mut out = String::new();
    push_decimal(&mut out, (a / 0x100_0000) as u8);
    out.append(".");
    push_decimal(&mut out, ((a / 0x1_0000) % 256) as u8);
    out.append(".");
    push_decimal(&mut out, ((a / 0x100) % 256) as u8);
    out.append(".");
    push_decimal(&mut out, (a % 256) as u8);
    out
}

/// `Display` of the host network `cidr::Ipv6Inet::new_host(a)`: for a host
/// address cidr writes the address alone, as std formats it.
#[verifier::external_body]
fn v6_text(a: u128) -> (res: String)
    ensures
        res@ == ipv6_text(a),
{
    cidr::Ipv6Inet::new_host(a.into()).to_string()
}

/// The text of an address as it is written into forwarding headers.
pub open spec fn ip_text(ip: IpAddress) -> Seq<char> {
    match ip {
        IpAddress::V4(a) => dotted_quad(a),
        IpAddress::V6(a) => ipv6_text(a),
    }
}

impl IpAddress {
    /// The address in text form: dotted quad for IPv4, std's form for IPv6.
    pub fn to_text(&self) -> (res: String)
        ensures
            res@ == ip_text(*self),
    {
        match self {
            IpAddress::V4(a) => v4_text(*a),
            IpAddress::V6(a) => v6_text(*a),
        }
    }
}

} // verus!
