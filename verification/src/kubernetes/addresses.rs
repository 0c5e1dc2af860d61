//! Which addresses this pod can bind, and which of a Gateway's requested
//! addresses those are.
use crate::kubernetes::resources::{
    Gateway, GatewayAddresses, GatewayAddressesView, GatewayView,
};
use crate::lists::{filter_map_vec, filter_vec, map_vec};
use crate::table;
use crate::table::Table;
use crate::text;
use crate::text::{chars_of, find_first, opt_is, opt_or, parse_digits, str_eq};
use vstd::prelude::*;

verus! {

/// The address type that names a network to bind to.
pub const NETWORK_ADDRESS_TYPE: &'static str = "portail.epheo.eu/Network";

/// The addresses that this pod can bind.
#[derive(Clone, Debug, Default, PartialEq, Eq)]
pub struct UsableAddresses {
    /// Addresses of local network interfaces.
    pub interface_ips: Vec<String>,
    /// Local addresses on named networks.
    pub network_ips: Table<String, String>,
}

/// What a [`UsableAddresses`] denotes.
#[verifier::ext_equal]
pub struct UsableAddressesView {
    pub interface_ips: Seq<Seq<char>>,
    pub network_ips: Map<Seq<char>, Seq<char>>,
}

impl DeepView for UsableAddresses {
    type V = UsableAddressesView;

    open spec fn deep_view(&self) -> UsableAddressesView {
        UsableAddressesView {
            interface_ips: self.interface_ips.deep_view(),
            network_ips: self.network_ips.deep_view(),
        }
    }
}

impl UsableAddressesView {
    /// All addresses that this pod can bind.
    pub open spec fn known(self) -> Set<Seq<char>> {
        self.interface_ips.to_set().union(self.network_ips.values())
    }

    /// Whether there is no such address.
    pub open spec fn spec_is_empty(self) -> bool {
        self.interface_ips.len() == 0 && self.network_ips == Map::<Seq<char>, Seq<char>>::empty()
    }

    /// The address to report: the first of an interface, or the one that
    /// stands for all.
    pub open spec fn spec_preferred_ip(self) -> Seq<char> {
        if self.interface_ips.len() > 0 {
            self.interface_ips[0]
        } else {
            "0.0.0.0"@
        }
    }
}

impl UsableAddresses {
    /// All addresses that this pod can bind.
    pub fn all(&self) -> (r: Vec<&str>)
        ensures
            r.deep_view().to_set() == self.deep_view().known(),
    {
        let mut out: Vec<&str> = Vec::new();
        let ghost ips = self.interface_ips.deep_view();
        let ghost e = self.network_ips.entries.deep_view();
        let ghost m = self.network_ips.deep_view();
        let mut i: usize = 0;
        while i < self.interface_ips.len()
            invariant
                i <= self.interface_ips.len(),
                ips == self.interface_ips.deep_view(),
                out@.len() == i,
                forall|j: int| 0 <= j < i ==> (#[trigger] out.deep_view()[j]) == ips[j],
            decreases self.interface_ips.len() - i,
        {
            let ghost before = out.deep_view();
            out.push(self.interface_ips[i].as_str());
            assert(out.deep_view() =~= before.push(ips[i as int]));
            i += 1;
        }
        let ghost n = ips.len();
        let mut k: usize = 0;
        while k < self.network_ips.entries.len()
            invariant
                k <= self.network_ips.entries.len(),
                e == self.network_ips.entries.deep_view(),
                m == self.network_ips.deep_view(),
                n == ips.len(),
                out@.len() == n + k,
                forall|j: int| 0 <= j < n ==> (#[trigger] out.deep_view()[j]) == ips[j],
                forall|j: int|
                    0 <= j < k ==> m.dom().contains((#[trigger] e[j]).0) && out.deep_view()[n + j]
                        == m[e[j].0],
            decreases self.network_ips.entries.len() - k,
        {
            let key = &self.network_ips.entries[k].0;
            let ghost before = out.deep_view();
            proof {
                assert(e[k as int].0 == key@);
                table::lemma_entries_dom(e, key@);
            }
            if let Some(ip) = self.network_ips.get(key) {
                out.push(ip.as_str());
                assert(out.deep_view() =~= before.push(ip@));
            }
            k += 1;
        }
        proof {
            let s = out.deep_view();
            assert forall|x: Seq<char>| #[trigger] s.to_set().contains(x)
                == self.deep_view().known().contains(x) by {
                if s.contains(x) {
                    let j = choose|j: int| 0 <= j < s.len() && s[j] == x;
                    if j < n {
                        assert(ips[j] == x);
                        assert(ips.to_set().contains(x));
                    } else {
                        assert(e[j - n].0 == e[j - n].0);
                        assert(m.dom().contains(e[j - n].0));
                        assert(s[n + (j - n)] == x);
                        assert(m.values().contains(x));
                    }
                }
                if ips.to_set().contains(x) {
                    let j = choose|j: int| 0 <= j < ips.len() && ips[j] == x;
                    assert(s[j] == x);
                }
                if m.values().contains(x) {
                    let key = choose|key: Seq<char>| m.dom().contains(key) && m[key] == x;
                    table::lemma_entries_dom(e, key);
                    let j = choose|j: int| 0 <= j < e.len() && (#[trigger] e[j]).0 == key;
                    assert(e[j].0 == key);
                    assert(s[n + j] == x);
                }
            }
            assert(s.to_set() =~= self.deep_view().known());
        }
        out
    }

    /// The first address of an interface, or `0.0.0.0`.
    pub fn preferred_ip(&self) -> (r: &str)
        ensures
            r@ == self.deep_view().spec_preferred_ip(),
    {
        if self.interface_ips.len() > 0 {
            self.interface_ips[0].as_str()
        } else {
            "0.0.0.0"
        }
    }

    /// Whether no address is known.
    pub fn is_empty(&self) -> (r: bool)
        ensures
            r == self.deep_view().spec_is_empty(),
    {
        let ghost e = self.network_ips.entries.deep_view();
        proof {
            if e.len() > 0 {
                table::lemma_entries_dom(e, e[0].0);
                assert(self.network_ips.deep_view().dom().contains(e[0].0));
            }
        }
        self.interface_ips.len() == 0 && self.network_ips.entries.len() == 0
    }

    /// Whether an address is among those that this pod can bind.
    pub fn knows(&self, addr: &str) -> (r: bool)
        ensures
            r == self.deep_view().known().contains(addr@),
    {
        let all = self.all();
        let ghost s = all.deep_view();
        let mut i: usize = 0;
        while i < all.len()
            invariant
                i <= all.len(),
                s == all.deep_view(),
                s.to_set() == self.deep_view().known(),
                forall|j: int| 0 <= j < i ==> (#[trigger] s[j]) != addr@,
            decreases all.len() - i,
        {
            assert(s[i as int] == all@[i as int]@);
            if str_eq(all[i], addr) {
                assert(s.contains(addr@));
                assert(s.to_set().contains(addr@));
                return true;
            }
            i += 1;
        }
        assert(!s.contains(addr@));
        assert(!s.to_set().contains(addr@));
        false
    }
}

// ---------------------------------------------------------------------------
// Subnets
// ---------------------------------------------------------------------------

/// The value of one decimal part of an IPv4 address: one to three digits
/// without a leading zero, at most 255.
pub open spec fn octet(s: Seq<char>) -> Option<nat> {
    if 1 <= s.len() <= 3 && text::all_digits(s) && (s.len() == 1 || s[0] != '0')
        && text::digits_value(s) <= 255 {
        Some(text::digits_value(s))
    } else {
        None
    }
}

/// The number of a dotted IPv4 address with `parts` parts.
pub open spec fn dotted(s: Seq<char>, parts: nat) -> Option<nat>
    decreases parts,
{
    if parts == 0 {
        None
    } else if parts == 1 {
        octet(s)
    } else {
        let dot = text::last_index(s, '.');
        if dot < 0 {
            None
        } else {
            match (dotted(s.take(dot), (parts - 1) as nat), octet(s.skip(dot + 1))) {
                (Some(high), Some(low)) => Some(256 * high + low),
                _ => None,
            }
        }
    }
}

/// The number of a dotted IPv4 address.
pub open spec fn ipv4(s: Seq<char>) -> Option<nat> {
    dotted(s, 4)
}

fn parse_octet(v: &Vec<char>, from: usize, to: usize) -> (r: Option<u32>)
    requires
        from <= to <= v@.len(),
    ensures
        match r {
            Some(n) => octet(v@.subrange(from as int, to as int)) == Some(n as nat) && n <= 255,
            None => octet(v@.subrange(from as int, to as int)) is None,
        },
{
    if to - from > 3 || (to - from > 1 && v[from] == '0') {
        return None;
    }
    match parse_digits(v, from, to, 255) {
        Some(n) => Some(n as u32),
        None => None,
    }
}

fn last_dot(v: &Vec<char>, to: usize) -> (r: Option<usize>)
    requires
        to <= v@.len(),
    ensures
        match r {
            Some(i) => i == text::last_index(v@.take(to as int), '.') && i < to,
            None => text::last_index(v@.take(to as int), '.') < 0,
        },
{
    let mut i: usize = to;
    while i > 0
        invariant
            i <= to <= v@.len(),
            text::last_index(v@.take(to as int), '.') == text::last_index(v@.take(i as int), '.'),
        decreases i,
    {
        assert(v@.take(i as int).drop_last() =~= v@.take(i - 1));
        if v[i - 1] == '.' {
            return Some(i - 1);
        }
        i -= 1;
    }
    None
}

/// The number of the dotted address in the first `to` characters.
fn parse_ipv4_chars(v: &Vec<char>, to: usize) -> (r: Option<u32>)
    requires
        to <= v@.len(),
    ensures
        match r {
            Some(n) => ipv4(v@.take(to as int)) == Some(n as nat),
            None => ipv4(v@.take(to as int)) is None,
        },
{
    reveal_with_fuel(dotted, 5);
    let d3 = match last_dot(v, to) {
        Some(i) => i,
        None => return None,
    };
    assert(v@.take(to as int).take(d3 as int) =~= v@.take(d3 as int));
    assert(v@.take(to as int).skip(d3 + 1) =~= v@.subrange(d3 + 1, to as int));
    let d2 = match last_dot(v, d3) {
        Some(i) => i,
        None => return None,
    };
    assert(v@.take(d3 as int).take(d2 as int) =~= v@.take(d2 as int));
    assert(v@.take(d3 as int).skip(d2 + 1) =~= v@.subrange(d2 + 1, d3 as int));
    let d1 = match last_dot(v, d2) {
        Some(i) => i,
        None => return None,
    };
    assert(v@.take(d2 as int).take(d1 as int) =~= v@.take(d1 as int));
    assert(v@.take(d2 as int).skip(d1 + 1) =~= v@.subrange(d1 + 1, d2 as int));
    assert(v@.take(d1 as int) =~= v@.subrange(0, d1 as int));
    let a = parse_octet(v, 0, d1);
    let b = parse_octet(v, d1 + 1, d2);
    let c = parse_octet(v, d2 + 1, d3);
    let d = parse_octet(v, d3 + 1, to);
    match (a, b, c, d) {
        (Some(a), Some(b), Some(c), Some(d)) => Some(256 * (256 * (256 * a + b) + c) + d),
        _ => None,
    }
}

/// The number of a dotted IPv4 address.
pub fn parse_ipv4(s: &str) -> (r: Option<u32>)
    ensures
        match r {
            Some(n) => ipv4(s@) == Some(n as nat),
            None => ipv4(s@) is None,
        },
{
    let v = chars_of(s);
    assert(v@.take(v@.len() as int) =~= s@);
    parse_ipv4_chars(&v, v.len())
}

/// The address and prefix length of a subnet: what stands before and behind
/// the first slash.
pub open spec fn cidr(s: Seq<char>) -> Option<(nat, nat)> {
    let slash = text::first_index(s, '/');
    if slash >= s.len() {
        None
    } else {
        match (ipv4(s.take(slash)), text::unsigned_value(s.skip(slash + 1))) {
            (Some(addr), Some(len)) => if len <= u32::MAX {
                Some((addr, len))
            } else {
                None
            },
            _ => None,
        }
    }
}

/// The address and prefix length of a subnet such as `10.128.0.0/14`.
pub fn parse_cidr(text: &str) -> (r: Option<(u32, u32)>)
    ensures
        match r {
            Some((addr, len)) => cidr(text@) == Some((addr as nat, len as nat)),
            None => cidr(text@) is None,
        },
{
    let v = chars_of(text);
    let slash = match find_first(&v, '/') {
        Some(i) => i,
        None => return None,
    };
    let len_text = text.substring_char(slash + 1, v.len());
    assert(len_text@ =~= text@.skip(slash + 1));
    match (
        parse_ipv4_chars(&v, slash),
        text::parse_unsigned(len_text, 4_294_967_295),
    ) {
        (Some(addr), Some(len)) => Some((addr, len as u32)),
        _ => None,
    }
}

/// Whether two addresses agree on their first `prefix_len` bits. No prefix is
/// longer than an address.
pub open spec fn same_subnet(ip: u32, network: u32, prefix_len: u32) -> bool {
    prefix_len <= 32 && (prefix_len == 0 || ip >> ((32 - prefix_len) as u32) == network >> ((32
        - prefix_len) as u32))
}

/// Whether `ip` lies in the subnet of `network`. A prefix length that no
/// address has is met by none.
pub fn ip_in_subnet(ip: u32, network: u32, prefix_len: u32) -> (r: bool)
    ensures
        r == same_subnet(ip, network, prefix_len),
{
    if prefix_len > 32 {
        return false;
    }
    if prefix_len == 0 {
        return true;
    }
    let shift: u32 = 32 - prefix_len;
    let mask: u32 = 0xffff_ffffu32 << shift;
    assert((ip & mask == network & mask) == (ip >> shift == network >> shift)) by (bit_vector)
        requires
            shift < 32,
            mask == 0xffff_ffffu32 << shift,
    ;
    ip & mask == network & mask
}

/// The first of the addresses in the subnet.
pub open spec fn first_in_subnet(ips: Seq<Seq<char>>, network: u32, prefix_len: u32) -> Option<
    Seq<char>,
>
    decreases ips.len(),
{
    if ips.len() == 0 {
        None
    } else if ipv4(ips.first()) is Some && same_subnet(
        ipv4(ips.first())->0 as u32,
        network,
        prefix_len,
    ) {
        Some(ips.first())
    } else {
        first_in_subnet(ips.drop_first(), network, prefix_len)
    }
}

/// The first local address in a subnet written as text.
pub open spec fn local_ip_in(subnet: Seq<char>, ips: Seq<Seq<char>>) -> Option<Seq<char>> {
    match cidr(subnet) {
        Some((addr, len)) => first_in_subnet(ips, addr as u32, len as u32),
        None => None,
    }
}

/// The first of the local addresses that lies in the subnet `subnet`.
pub fn match_local_ip(subnet: &str, local_ips: &Vec<String>) -> (r: Option<String>)
    ensures
        r.deep_view() == local_ip_in(subnet@, local_ips.deep_view()),
{
    let (network, prefix_len) = match parse_cidr(subnet) {
        Some(x) => x,
        None => return None,
    };
    let ghost s = local_ips.deep_view();
    let mut i: usize = 0;
    assert(s.skip(0) =~= s);
    while i < local_ips.len()
        invariant
            i <= local_ips.len(),
            s == local_ips.deep_view(),
            local_ip_in(subnet@, s) == first_in_subnet(s.skip(i as int), network, prefix_len),
        decreases local_ips.len() - i,
    {
        proof {
            assert(s.skip(i as int).first() == local_ips@[i as int]@);
            assert(s.skip(i as int).drop_first() =~= s.skip(i + 1));
        }
        if let Some(ip) = parse_ipv4(local_ips[i].as_str()) {
            if ip_in_subnet(ip, network, prefix_len) {
                return Some(local_ips[i].clone());
            }
        }
        i += 1;
    }
    None
}

/// The string that `serde_json` finds under `key` in the JSON object `doc`;
/// none where the text is no JSON, no object, or has no such string.
pub uninterp spec fn json_text_member(doc: Seq<char>, key: Seq<char>) -> Option<Seq<char>>;

/// Reads the string under `key` of a JSON object with `serde_json::from_str`.
/// Trusted: what comes back depends on the two texts alone; which string it is
/// is left to the crate.
#[verifier::external_body]
fn text_member(doc: &str, key: &str) -> (r: Option<String>)
    ensures
        r.deep_view() == json_text_member(doc@, key@),
{
    let value: serde_json::Value = serde_json::from_str(doc).ok()?;
    value[key].as_str().map(|s| s.to_owned())
}

/// This pod's address on a network, by the network's configuration: the first
/// local address in the subnet that the configuration names.
pub fn network_local_ip(config: &str, local_ips: &Vec<String>) -> (r: Option<String>)
    ensures
        r.deep_view() == match json_text_member(config@, "subnets"@) {
            Some(subnet) => local_ip_in(subnet, local_ips.deep_view()),
            None => None,
        },
{
    match text_member(config, "subnets") {
        Some(subnet) => match_local_ip(subnet.as_str(), local_ips),
        None => None,
    }
}

// ---------------------------------------------------------------------------
// Requested addresses
// ---------------------------------------------------------------------------

impl GatewayAddressesView {
    /// The network that the address names, if it is of that type.
    pub open spec fn network_name(self) -> Option<Seq<char>> {
        if self.type_ == Some(NETWORK_ADDRESS_TYPE@) {
            Some(text::or_text(self.value, ""@))
        } else {
            None
        }
    }
}

impl GatewayView {
    /// The networks that the Gateway asks to be bound on, in order.
    pub open spec fn network_names(self) -> Seq<Seq<char>> {
        match self.spec.addresses {
            Some(addrs) => addrs.filter_map(|a: GatewayAddressesView| a.network_name()),
            None => Seq::empty(),
        }
    }
}

fn network_name_of(a: &GatewayAddresses) -> (r: Option<String>)
    ensures
        r.deep_view() == a.deep_view().network_name(),
{
    if opt_is(&a.type_, NETWORK_ADDRESS_TYPE) {
        Some(opt_or(&a.value, "").to_owned())
    } else {
        None
    }
}

/// The networks that a Gateway asks to be bound on, to be looked up one by
/// one.
pub fn network_names(gateway: &Gateway) -> (r: Vec<String>)
    ensures
        r.deep_view() == gateway.deep_view().network_names(),
{
    let r = match &gateway.spec.addresses {
        Some(addrs) => filter_map_vec(
            addrs,
            network_name_of,
            Ghost(|a: GatewayAddressesView| a.network_name()),
        ),
        None => Vec::new(),
    };
    assert(r.deep_view() =~= gateway.deep_view().network_names());
    r
}

/// The bind targets among the addresses: those that this pod has. Others are
/// reached through a load balancer, and are not bound here.
pub fn compute_bind_addresses(addresses: &Vec<String>, usable: &UsableAddresses) -> (r: Vec<String>)
    ensures
        r.deep_view() == addresses.deep_view().filter(
            |a: Seq<char>| usable.deep_view().known().contains(a),
        ),
{
    let ghost g = |a: Seq<char>| usable.deep_view().known().contains(a);
    filter_vec(
        addresses,
        |a: &String| -> (o: bool)
            ensures
                o == g(a.deep_view())
            { usable.knows(a.as_str()) },
        Ghost(g),
    )
}

impl UsableAddressesView {
    /// The address to use for a requested one: the local address on a network
    /// of that name, or the address itself.
    pub open spec fn substitute(self, addr: Seq<char>) -> Seq<char> {
        if self.network_ips.dom().contains(addr) {
            self.network_ips[addr]
        } else {
            addr
        }
    }
}

/// The addresses with the names of networks replaced by local addresses on
/// them.
pub fn substitute_network_addresses(addresses: &Vec<String>, usable: &UsableAddresses) -> (r: Vec<
    String,
>)
    ensures
        r.deep_view() == addresses.deep_view().map_values(
            |a: Seq<char>| usable.deep_view().substitute(a),
        ),
{
    let ghost g = |a: Seq<char>| usable.deep_view().substitute(a);
    map_vec(
        addresses,
        |a: &String| -> (o: String)
            ensures
                o.deep_view() == g(a.deep_view())
            {
                match usable.network_ips.get(a) {
                    Some(ip) => ip.clone(),
                    None => a.clone(),
                }
            },
        Ghost(g),
    )
}

// ---------------------------------------------------------------------------
// Interfaces
// ---------------------------------------------------------------------------

/// Whether an interface address can be bound for outside traffic: it is not a
/// loopback address (127.0.0.0/8).
pub fn is_bindable_ipv4(addr: u32) -> (r: bool)
    ensures
        r == !same_subnet(addr, 0x7f00_0000, 8),
        r == !(0x7f00_0000 <= addr <= 0x7fff_ffff),
{
    assert(addr >> 24u32 == 0x7f00_0000u32 >> 24u32 <==> (0x7f00_0000u32 <= addr && addr
        <= 0x7fff_ffffu32)) by (bit_vector);
    !ip_in_subnet(addr, 0x7f00_0000, 8)
}

/// Whether the segments are those of the loopback address `::1`.
pub open spec fn ipv6_loopback(s: Seq<u16>) -> bool {
    s == seq![0u16, 0u16, 0u16, 0u16, 0u16, 0u16, 0u16, 1u16]
}

/// Whether an interface address can be bound for outside traffic: it is
/// neither the loopback address nor link-local (fe80::/10).
pub fn is_bindable_ipv6(segments: &[u16; 8]) -> (r: bool)
    ensures
        r == (!ipv6_loopback(segments@) && segments@[0] & 0xffc0u16 != 0xfe80u16),
        0xfe80 <= segments@[0] <= 0xfebf ==> !r,
        !r ==> (0xfe80 <= segments@[0] <= 0xfebf) || segments@[7] == 1 && forall|i: int|
            0 <= i < 7 ==> #[trigger] segments@[i] == 0,
{
    let first: u16 = segments[0];
    assert(first & 0xffc0u16 == 0xfe80u16 <==> (0xfe80u16 <= first && first <= 0xfebfu16))
        by (bit_vector);
    let loopback = segments[0] == 0 && segments[1] == 0 && segments[2] == 0 && segments[3] == 0
        && segments[4] == 0 && segments[5] == 0 && segments[6] == 0 && segments[7] == 1;
    proof {
        let want = seq![0u16, 0u16, 0u16, 0u16, 0u16, 0u16, 0u16, 1u16];
        if loopback {
            assert(segments@ =~= want);
        } else if segments@ == want {
            assert(want[0] == 0 && want[1] == 0 && want[2] == 0 && want[3] == 0 && want[4] == 0
                && want[5] == 0 && want[6] == 0 && want[7] == 1);
        }
    }
    !loopback && segments[0] & 0xffc0u16 != 0xfe80u16
}

// ---------------------------------------------------------------------------
// Laws
// ---------------------------------------------------------------------------

/// Every address lies in a subnet without a prefix.
pub proof fn law_empty_prefix_matches_all(ip: u32, network: u32)
    ensures
        same_subnet(ip, network, 0),
{
}

/// A full prefix is met by the address itself alone.
pub proof fn law_full_prefix_is_equality(ip: u32, network: u32)
    ensures
        same_subnet(ip, network, 32) == (ip == network),
{
    assert(ip >> 0u32 == ip) by (bit_vector);
    assert(network >> 0u32 == network) by (bit_vector);
}

/// No address meets a prefix that is longer than an address.
pub proof fn law_oversized_prefix_rejected(ip: u32, network: u32, prefix_len: u32)
    requires
        prefix_len > 32,
    ensures
        !same_subnet(ip, network, prefix_len),
{
}

/// An address in a subnet lies in every wider subnet of the same network.
pub proof fn law_shorter_prefix_is_wider(ip: u32, network: u32, shorter: u32, longer: u32)
    requires
        shorter <= longer,
        same_subnet(ip, network, longer),
    ensures
        same_subnet(ip, network, shorter),
{
    if shorter > 0 {
        let a = (32 - shorter) as u32;
        let b = (32 - longer) as u32;
        assert(ip >> a == network >> a) by (bit_vector)
            requires
                ip >> b == network >> b,
                b <= a < 32,
        ;
    }
}

/// Bind targets are requested addresses that this pod has, and every such
/// address is one.
pub proof fn law_bind_addresses(addresses: Seq<Seq<char>>, usable: UsableAddressesView, a: Seq<char>)
    ensures
        addresses.filter(|x: Seq<char>| usable.known().contains(x)).contains(a) <==> (
        addresses.contains(a) && usable.known().contains(a)),
{
    let p = |x: Seq<char>| usable.known().contains(x);
    let kept = addresses.filter(p);
    addresses.filter_lemma(p);
    if kept.contains(a) {
        addresses.lemma_filter_contains_rev(p, a);
        let j = choose|j: int| 0 <= j < kept.len() && kept[j] == a;
        assert(p(kept[j]));
    }
    if addresses.contains(a) && usable.known().contains(a) {
        let j = choose|j: int| 0 <= j < addresses.len() && addresses[j] == a;
        assert(p(addresses[j]));
        assert(kept.contains(addresses[j]));
    }
}

/// The notation of a number with so many parts.
spec fn dotted_text(n: nat, parts: nat) -> Seq<char>
    decreases parts,
{
    if parts <= 1 {
        text::decimal(n)
    } else {
        dotted_text(n / 256, (parts - 1) as nat) + seq!['.'] + text::decimal(n % 256)
    }
}

/// How many numbers there are with so many parts.
spec fn dotted_range(parts: nat) -> nat
    decreases parts,
{
    if parts == 0 {
        1
    } else {
        256 * dotted_range((parts - 1) as nat)
    }
}

proof fn lemma_octet_text(n: nat)
    ensures
        n <= 255 ==> octet(text::decimal(n)) == Some(n),
        forall|i: int| 0 <= i < text::decimal(n).len() ==> #[trigger] text::decimal(n)[i] != '.',
{
    text::law_decimal_round_trip(n);
    let s = text::decimal(n);
    assert(s[0] != '+');
    assert forall|i: int| 0 <= i < s.len() implies text::is_digit(#[trigger] s[i]) by {}
    if n <= 255 {
        reveal_with_fuel(text::decimal, 4);
        assert(s.len() <= 3);
    }
}

proof fn lemma_text_of_octet(s: Seq<char>)
    requires
        octet(s) is Some,
    ensures
        text::decimal(octet(s)->0) == s,
        octet(s)->0 <= 255,
{
    assert forall|i: int| 0 <= i < s.len() implies '0' <= #[trigger] s[i] <= '9' by {
        assert(text::is_digit(s[i]));
    }
    text::law_decimal_is_unique(s);
}

proof fn lemma_dotted_text(n: nat, parts: nat)
    requires
        parts >= 1,
        n < dotted_range(parts),
    ensures
        dotted(dotted_text(n, parts), parts) == Some(n),
    decreases parts,
{
    if parts == 1 {
        reveal_with_fuel(dotted_range, 2);
        lemma_octet_text(n);
    } else {
        let high = dotted_text(n / 256, (parts - 1) as nat);
        let low = text::decimal(n % 256);
        let s = dotted_text(n, parts);
        assert(n / 256 < dotted_range((parts - 1) as nat));
        lemma_dotted_text(n / 256, (parts - 1) as nat);
        lemma_octet_text(n % 256);
        text::lemma_last_index(s, '.');
        let dot = text::last_index(s, '.');
        assert(s[high.len() as int] == '.');
        assert(forall|i: int| 0 <= i < low.len() ==> s[high.len() + 1 + i] == #[trigger] low[i]);
        if dot > high.len() {
            assert(s[dot] == low[dot - high.len() - 1]);
        }
        assert(dot == high.len());
        assert(s.take(dot) =~= high);
        assert(s.skip(dot + 1) =~= low);
    }
}

proof fn lemma_text_of_dotted(s: Seq<char>, parts: nat)
    requires
        dotted(s, parts) is Some,
    ensures
        parts >= 1,
        dotted(s, parts)->0 < dotted_range(parts),
        s == dotted_text(dotted(s, parts)->0, parts),
    decreases parts,
{
    if parts == 1 {
        reveal_with_fuel(dotted_range, 2);
        lemma_text_of_octet(s);
    } else {
        let dot = text::last_index(s, '.');
        text::lemma_last_index(s, '.');
        lemma_text_of_dotted(s.take(dot), (parts - 1) as nat);
        lemma_text_of_octet(s.skip(dot + 1));
        let n = dotted(s, parts)->0;
        let high = dotted(s.take(dot), (parts - 1) as nat)->0;
        let low = octet(s.skip(dot + 1))->0;
        assert(n / 256 == high && n % 256 == low);
        assert(s =~= s.take(dot) + seq!['.'] + s.skip(dot + 1));
    }
}

/// The notation of an IPv4 address: its four bytes in decimal, the highest
/// first, with dots between them.
pub open spec fn ipv4_text(n: nat) -> Seq<char> {
    text::decimal(n / 0x100_0000) + seq!['.'] + text::decimal(n / 0x1_0000 % 256) + seq!['.']
        + text::decimal(n / 0x100 % 256) + seq!['.'] + text::decimal(n % 256)
}

proof fn lemma_ipv4_text(n: nat)
    ensures
        dotted_text(n, 4) == ipv4_text(n),
        dotted_range(4) == 0x1_0000_0000,
{
    reveal_with_fuel(dotted_text, 5);
    reveal_with_fuel(dotted_range, 5);
    assert(n / 256 / 256 == n / 0x1_0000);
    assert(n / 256 / 256 / 256 == n / 0x100_0000);
}

/// An address reads as the number that its notation stands for.
pub proof fn law_addresses_are_read(n: nat)
    ensures
        n <= u32::MAX ==> ipv4(ipv4_text(n)) == Some(n),
        n > u32::MAX ==> ipv4(ipv4_text(n)) is None,
{
    lemma_ipv4_text(n);
    if n <= u32::MAX {
        lemma_dotted_text(n, 4);
    } else if ipv4(ipv4_text(n)) is Some {
        let s = ipv4_text(n);
        let m = ipv4(s)->0;
        lemma_text_of_dotted(s, 4);
        lemma_ipv4_text(m);
        lemma_too_large(n, 4);
    }
}

proof fn lemma_too_large(n: nat, parts: nat)
    requires
        parts >= 1,
        n >= dotted_range(parts),
    ensures
        dotted(dotted_text(n, parts), parts) is None,
    decreases parts,
{
    let s = dotted_text(n, parts);
    if parts == 1 {
        reveal_with_fuel(dotted_range, 2);
        if octet(s) is Some {
            text::law_decimal_round_trip(n);
            assert(s[0] != '+');
        }
    } else {
        let high = dotted_text(n / 256, (parts - 1) as nat);
        let low = text::decimal(n % 256);
        assert(n / 256 >= dotted_range((parts - 1) as nat));
        lemma_too_large(n / 256, (parts - 1) as nat);
        lemma_octet_text(n % 256);
        text::lemma_last_index(s, '.');
        let dot = text::last_index(s, '.');
        assert(s[high.len() as int] == '.');
        assert(forall|i: int| 0 <= i < low.len() ==> s[high.len() + 1 + i] == #[trigger] low[i]);
        if dot > high.len() {
            assert(s[dot] == low[dot - high.len() - 1]);
        }
        assert(dot == high.len());
        assert(s.take(dot) =~= high);
    }
}

/// No other text is an address: there is one notation for each.
pub proof fn law_address_notation_is_unique(s: Seq<char>)
    requires
        ipv4(s) is Some,
    ensures
        ipv4(s)->0 <= u32::MAX,
        s == ipv4_text(ipv4(s)->0),
{
    lemma_text_of_dotted(s, 4);
    lemma_ipv4_text(ipv4(s)->0);
}

/// A subnet is an address, a slash and a number; a text without a slash is
/// none, and neither is one whose parts cannot be read.
pub proof fn law_subnets_are_read(before: Seq<char>, after: Seq<char>)
    requires
        !before.contains('/'),
    ensures
        cidr(before) is None,
        ({
            let r = cidr(before + seq!['/'] + after);
            let addr = ipv4(before);
            let len = text::unsigned_value(after);
            &&& r is Some <==> addr is Some && len is Some && len->0 <= u32::MAX
            &&& r is Some ==> r == Some((addr->0, len->0))
        }),
{
    let s = before + seq!['/'] + after;
    assert(forall|i: int| 0 <= i < before.len() ==> before.contains(#[trigger] before[i]));
    text::lemma_first_index(before, '/');
    text::lemma_first_index(s, '/');
    assert(s[before.len() as int] == '/');
    assert(forall|i: int| 0 <= i < before.len() ==> s[i] == #[trigger] before[i]);
    assert(text::first_index(s, '/') == before.len());
    assert(s.take(before.len() as int) =~= before);
    assert(s.skip(before.len() as int + 1) =~= after);
}

/// Two addresses agree on a prefix where they agree on everything above the
/// bits that it leaves.
pub proof fn law_subnets_by_division(ip: u32, network: u32, prefix_len: u32)
    requires
        0 < prefix_len <= 32,
    ensures
        same_subnet(ip, network, prefix_len) <==> ip as nat / vstd::arithmetic::power2::pow2(
            (32 - prefix_len) as nat,
        ) == network as nat / vstd::arithmetic::power2::pow2((32 - prefix_len) as nat),
{
    let k = (32 - prefix_len) as u32;
    if k < 32 {
        vstd::bits::lemma_u32_shr_is_div(ip, k);
        vstd::bits::lemma_u32_shr_is_div(network, k);
    }
}

/// The address in a subnet is the first of those that lie in it.
pub proof fn law_first_address_in_subnet(
    subnet: Seq<char>,
    before: Seq<Seq<char>>,
    ip: Seq<char>,
    after: Seq<Seq<char>>,
)
    ensures
        local_ip_in(subnet, Seq::empty()) is None,
        cidr(subnet) is None ==> local_ip_in(subnet, before) is None,
        local_ip_in(subnet, before) is Some ==> local_ip_in(subnet, before + seq![ip] + after)
            == local_ip_in(subnet, before),
        local_ip_in(subnet, before) is None && cidr(subnet) is Some ==> ({
            let network = (cidr(subnet)->0).0 as u32;
            let len = (cidr(subnet)->0).1 as u32;
            let r = local_ip_in(subnet, before + seq![ip] + after);
            if ipv4(ip) is Some && same_subnet(ipv4(ip)->0 as u32, network, len) {
                r == Some(ip)
            } else {
                r == local_ip_in(subnet, after)
            }
        }),
    decreases before.len(),
{
    let all = before + seq![ip] + after;
    if before.len() == 0 {
        assert(all.first() == ip);
        assert(all.drop_first() =~= after);
    } else {
        assert(all.first() == before.first());
        assert(all.drop_first() =~= before.drop_first() + seq![ip] + after);
        law_first_address_in_subnet(subnet, before.drop_first(), ip, after);
    }
}

/// The networks of a Gateway come one by one: an address of that type adds the
/// network that it names, any other adds nothing.
pub proof fn law_networks_one_by_one(
    g: GatewayView,
    addrs: Seq<GatewayAddressesView>,
    a: GatewayAddressesView,
)
    ensures
        ({
            let of = |list: Option<Seq<GatewayAddressesView>>|
                (GatewayView {
                    spec: crate::kubernetes::resources::GatewaySpecView {
                        addresses: list,
                        ..g.spec
                    },
                    ..g
                }).network_names();
            &&& of(None).len() == 0
            &&& of(Some(Seq::empty())).len() == 0
            &&& a.type_ == Some("portail.epheo.eu/Network"@) && a.value is Some ==> of(
                Some(addrs.push(a)),
            ) == of(Some(addrs)).push(a.value->0)
            &&& a.type_ == Some("portail.epheo.eu/Network"@) && a.value is None ==> of(
                Some(addrs.push(a)),
            ) == of(Some(addrs)).push(Seq::empty())
            &&& a.type_ != Some("portail.epheo.eu/Network"@) ==> of(Some(addrs.push(a))) == of(
                Some(addrs),
            )
        }),
{
    reveal_strlit("");
    assert(""@ =~= Seq::<char>::empty());
    let f = |x: GatewayAddressesView| x.network_name();
    reveal_with_fuel(Seq::filter_map, 2);
    let more = addrs.push(a);
    assert(more.drop_last() =~= addrs);
    assert(more.last() == a);
}

/// What this pod knows are the addresses of its interfaces and those on its
/// networks.
pub proof fn law_known_addresses(usable: UsableAddressesView, addr: Seq<char>)
    ensures
        usable.known().contains(addr) <==> usable.interface_ips.contains(addr) || exists|
            n: Seq<char>,
        |
            usable.network_ips.dom().contains(n) && #[trigger] usable.network_ips[n] == addr,
        usable.interface_ips.len() > 0 ==> usable.spec_preferred_ip() == usable.interface_ips[0],
        usable.interface_ips.len() == 0 ==> usable.spec_preferred_ip() == "0.0.0.0"@,
        usable.spec_is_empty() <==> forall|x: Seq<char>| !#[trigger] usable.known().contains(x),
{
    if usable.network_ips.values().contains(addr) {
        let n = choose|n: Seq<char>|
            usable.network_ips.dom().contains(n) && #[trigger] usable.network_ips[n] == addr;
        assert(usable.network_ips.dom().contains(n));
    }
    if forall|x: Seq<char>| !#[trigger] usable.known().contains(x) {
        if usable.interface_ips.len() > 0 {
            assert(usable.interface_ips.contains(usable.interface_ips[0]));
            assert(usable.known().contains(usable.interface_ips[0]));
        }
        assert forall|n: Seq<char>| !#[trigger] usable.network_ips.dom().contains(n) by {
            if usable.network_ips.dom().contains(n) {
                assert(usable.network_ips.values().contains(usable.network_ips[n]));
                assert(usable.known().contains(usable.network_ips[n]));
            }
        }
        assert(usable.network_ips =~= Map::<Seq<char>, Seq<char>>::empty());
    }
}

/// The name of a network stands for the local address on it; anything else
/// stands for itself.
pub proof fn law_substitution(usable: UsableAddressesView, addr: Seq<char>)
    ensures
        usable.network_ips.dom().contains(addr) ==> usable.substitute(addr)
            == usable.network_ips[addr],
        !usable.network_ips.dom().contains(addr) ==> usable.substitute(addr) == addr,
{
}

/// The loopback address has a one in its last segment and nothing else.
pub proof fn law_ipv6_loopback(s: Seq<u16>)
    requires
        s.len() == 8,
    ensures
        ipv6_loopback(s) <==> s[7] == 1 && forall|i: int| 0 <= i < 7 ==> #[trigger] s[i] == 0,
{
    let want = seq![0u16, 0u16, 0u16, 0u16, 0u16, 0u16, 0u16, 1u16];
    if s[7] == 1 && forall|i: int| 0 <= i < 7 ==> #[trigger] s[i] == 0 {
        assert(s =~= want);
    }
}

/// The address on a network lies in the subnet that its configuration names;
/// without such a subnet there is none.
pub proof fn law_network_addresses(config: &str, local_ips: &Vec<String>, r: Option<String>)
    requires
        call_ensures(network_local_ip, (config, local_ips), r),
    ensures
        json_text_member(config@, "subnets"@) is None ==> r is None,
        json_text_member(config@, "subnets"@) is Some ==> r.deep_view() == local_ip_in(
            json_text_member(config@, "subnets"@)->0,
            local_ips.deep_view(),
        ),
        r is Some ==> local_ips.deep_view().contains(r->0@),
{
    if json_text_member(config@, "subnets"@) is Some {
        lemma_local_ip_is_local(
            json_text_member(config@, "subnets"@)->0,
            local_ips.deep_view(),
        );
    }
}

proof fn lemma_local_ip_is_local(subnet: Seq<char>, ips: Seq<Seq<char>>)
    ensures
        local_ip_in(subnet, ips) is Some ==> ips.contains(local_ip_in(subnet, ips)->0),
    decreases ips.len(),
{
    if ips.len() > 0 {
        let rest = ips.drop_first();
        lemma_local_ip_is_local(subnet, rest);
        assert(ips.contains(ips[0]));
        if local_ip_in(subnet, rest) is Some {
            let x = local_ip_in(subnet, rest)->0;
            let i = choose|i: int| 0 <= i < rest.len() && rest[i] == x;
            assert(ips[i + 1] == x);
        }
    }
}

} // verus!
