//! The address of a client, behind proxies.

use vstd::arithmetic::power2::*;
use vstd::prelude::*;
use vstd::string::*;
use crate::text;
use crate::text::{eq_ignore_ascii_case, split_at_char, trim};

verus! {

/// The first of the trimmed pieces that is not empty.
pub open spec fn first_hop(pieces: Seq<Seq<char>>) -> Option<Seq<char>>
    decreases pieces.len(),
{
    if pieces.len() == 0 {
        None
    } else {
        let piece = text::trimmed(pieces[0]);
        if piece.len() > 0 {
            Some(piece)
        } else {
            first_hop(pieces.skip(1))
        }
    }
}

/// The client that a list of hops begins with.
pub fn forwarded_client_ip(value: &str) -> (r: Option<String>)
    ensures
        text::opt_view(r) == first_hop(text::split(value@, ',')),
{
    let pieces = split_at_char(value, ',');
    let ghost all = text::views(pieces@);
    let mut i: usize = 0;
    assert(all.skip(0) =~= all);
    while i < pieces.len()
        invariant
            i <= pieces@.len(),
            all == text::views(pieces@),
            all == text::split(value@, ','),
            first_hop(all) == first_hop(all.skip(i as int)),
        decreases pieces@.len() - i,
    {
        let hop = trim(pieces[i].as_str());
        assert(all.skip(i as int)[0] == pieces@[i as int]@);
        assert(all.skip(i as int).skip(1) =~= all.skip(i as int + 1));
        if !hop.as_str().is_empty() {
            return Some(hop);
        }
        i = i + 1;
    }
    None
}

/// An address of the internet, as the number that its bits write.
#[derive(Debug, Clone, Copy, PartialEq, Eq, Structural)]
pub enum Address {
    /// An address of 32 bits.
    V4(u32),
    /// An address of 128 bits.
    V6(u128),
}

/// The machine at the other end of a connection.
#[derive(Debug)]
pub struct Peer {
    /// Its address.
    pub address: Address,
    /// Its address in writing.
    pub name: String,
}

/// A network: the addresses that begin with the same bits.
#[derive(Debug, Clone, Copy, PartialEq, Eq, Structural)]
pub enum Network {
    /// Addresses of 32 bits.
    V4 {
        /// One of the addresses.
        bits: u32,
        /// How many bits they share.
        prefix: u8,
    },
    /// Addresses of 128 bits.
    V6 {
        /// One of the addresses.
        bits: u128,
        /// How many bits they share.
        prefix: u8,
    },
}

impl Network {
    /// Whether the addresses have as many bits as they share.
    pub open spec fn wf(self) -> bool {
        match self {
            Network::V4 { prefix, .. } => prefix <= 32,
            Network::V6 { prefix, .. } => prefix <= 128,
        }
    }
}

/// The network that a text writes in the form of an address, a slash and a number of
/// bits, where it writes one.
pub uninterp spec fn network_of(cidr: Seq<char>) -> Option<Network>;

/// `ipnet::IpNet::from_str`: the network that the text writes, and nothing where it
/// writes none; a network shares no more bits than its addresses have.
#[verifier::external_body]
fn parse_network(cidr: &str) -> (r: Option<Network>)
    ensures
        r == network_of(cidr@),
        r is Some ==> r->Some_0.wf(),
{
    match cidr.parse::<ipnet::IpNet>().ok()? {
        ipnet::IpNet::V4(network) => Some(
            Network::V4 { bits: network.addr().into(), prefix: network.prefix_len() },
        ),
        ipnet::IpNet::V6(network) => Some(
            Network::V6 { bits: network.addr().into(), prefix: network.prefix_len() },
        ),
    }
}

/// Whether two numbers agree in all but their last bits.
pub open spec fn agree_above(a: nat, b: nat, last: nat) -> bool {
    a / pow2(last) == b / pow2(last)
}

/// Whether two numbers agree in all but their last bits.
fn agrees_above(a: u128, b: u128, last: u8) -> (r: bool)
    requires
        last <= 128,
    ensures
        r == agree_above(a as nat, b as nat, last as nat),
{
    proof {
        lemma2_to64();
        lemma2_to64_rest();
        lemma_pow2_adds(64, 64);
    }
    if last == 128 {
        assert(pow2(128) == 0x1_0000_0000_0000_0000nat * 0x1_0000_0000_0000_0000nat);
        assert(a as nat / pow2(128) == 0 && b as nat / pow2(128) == 0);
        return true;
    }
    let mut unit: u128 = 1;
    let mut i: u8 = 0;
    while i < last
        invariant
            i <= last < 128,
            unit == pow2(i as nat),
        decreases last - i,
    {
        proof {
            lemma2_to64();
            lemma2_to64_rest();
            lemma_pow2_adds(64, 63);
            lemma_pow2_unfold((i + 1) as nat);
            if i + 1 < 127 {
                lemma_pow2_strictly_increases((i + 1) as nat, 127);
            }
        }
        unit = unit * 2;
        i = i + 1;
    }
    proof {
        lemma_pow2_pos(last as nat);
    }
    a / unit == b / unit
}

/// Whether an address belongs to a network: it begins with the same bits.
pub open spec fn covers(network: Network, address: Address) -> bool {
    match (network, address) {
        (Network::V4 { bits, prefix }, Address::V4(ip)) => agree_above(
            bits as nat,
            ip as nat,
            (32 - prefix) as nat,
        ),
        (Network::V6 { bits, prefix }, Address::V6(ip)) => agree_above(
            bits as nat,
            ip as nat,
            (128 - prefix) as nat,
        ),
        _ => false,
    }
}

/// Whether an address belongs to a network.
pub fn network_contains(network: Network, address: Address) -> (r: bool)
    requires
        network.wf(),
    ensures
        r == covers(network, address),
{
    match (network, address) {
        (Network::V4 { bits, prefix }, Address::V4(ip)) => agrees_above(
            bits as u128,
            ip as u128,
            32 - prefix,
        ),
        (Network::V6 { bits, prefix }, Address::V6(ip)) => agrees_above(bits, ip, 128 - prefix),
        _ => false,
    }
}

/// Whether a text writes a network that the address belongs to.
pub open spec fn names_network_of(cidr: Seq<char>, address: Address) -> bool {
    match network_of(cidr) {
        Some(network) => covers(network, address),
        None => false,
    }
}

/// Whether a peer belongs to one of the networks whose proxies are trusted.
pub open spec fn trusts(peer: Option<Address>, trusted_proxy_cidrs: Seq<Seq<char>>) -> bool {
    peer is Some && exists|i: int|
        0 <= i < trusted_proxy_cidrs.len() && names_network_of(
            #[trigger] trusted_proxy_cidrs[i],
            peer->Some_0,
        )
}

/// Whether a peer belongs to one of the networks whose proxies are trusted; a text
/// that writes no network counts for none.
pub fn trusted_proxy_peer_with(peer: Option<Address>, trusted_proxy_cidrs: &Vec<String>) -> (r:
    bool)
    ensures
        r == trusts(peer, text::views(trusted_proxy_cidrs@)),
{
    let address = match peer {
        Some(address) => address,
        None => {
            return false;
        },
    };
    let ghost all = text::views(trusted_proxy_cidrs@);
    let mut i: usize = 0;
    while i < trusted_proxy_cidrs.len()
        invariant
            i <= trusted_proxy_cidrs@.len(),
            all == text::views(trusted_proxy_cidrs@),
            peer == Some(address),
            forall|j: int| 0 <= j < i ==> !names_network_of(#[trigger] all[j], address),
        decreases trusted_proxy_cidrs@.len() - i,
    {
        assert(all[i as int] == trusted_proxy_cidrs@[i as int]@);
        if let Some(network) = parse_network(trusted_proxy_cidrs[i].as_str()) {
            if network_contains(network, address) {
                return true;
            }
        }
        i = i + 1;
    }
    false
}

/// The address of a peer.
pub open spec fn peer_address(peer: Option<&Peer>) -> Option<Address> {
    match peer {
        Some(peer) => Some(peer.address),
        None => None,
    }
}

fn address_of(peer: Option<&Peer>) -> (r: Option<Address>)
    ensures
        r == peer_address(peer),
{
    match peer {
        Some(peer) => Some(peer.address),
        None => None,
    }
}

/// Whether a trusted proxy says that the client came over HTTPS.
pub open spec fn says_https(behind_proxy: bool, trusted_peer: bool, proto: Option<Seq<char>>) -> bool {
    &&& behind_proxy
    &&& trusted_peer
    &&& proto is Some
    &&& text::lower(text::trimmed(text::split(proto->Some_0, ',')[0])) == text::lower("https"@)
}

/// Whether a trusted proxy says that the client came over HTTPS.
pub fn forwarded_proto_is_https(
    proto: Option<&str>,
    peer: Option<&Peer>,
    behind_proxy: bool,
    trusted_proxy_cidrs: &Vec<String>,
) -> (r: bool)
    ensures
        r == says_https(
            behind_proxy,
            trusts(peer_address(peer), text::views(trusted_proxy_cidrs@)),
            text::opt_str(proto),
        ),
{
    if !behind_proxy || !trusted_proxy_peer_with(address_of(peer), trusted_proxy_cidrs) {
        return false;
    }
    match proto {
        Some(value) => {
            let pieces = split_at_char(value, ',');
            assert(text::views(pieces@)[0] == pieces@[0]@);
            let first = trim(pieces[0].as_str());
            eq_ignore_ascii_case(first.as_str(), "https")
        },
        None => false,
    }
}

/// The client that a trusted proxy names.
pub open spec fn named_client(
    behind_proxy: bool,
    trusted_peer: bool,
    real_ip: Option<Seq<char>>,
    forwarded_for: Option<Seq<char>>,
) -> Option<Seq<char>> {
    if !behind_proxy || !trusted_peer {
        None
    } else if real_ip is Some && text::trimmed(real_ip->Some_0).len() > 0 {
        Some(text::trimmed(real_ip->Some_0))
    } else {
        match forwarded_for {
            Some(value) => first_hop(text::split(value, ',')),
            None => None,
        }
    }
}

/// The client that a trusted proxy names.
pub fn forwarded_ip(
    behind_proxy: bool,
    trusted_peer: bool,
    real_ip: Option<&str>,
    forwarded_for: Option<&str>,
) -> (r: Option<String>)
    ensures
        text::opt_view(r) == named_client(
            behind_proxy,
            trusted_peer,
            text::opt_str(real_ip),
            text::opt_str(forwarded_for),
        ),
{
    if !behind_proxy || !trusted_peer {
        return None;
    }
    match real_ip {
        Some(value) => {
            let ip = trim(value);
            if !ip.as_str().is_empty() {
                return Some(ip);
            }
        },
        None => {},
    }
    match forwarded_for {
        Some(value) => forwarded_client_ip(value),
        None => None,
    }
}

/// The identity of a client: the token of its Tor stream, else what a trusted proxy
/// names, else the address of the peer.
pub open spec fn client_identity(
    tor_token: Option<Seq<char>>,
    named: Option<Seq<char>>,
    peer: Option<Seq<char>>,
) -> Seq<char> {
    match (tor_token, named, peer) {
        (Some(token), _, _) => token,
        (None, Some(ip), _) => ip,
        (None, None, Some(ip)) => ip,
        (None, None, None) => "unknown"@,
    }
}

/// The address of a peer in writing.
pub open spec fn peer_name(peer: Option<&Peer>) -> Option<Seq<char>> {
    match peer {
        Some(peer) => Some(peer.name@),
        None => None,
    }
}

/// The identity of a client. `real_ip` and `forwarded_for` are the headers in which
/// proxies name their clients.
pub fn resolved_client_ip(
    tor_token: Option<&str>,
    real_ip: Option<&str>,
    forwarded_for: Option<&str>,
    peer: Option<&Peer>,
    behind_proxy: bool,
    trusted_proxy_cidrs: &Vec<String>,
) -> (r: String)
    ensures
        r@ == client_identity(
            text::opt_str(tor_token),
            named_client(
                behind_proxy,
                trusts(peer_address(peer), text::views(trusted_proxy_cidrs@)),
                text::opt_str(real_ip),
                text::opt_str(forwarded_for),
            ),
            peer_name(peer),
        ),
{
    match tor_token {
        Some(token) => {
            return token.to_owned();
        },
        None => {},
    }
    let trusted = trusted_proxy_peer_with(address_of(peer), trusted_proxy_cidrs);
    match forwarded_ip(behind_proxy, trusted, real_ip, forwarded_for) {
        Some(ip) => ip,
        None => match peer {
            Some(peer) => peer.name.clone(),
            None => "unknown".to_owned(),
        },
    }
}

/// What a peer says of its client does not count unless the peer is a trusted proxy.
pub proof fn law_untrusted_peers_name_no_client(
    behind_proxy: bool,
    peer: &Peer,
    trusted_proxy_cidrs: Seq<Seq<char>>,
    real_ip: Option<Seq<char>>,
    forwarded_for: Option<Seq<char>>,
    proto: Option<Seq<char>>,
)
    requires
        !behind_proxy || forall|i: int|
            0 <= i < trusted_proxy_cidrs.len() ==> !names_network_of(
                #[trigger] trusted_proxy_cidrs[i],
                peer.address,
            ),
    ensures
        ({
            let trusted = trusts(peer_address(Some(peer)), trusted_proxy_cidrs);
            &&& client_identity(
                None,
                named_client(behind_proxy, trusted, real_ip, forwarded_for),
                peer_name(Some(peer)),
            ) == peer.name@
            &&& !says_https(behind_proxy, trusted, proto)
        }),
{
}

/// A network holds its own address, and one that shares all bits holds no other.
pub proof fn law_networks_hold_their_addresses(network: Network, address: Address)
    requires
        network.wf(),
    ensures
        match (network, address) {
            (Network::V4 { bits, prefix }, Address::V4(ip)) => (bits == ip ==> covers(
                network,
                address,
            )) && (prefix == 32 ==> (covers(network, address) <==> bits == ip)),
            (Network::V6 { bits, prefix }, Address::V6(ip)) => (bits == ip ==> covers(
                network,
                address,
            )) && (prefix == 128 ==> (covers(network, address) <==> bits == ip)),
            _ => !covers(network, address),
        },
{
    lemma2_to64();
    match (network, address) {
        (Network::V4 { bits, prefix }, Address::V4(ip)) => if prefix == 32 {
            assert(bits as nat / pow2(0) == bits && ip as nat / pow2(0) == ip);
        },
        (Network::V6 { bits, prefix }, Address::V6(ip)) => if prefix == 128 {
            assert(bits as nat / pow2(0) == bits && ip as nat / pow2(0) == ip);
        },
        _ => {},
    }
}

/// Where the first hop of a list is written: nothing but white space and commas stands
/// before it, no comma in it, and nothing but white space between it and the next comma
/// or the end.
pub open spec fn first_hop_stands_at(value: Seq<char>, i: int, j: int, k: int) -> bool {
    &&& 0 <= i < j <= k <= value.len()
    &&& forall|x: int| 0 <= x < i ==> text::is_space(#[trigger] value[x]) || value[x] == ','
    &&& !text::is_space(value[i])
    &&& !text::is_space(value[j - 1])
    &&& forall|x: int| i <= x < k ==> (#[trigger] value[x]) != ','
    &&& forall|x: int| j <= x < k ==> text::is_space(#[trigger] value[x])
    &&& k < value.len() ==> value[k] == ','
}

/// Where something is written in a text, with nothing but white space around it.
pub open spec fn written_at(value: Seq<char>, i: int, j: int) -> bool {
    &&& 0 <= i < j <= value.len()
    &&& !text::is_space(value[i])
    &&& !text::is_space(value[j - 1])
    &&& text::is_blank(value.take(i))
    &&& text::is_blank(value.skip(j))
}

proof fn lemma_first_comma(value: Seq<char>, from: int) -> (k: int)
    requires
        0 <= from <= value.len(),
    ensures
        from <= k <= value.len(),
        forall|x: int| from <= x < k ==> (#[trigger] value[x]) != ',',
        k < value.len() ==> value[k] == ',',
    decreases value.len() - from,
{
    if from == value.len() || value[from] == ',' {
        from
    } else {
        lemma_first_comma(value, from + 1)
    }
}

proof fn lemma_first_hop(value: Seq<char>, i: int, j: int, k: int)
    requires
        first_hop_stands_at(value, i, j, k),
    ensures
        first_hop(text::split(value, ',')) == Some(value.subrange(i, j)),
    decreases value.len(),
{
    let c = lemma_first_comma(value, 0);
    text::law_pieces_reach_to_the_separators(value, ',', c);
    text::lemma_split_nonempty(value, ',');
    let piece = value.take(c);
    if c > i {
        if c < k {
            assert(value[c] != ',');
        }
        if k < c {
            assert(value[k] == ',');
        }
        assert(c == k);
        assert forall|x: int| 0 <= x < i implies text::is_space(#[trigger] piece[x]) by {
            assert(piece[x] == value[x]);
        }
        assert forall|x: int| j <= x < piece.len() implies text::is_space(#[trigger] piece[x]) by {
            assert(piece[x] == value[x]);
        }
        text::law_trimming_keeps_what_is_between(piece, i, j);
        assert(piece.subrange(i, j) =~= value.subrange(i, j));
    } else {
        assert(c < i);
        assert forall|x: int| 0 <= x < piece.len() implies text::is_space(#[trigger] piece[x]) by {
            assert(piece[x] == value[x]);
        }
        text::law_trimming_keeps_what_is_between(piece, 0, 0);
        let rest = value.skip(c + 1);
        let d = c + 1;
        assert forall|x: int| 0 <= x < i - d implies text::is_space(#[trigger] rest[x]) || rest[x]
            == ',' by {
            assert(rest[x] == value[x + d]);
        }
        assert forall|x: int| i - d <= x < k - d implies (#[trigger] rest[x]) != ',' by {
            assert(rest[x] == value[x + d]);
        }
        assert forall|x: int| j - d <= x < k - d implies text::is_space(#[trigger] rest[x]) by {
            assert(rest[x] == value[x + d]);
        }
        assert(rest[i - d] == value[i] && rest[j - d - 1] == value[j - 1]);
        assert(k < value.len() ==> rest[k - d] == value[k]);
        lemma_first_hop(rest, i - d, j - d, k - d);
        assert(rest.subrange(i - d, j - d) =~= value.subrange(i, j));
    }
}

proof fn lemma_no_hop(value: Seq<char>)
    requires
        forall|x: int|
            0 <= x < value.len() ==> text::is_space(#[trigger] value[x]) || value[x] == ',',
    ensures
        first_hop(text::split(value, ',')) is None,
    decreases value.len(),
{
    let c = lemma_first_comma(value, 0);
    text::law_pieces_reach_to_the_separators(value, ',', c);
    text::lemma_split_nonempty(value, ',');
    let piece = value.take(c);
    assert forall|x: int| 0 <= x < piece.len() implies text::is_space(#[trigger] piece[x]) by {
        assert(piece[x] == value[x]);
    }
    text::law_trimming_keeps_what_is_between(piece, 0, 0);
    if c < value.len() {
        let rest = value.skip(c + 1);
        assert forall|x: int| 0 <= x < rest.len() implies text::is_space(#[trigger] rest[x])
            || rest[x] == ',' by {
            assert(rest[x] == value[x + c + 1]);
        }
        lemma_no_hop(rest);
    } else {
        let all = text::split(value, ',');
        assert(all.skip(1) =~= Seq::<Seq<char>>::empty());
        assert(first_hop(all.skip(1)) is None);
    }
}

/// Behind a proxy of a trusted network, a visitor without a Tor token is the one that
/// the proxy names: what stands in `X-Real-IP`, without the white space around it, and
/// else the first hop of `X-Forwarded-For` that is not blank, also without it. A proxy
/// that names nobody stands for the visitor itself.
pub proof fn law_trusted_proxies_name_the_client(
    peer: &Peer,
    trusted_proxy_cidrs: Seq<Seq<char>>,
    n: int,
    real_ip: Option<Seq<char>>,
    forwarded_for: Option<Seq<char>>,
    i: int,
    j: int,
    k: int,
)
    requires
        0 <= n < trusted_proxy_cidrs.len(),
        network_of(trusted_proxy_cidrs[n]) is Some,
        covers(network_of(trusted_proxy_cidrs[n])->Some_0, peer.address),
    ensures
        ({
            let client = client_identity(
                None,
                named_client(
                    true,
                    trusts(peer_address(Some(peer)), trusted_proxy_cidrs),
                    real_ip,
                    forwarded_for,
                ),
                peer_name(Some(peer)),
            );
            let blank = real_ip is None || text::is_blank(real_ip->Some_0);
            &&& real_ip is Some && written_at(real_ip->Some_0, i, j) ==> client
                == real_ip->Some_0.subrange(i, j)
            &&& blank && forwarded_for is Some && first_hop_stands_at(
                forwarded_for->Some_0,
                i,
                j,
                k,
            ) ==> client == forwarded_for->Some_0.subrange(i, j)
            &&& blank && (forwarded_for is None || forall|x: int|
                0 <= x < forwarded_for->Some_0.len() ==> text::is_space(
                    #[trigger] forwarded_for->Some_0[x],
                ) || forwarded_for->Some_0[x] == ',') ==> client == peer.name@
        }),
{
    assert(names_network_of(trusted_proxy_cidrs[n], peer.address));
    if let Some(value) = real_ip {
        if text::is_blank(value) {
            text::law_trimming_keeps_what_is_between(value, 0, 0);
        }
        if written_at(value, i, j) {
            assert forall|x: int| 0 <= x < i implies text::is_space(#[trigger] value[x]) by {
                assert(value.take(i)[x] == value[x]);
            }
            assert forall|x: int| j <= x < value.len() implies text::is_space(
                #[trigger] value[x],
            ) by {
                assert(value.skip(j)[x - j] == value[x]);
            }
            text::law_trimming_keeps_what_is_between(value, i, j);
        }
    }
    if let Some(value) = forwarded_for {
        if first_hop_stands_at(value, i, j, k) {
            lemma_first_hop(value, i, j, k);
        }
        if forall|x: int|
            0 <= x < value.len() ==> text::is_space(#[trigger] value[x]) || value[x] == ',' {
            lemma_no_hop(value);
        }
    }
}

/// The token of a Tor stream decides, whatever a proxy names and whoever the peer is;
/// and a visitor of whom nothing is known at all is unknown.
pub proof fn law_tor_tokens_come_first(
    token: Seq<char>,
    behind_proxy: bool,
    trusted_peer: bool,
    real_ip: Option<Seq<char>>,
    forwarded_for: Option<Seq<char>>,
    peer: Option<Seq<char>>,
)
    ensures
        client_identity(
            Some(token),
            named_client(behind_proxy, trusted_peer, real_ip, forwarded_for),
            peer,
        ) == token,
        client_identity(None, None, None) == "unknown"@,
{
}

/// A network holds a range of addresses of its kind: as many as its last bits can tell
/// apart, its own address among them, and the first of them a multiple of their number.
pub proof fn law_networks_are_ranges(network: Network, address: Address)
    requires
        network.wf(),
    ensures
        match (network, address) {
            (Network::V4 { bits, prefix }, Address::V4(ip)) => {
                let size = pow2((32 - prefix) as nat) as int;
                let first = bits as int - bits as int % size;
                covers(network, address) <==> first <= ip < first + size
            },
            (Network::V6 { bits, prefix }, Address::V6(ip)) => {
                let size = pow2((128 - prefix) as nat) as int;
                let first = bits as int - bits as int % size;
                covers(network, address) <==> first <= ip < first + size
            },
            _ => !covers(network, address),
        },
{
    match (network, address) {
        (Network::V4 { bits, prefix }, Address::V4(ip)) => {
            let size = pow2((32 - prefix) as nat);
            lemma_pow2_pos((32 - prefix) as nat);
            lemma_same_quotient(bits as int, ip as int, size as int);
        },
        (Network::V6 { bits, prefix }, Address::V6(ip)) => {
            let size = pow2((128 - prefix) as nat);
            lemma_pow2_pos((128 - prefix) as nat);
            lemma_same_quotient(bits as int, ip as int, size as int);
        },
        _ => {},
    }
}

proof fn lemma_same_quotient(a: int, b: int, n: int)
    by (nonlinear_arith)
    requires
        n > 0,
        a >= 0,
        b >= 0,
    ensures
        a / n == b / n <==> a - a % n <= b < a - a % n + n,
{
    assert(a == n * (a / n) + a % n);
    assert(b == n * (b / n) + b % n);
}

/// HTTPS is believed exactly where a trusted proxy writes it, in whatever case and with
/// whatever white space around it, before the first comma.
pub proof fn law_https_is_believed_of_trusted_proxies(
    behind_proxy: bool,
    trusted_peer: bool,
    proto: Seq<char>,
    i: int,
    j: int,
    k: int,
)
    requires
        0 <= i < j <= k <= proto.len(),
        forall|x: int| 0 <= x < i ==> text::is_space(#[trigger] proto[x]),
        !text::is_space(proto[i]),
        !text::is_space(proto[j - 1]),
        forall|x: int| 0 <= x < k ==> (#[trigger] proto[x]) != ',',
        forall|x: int| j <= x < k ==> text::is_space(#[trigger] proto[x]),
        k < proto.len() ==> proto[k] == ',',
    ensures
        says_https(behind_proxy, trusted_peer, Some(proto)) <==> {
            &&& behind_proxy
            &&& trusted_peer
            &&& j - i == 5
            &&& proto[i] == 'h' || proto[i] == 'H'
            &&& proto[i + 1] == 't' || proto[i + 1] == 'T'
            &&& proto[i + 2] == 't' || proto[i + 2] == 'T'
            &&& proto[i + 3] == 'p' || proto[i + 3] == 'P'
            &&& proto[i + 4] == 's' || proto[i + 4] == 'S'
        },
        !says_https(behind_proxy, trusted_peer, None),
{
    text::law_pieces_reach_to_the_separators(proto, ',', k);
    let piece = proto.take(k);
    assert forall|x: int| 0 <= x < i implies text::is_space(#[trigger] piece[x]) by {
        assert(piece[x] == proto[x]);
    }
    assert forall|x: int| j <= x < piece.len() implies text::is_space(#[trigger] piece[x]) by {
        assert(piece[x] == proto[x]);
    }
    text::law_trimming_keeps_what_is_between(piece, i, j);
    let word = piece.subrange(i, j);
    reveal_strlit("https");
    let low = text::lower("https"@);
    assert(low =~= seq!['h', 't', 't', 'p', 's']);
    let small = text::lower(word);
    if j - i == 5 {
        assert forall|x: int| 0 <= x < 5 implies word[x] == #[trigger] proto[i + x] by {}
        assert(word[0] == proto[i + 0] && word[1] == proto[i + 1] && word[2] == proto[i + 2]
            && word[3] == proto[i + 3] && word[4] == proto[i + 4]);
        assert(small[0] == text::lower_char(word[0]) && small[1] == text::lower_char(word[1])
            && small[2] == text::lower_char(word[2]) && small[3] == text::lower_char(word[3])
            && small[4] == text::lower_char(word[4]));
        if small[0] == 'h' && small[1] == 't' && small[2] == 't' && small[3] == 'p' && small[4]
            == 's' {
            assert(small =~= low);
        }
    }
}

} // verus!
