//! mDNS discovery of paired devices on the LAN: which advertised address to
//! use, and which registered device an advertisement belongs to (its auth
//! tag is checked against the identity key in each device's pairing file).

use vstd::prelude::*;
use crate::config::DiscoveryConfig;

verus! {

/// An IP address: IPv4 by its four octets, IPv6 by its eight 16-bit segments.
#[derive(Debug, Clone, Copy, PartialEq, Eq)]
pub enum IpAddress {
    V4([u8; 4]),
    V6([u16; 8]),
}

/// An IPv6 unicast address with link-local scope: `fe80::/10`.
pub open spec fn is_unicast_link_local(a: IpAddress) -> bool {
    match a {
        IpAddress::V6(seg) => seg[0] & 0xffc0u16 == 0xfe80u16,
        IpAddress::V4(_) => false,
    }
}

pub open spec fn is_ipv4(a: IpAddress) -> bool {
    a is V4
}

/// An IPv6 address that is not link-local.
pub open spec fn is_routable_ipv6(a: IpAddress) -> bool {
    a is V6 && !is_unicast_link_local(a)
}

/// The first IPv4 address of `s`.
pub open spec fn first_ipv4_in(s: Seq<IpAddress>) -> Option<IpAddress>
    decreases s.len(),
{
    if s.len() == 0 {
        None
    } else if is_ipv4(s[0]) {
        Some(s[0])
    } else {
        first_ipv4_in(s.drop_first())
    }
}

/// The first IPv6 address of `s` that is not link-local.
pub open spec fn first_routable_ipv6_in(s: Seq<IpAddress>) -> Option<IpAddress>
    decreases s.len(),
{
    if s.len() == 0 {
        None
    } else if is_routable_ipv6(s[0]) {
        Some(s[0])
    } else {
        first_routable_ipv6_in(s.drop_first())
    }
}

/// The address to reach a device at: the first IPv4 address, else the first
/// IPv6 address that is not link-local, else the first address of all.
pub open spec fn preferred_address(s: Seq<IpAddress>) -> Option<IpAddress> {
    match first_ipv4_in(s) {
        Some(a) => Some(a),
        None => match first_routable_ipv6_in(s) {
            Some(a) => Some(a),
            None => if s.len() > 0 {
                Some(s[0])
            } else {
                None
            },
        },
    }
}

proof fn lemma_skip_step(s: Seq<IpAddress>, i: int)
    requires
        0 <= i < s.len(),
    ensures
        s.skip(i).len() > 0,
        s.skip(i)[0] == s[i],
        s.skip(i).drop_first() == s.skip(i + 1),
{
    assert(s.skip(i).drop_first() =~= s.skip(i + 1));
}

fn is_link_local(a: &IpAddress) -> (b: bool)
    ensures
        b == is_unicast_link_local(*a),
{
    match a {
        IpAddress::V6(seg) => seg[0] & 0xffc0u16 == 0xfe80u16,
        IpAddress::V4(_) => false,
    }
}

fn first_ipv4(addrs: &Vec<IpAddress>) -> (res: Option<IpAddress>)
    ensures
        res == first_ipv4_in(addrs@),
{
    let mut i: usize = 0;
    assert(addrs@.skip(0) =~= addrs@);
    while i < addrs.len()
        invariant
            i <= addrs@.len(),
            first_ipv4_in(addrs@) == first_ipv4_in(addrs@.skip(i as int)),
        decreases addrs@.len() - i,
    {
        proof {
            lemma_skip_step(addrs@, i as int);
        }
        if let IpAddress::V4(_) = addrs[i] {
            return Some(addrs[i]);
        }
        i = i + 1;
    }
    assert(addrs@.skip(i as int).len() == 0);
    None
}

fn first_routable_ipv6(addrs: &Vec<IpAddress>) -> (res: Option<IpAddress>)
    ensures
        res == first_routable_ipv6_in(addrs@),
{
    let mut i: usize = 0;
    assert(addrs@.skip(0) =~= addrs@);
    while i < addrs.len()
        invariant
            i <= addrs@.len(),
            first_routable_ipv6_in(addrs@) == first_routable_ipv6_in(addrs@.skip(i as int)),
        decreases addrs@.len() - i,
    {
        proof {
            lemma_skip_step(addrs@, i as int);
        }
        let a = addrs[i];
        if let IpAddress::V6(_) = a {
            if !is_link_local(&a) {
                return Some(a);
            }
        }
        i = i + 1;
    }
    assert(addrs@.skip(i as int).len() == 0);
    None
}

/// The address to record for a resolved service, from its addresses in the
/// order they were listed.
pub fn pick_ip(addrs: &Vec<IpAddress>) -> (res: Option<IpAddress>)
    ensures
        res == preferred_address(addrs@),
        (exists|i: int| #![trigger addrs@[i]] 0 <= i < addrs@.len() && addrs@[i] is V4) ==> (exists|i: int|
            #![trigger addrs@[i]] 0 <= i < addrs@.len() && addrs@[i] is V4 && res == Some(addrs@[i])
            && (forall|j: int| #![trigger addrs@[j]] 0 <= j < i ==> !(addrs@[j] is V4))),
        (forall|i: int| #![trigger addrs@[i]] 0 <= i < addrs@.len() ==> !(addrs@[i] is V4))
            && (exists|i: int| #![trigger addrs@[i]] 0 <= i < addrs@.len() && (addrs@[i] matches IpAddress::V6(g) && g[0] & 0xffc0u16 != 0xfe80u16))
            ==> (exists|i: int| #![trigger addrs@[i]] 0 <= i < addrs@.len() && (addrs@[i] matches IpAddress::V6(g) && g[0] & 0xffc0u16 != 0xfe80u16)
                && res == Some(addrs@[i])
                && (forall|j: int| #![trigger addrs@[j]] 0 <= j < i ==> !(addrs@[j] matches IpAddress::V6(g) && g[0] & 0xffc0u16 != 0xfe80u16))),
        (forall|i: int| #![trigger addrs@[i]] 0 <= i < addrs@.len() ==> !(addrs@[i] is V4) && !(addrs@[i] matches IpAddress::V6(g) && g[0] & 0xffc0u16 != 0xfe80u16))
            ==> res == (if addrs@.len() > 0 { Some(addrs@[0]) } else { None }),
{
    proof {
        law_address_preference(addrs@);
    }
    match first_ipv4(addrs) {
        Some(a) => Some(a),
        None => match first_routable_ipv6(addrs) {
            Some(a) => Some(a),
            None => if addrs.len() > 0 {
                Some(addrs[0])
            } else {
                None
            },
        },
    }
}

proof fn lemma_first_ipv4_found(s: Seq<IpAddress>, i: int)
    requires
        0 <= i < s.len(),
        is_ipv4(s[i]),
    ensures
        first_ipv4_in(s) matches Some(a) && is_ipv4(a),
    decreases s.len(),
{
    if !is_ipv4(s[0]) {
        lemma_first_ipv4_found(s.drop_first(), i - 1);
    }
}

/// An address is picked whenever the service lists one, and it is an IPv4
/// address whenever the service lists any.
pub proof fn law_ipv4_preferred(s: Seq<IpAddress>)
    ensures
        preferred_address(s) is Some <==> s.len() > 0,
        (exists|i: int| 0 <= i < s.len() && is_ipv4(#[trigger] s[i])) ==> (preferred_address(s) matches Some(a) && is_ipv4(a)),
{
    if exists|i: int| 0 <= i < s.len() && is_ipv4(#[trigger] s[i]) {
        let i = choose|i: int| 0 <= i < s.len() && is_ipv4(#[trigger] s[i]);
        lemma_first_ipv4_found(s, i);
    }
    if s.len() == 0 {
        assert(first_ipv4_in(s) is None);
        assert(first_routable_ipv6_in(s) is None);
    }
}

proof fn lemma_first_ipv4_in_is_first(s: Seq<IpAddress>)
    ensures
        match first_ipv4_in(s) {
            Some(a) => exists|i: int| #![trigger s[i]] 0 <= i < s.len() && s[i] is V4 && a == s[i]
                && (forall|j: int| #![trigger s[j]] 0 <= j < i ==> !(s[j] is V4)),
            None => forall|i: int| #![trigger s[i]] 0 <= i < s.len() ==> !(s[i] is V4),
        },
    decreases s.len(),
{
    if s.len() > 0 {
        let rest = s.drop_first();
        lemma_first_ipv4_in_is_first(rest);
        if !(s[0] is V4) {
            match first_ipv4_in(rest) {
                Some(a) => {
                    let k = choose|k: int| #![trigger rest[k]] 0 <= k < rest.len() && rest[k] is V4 && a == rest[k]
                        && (forall|j: int| #![trigger rest[j]] 0 <= j < k ==> !(rest[j] is V4));
                    assert(s[k + 1] == rest[k]);
                    assert forall|j: int| #![trigger s[j]] 0 <= j < k + 1 implies !(s[j] is V4) by {
                        if j > 0 {
                            assert(s[j] == rest[j - 1]);
                        }
                    }
                },
                None => {
                    assert forall|i: int| #![trigger s[i]] 0 <= i < s.len() implies !(s[i] is V4) by {
                        if i > 0 {
                            assert(s[i] == rest[i - 1]);
                        }
                    }
                },
            }
        }
    }
}

proof fn lemma_first_routable_ipv6_in_is_first(s: Seq<IpAddress>)
    ensures
        match first_routable_ipv6_in(s) {
            Some(a) => exists|i: int| #![trigger s[i]] 0 <= i < s.len()
                && (s[i] matches IpAddress::V6(g) && g[0] & 0xffc0u16 != 0xfe80u16) && a == s[i]
                && (forall|j: int| #![trigger s[j]] 0 <= j < i ==> !(s[j] matches IpAddress::V6(g) && g[0] & 0xffc0u16 != 0xfe80u16)),
            None => forall|i: int| #![trigger s[i]] 0 <= i < s.len() ==> !(s[i] matches IpAddress::V6(g) && g[0] & 0xffc0u16 != 0xfe80u16),
        },
    decreases s.len(),
{
    if s.len() > 0 {
        let rest = s.drop_first();
        lemma_first_routable_ipv6_in_is_first(rest);
        if !is_routable_ipv6(s[0]) {
            match first_routable_ipv6_in(rest) {
                Some(a) => {
                    let k = choose|k: int| #![trigger rest[k]] 0 <= k < rest.len()
                        && (rest[k] matches IpAddress::V6(g) && g[0] & 0xffc0u16 != 0xfe80u16) && a == rest[k]
                        && (forall|j: int| #![trigger rest[j]] 0 <= j < k ==> !(rest[j] matches IpAddress::V6(g) && g[0] & 0xffc0u16 != 0xfe80u16));
                    assert(s[k + 1] == rest[k]);
                    assert forall|j: int| #![trigger s[j]] 0 <= j < k + 1 implies !(s[j] matches IpAddress::V6(g) && g[0] & 0xffc0u16 != 0xfe80u16) by {
                        if j > 0 {
                            assert(s[j] == rest[j - 1]);
                        }
                    }
                },
                None => {
                    assert forall|i: int| #![trigger s[i]] 0 <= i < s.len() implies !(s[i] matches IpAddress::V6(g) && g[0] & 0xffc0u16 != 0xfe80u16) by {
                        if i > 0 {
                            assert(s[i] == rest[i - 1]);
                        }
                    }
                },
            }
        }
    }
}

/// The address picked for a service, said over the addresses themselves:
/// the first IPv4 address when there is one; otherwise the first IPv6
/// address outside `fe80::/10`; otherwise the first address, if any.
pub proof fn law_address_preference(s: Seq<IpAddress>)
    ensures
        (exists|i: int| #![trigger s[i]] 0 <= i < s.len() && s[i] is V4) ==> (exists|i: int|
            #![trigger s[i]] 0 <= i < s.len() && s[i] is V4 && preferred_address(s) == Some(s[i])
            && (forall|j: int| #![trigger s[j]] 0 <= j < i ==> !(s[j] is V4))),
        (forall|i: int| #![trigger s[i]] 0 <= i < s.len() ==> !(s[i] is V4))
            && (exists|i: int| #![trigger s[i]] 0 <= i < s.len() && (s[i] matches IpAddress::V6(g) && g[0] & 0xffc0u16 != 0xfe80u16))
            ==> (exists|i: int| #![trigger s[i]] 0 <= i < s.len() && (s[i] matches IpAddress::V6(g) && g[0] & 0xffc0u16 != 0xfe80u16)
                && preferred_address(s) == Some(s[i])
                && (forall|j: int| #![trigger s[j]] 0 <= j < i ==> !(s[j] matches IpAddress::V6(g) && g[0] & 0xffc0u16 != 0xfe80u16))),
        (forall|i: int| #![trigger s[i]] 0 <= i < s.len() ==> !(s[i] is V4) && !(s[i] matches IpAddress::V6(g) && g[0] & 0xffc0u16 != 0xfe80u16))
            ==> preferred_address(s) == (if s.len() > 0 { Some(s[0]) } else { None }),
{
    lemma_first_ipv4_in_is_first(s);
    lemma_first_routable_ipv6_in_is_first(s);
}

/// What `RpPairingFile::from_bytes` followed by `alt_irk()` gives for a
/// pairing file: its `alt_irk` bytes, or nothing when the file does not
/// parse or has none.
pub uninterp spec fn pairing_alt_irk(pairing: Seq<u8>) -> Option<Seq<u8>>;

/// Calls `idevice::remote_pairing::RpPairingFile::from_bytes` (a plist
/// parse that also checks the key fields) and reads the parsed file's
/// `alt_irk`. The result is claimed to be a function of the bytes alone,
/// named `pairing_alt_irk`; nothing more is stated.
#[verifier::external_body]
fn parse_pairing_alt_irk(pairing: &[u8]) -> (irk: Option<Vec<u8>>)
    ensures
        match irk {
            Some(k) => pairing_alt_irk(pairing@) == Some(k@),
            None => pairing_alt_irk(pairing@) is None,
        },
{
    match idevice::remote_pairing::RpPairingFile::from_bytes(pairing) {
        Ok(file) => file.alt_irk().map(|k| k.to_vec()),
        Err(_) => None,
    }
}

/// What `PeerDevice::validate_auth_tag` answers for an identity key, a
/// service identifier and an advertised auth tag.
pub uninterp spec fn auth_tag_valid(alt_irk: Seq<u8>, identifier: Seq<char>, auth_tag: Seq<char>) -> bool;

/// Calls `idevice::remote_pairing::PeerDevice::validate_auth_tag`, which
/// base64-decodes the tag, keys SipHash-2-4 with the 16-byte identity key
/// and compares. The answer is claimed to be a function of the three
/// arguments, named `auth_tag_valid`; the source also shows that a key that
/// is not 16 bytes long is always refused.
#[verifier::external_body]
fn validate_auth_tag(alt_irk: &[u8], identifier: &str, auth_tag: &str) -> (ok: bool)
    ensures
        ok == auth_tag_valid(alt_irk@, identifier@, auth_tag@),
        alt_irk@.len() != 16 ==> !ok,
{
    idevice::remote_pairing::PeerDevice::validate_auth_tag(alt_irk, identifier, auth_tag)
}

/// Whether an advertisement with `identifier` and `auth_tag` comes from the
/// device whose decrypted pairing file is `pairing` (`None` when it could
/// not be decrypted).
pub open spec fn device_matches(pairing: Option<Seq<u8>>, identifier: Seq<char>, auth_tag: Seq<char>) -> bool {
    match pairing {
        Some(bytes) => match pairing_alt_irk(bytes) {
            Some(irk) => auth_tag_valid(irk, identifier, auth_tag),
            None => false,
        },
        None => false,
    }
}

/// A device matches only through its pairing file: never without one, never
/// when the file yields no identity key, and otherwise exactly when that key
/// accepts the advertised tag.
pub proof fn law_device_matches(pairing: Option<Seq<u8>>, identifier: Seq<char>, auth_tag: Seq<char>)
    ensures
        pairing is None ==> !device_matches(pairing, identifier, auth_tag),
        match pairing {
            Some(b) => match pairing_alt_irk(b) {
                None => !device_matches(pairing, identifier, auth_tag),
                Some(k) => device_matches(pairing, identifier, auth_tag) == auth_tag_valid(k, identifier, auth_tag),
            },
            None => true,
        },
{
}

pub open spec fn pairing_view(p: Option<Vec<u8>>) -> Option<Seq<u8>> {
    match p {
        Some(b) => Some(b@),
        None => None,
    }
}

/// The view of an optional pairing file is its bytes, or nothing.
pub proof fn law_pairing_view(p: Option<Vec<u8>>)
    ensures
        p matches Some(b) ==> pairing_view(p) == Some(b@),
        p is None ==> pairing_view(p) is None,
{
}

/// Whether an identity key accepts the advertisement; the decision made for
/// each device once its key is known.
pub fn key_accepts(alt_irk: Option<Vec<u8>>, identifier: &str, auth_tag: &str) -> (ok: bool)
    ensures
        ok == (match alt_irk {
            Some(k) => auth_tag_valid(k@, identifier@, auth_tag@),
            None => false,
        }),
{
    match alt_irk {
        Some(k) => validate_auth_tag(k.as_slice(), identifier, auth_tag),
        None => false,
    }
}

/// Whether the advertisement belongs to the device whose decrypted pairing
/// file is `pairing`; the step taken for each device in turn, so that the
/// devices after the first match need not be decrypted.
pub fn device_accepts(pairing: &Option<Vec<u8>>, identifier: &str, auth_tag: &str) -> (ok: bool)
    ensures
        ok == device_matches(pairing_view(*pairing), identifier@, auth_tag@),
{
    let irk = match pairing {
        Some(bytes) => parse_pairing_alt_irk(bytes.as_slice()),
        None => None,
    };
    key_accepts(irk, identifier, auth_tag)
}

/// The index of the first registered device that the advertisement belongs
/// to, given each device's decrypted pairing file in order.
pub fn find_matching_device(
    pairings: &Vec<Option<Vec<u8>>>,
    identifier: &str,
    auth_tag: &str,
) -> (found: Option<usize>)
    ensures
        match found {
            Some(i) => {
                &&& i < pairings@.len()
                &&& device_matches(pairing_view(pairings@[i as int]), identifier@, auth_tag@)
                &&& forall|j: int|
                    0 <= j < i ==> !device_matches(
                        pairing_view(#[trigger] pairings@[j]),
                        identifier@,
                        auth_tag@,
                    )
            },
            None => forall|j: int|
                0 <= j < pairings@.len() ==> !device_matches(
                    pairing_view(#[trigger] pairings@[j]),
                    identifier@,
                    auth_tag@,
                ),
        },
{
    let mut i: usize = 0;
    while i < pairings.len()
        invariant
            i <= pairings@.len(),
            forall|j: int|
                0 <= j < i ==> !device_matches(
                    pairing_view(#[trigger] pairings@[j]),
                    identifier@,
                    auth_tag@,
                ),
        decreases pairings@.len() - i,
    {
        if device_accepts(&pairings[i], identifier, auth_tag) {
            return Some(i);
        }
        i = i + 1;
    }
    None
}

/// An advertisement worth matching: both TXT properties are present and an
/// address could be picked.
#[derive(Debug, Clone)]
pub struct DiscoveryCandidate {
    pub identifier: String,
    pub auth_tag: String,
    pub ip: IpAddress,
}

/// Turns a resolved service into a candidate, or `None` when its
/// `identifier` or `authTag` property is missing or it has no address.
pub fn discovery_candidate(
    identifier: Option<String>,
    auth_tag: Option<String>,
    addrs: &Vec<IpAddress>,
) -> (c: Option<DiscoveryCandidate>)
    ensures
        c is Some <==> (identifier is Some && auth_tag is Some && preferred_address(addrs@) is Some),
        c matches Some(c) ==> {
            &&& identifier matches Some(id) && c.identifier@ == id@
            &&& auth_tag matches Some(t) && c.auth_tag@ == t@
            &&& preferred_address(addrs@) == Some(c.ip)
        },
{
    let identifier = match identifier {
        Some(s) => s,
        None => return None,
    };
    let auth_tag = match auth_tag {
        Some(s) => s,
        None => return None,
    };
    match pick_ip(addrs) {
        Some(ip) => Some(DiscoveryCandidate { identifier, auth_tag, ip }),
        None => None,
    }
}


/// The service type browsed for: paired devices advertise remote pairing.
pub const SERVICE_TYPE: &'static str = "_remotepairing._tcp.local.";

/// A character with the Unicode `White_Space` property: U+0009 to U+000D,
/// U+0020, U+0085, U+00A0, U+1680, U+2000 to U+200A, U+2028, U+2029,
/// U+202F, U+205F and U+3000.
pub open spec fn is_white_space(c: char) -> bool {
    let u = c as int;
    ||| 0x09 <= u <= 0x0D
    ||| u == 0x20
    ||| u == 0x85
    ||| u == 0xA0
    ||| u == 0x1680
    ||| 0x2000 <= u <= 0x200A
    ||| u == 0x2028
    ||| u == 0x2029
    ||| u == 0x202F
    ||| u == 0x205F
    ||| u == 0x3000
}

/// How many white-space characters `s` starts with.
pub open spec fn leading_white_space(s: Seq<char>) -> nat
    decreases s.len(),
{
    if s.len() > 0 && is_white_space(s[0]) {
        1 + leading_white_space(s.drop_first())
    } else {
        0
    }
}

/// How many white-space characters `s` ends with.
pub open spec fn trailing_white_space(s: Seq<char>) -> nat
    decreases s.len(),
{
    if s.len() > 0 && is_white_space(s.last()) {
        1 + trailing_white_space(s.drop_last())
    } else {
        0
    }
}

/// `s` without its leading and trailing white space.
pub open spec fn trimmed(s: Seq<char>) -> Seq<char> {
    let rest = s.skip(leading_white_space(s) as int);
    rest.take(rest.len() - trailing_white_space(rest))
}

/// Trimming keeps a contiguous part of the text, drops only white space
/// around it, and leaves no white space at either end.
pub proof fn law_trimmed(s: Seq<char>)
    ensures
        exists|a: int| #![trigger s.subrange(a, a + trimmed(s).len())]
            0 <= a && a + trimmed(s).len() <= s.len() && trimmed(s) == s.subrange(a, a + trimmed(s).len())
            && (forall|k: int| #![trigger s[k]] 0 <= k < a ==> is_white_space(s[k]))
            && (forall|k: int| #![trigger s[k]] a + trimmed(s).len() <= k < s.len() ==> is_white_space(s[k])),
        trimmed(s).len() > 0 ==> !is_white_space(trimmed(s)[0]) && !is_white_space(trimmed(s).last()),
{
    lemma_leading(s);
    let a = leading_white_space(s) as int;
    let rest = s.skip(a);
    lemma_trailing(rest);
    let b = rest.len() - trailing_white_space(rest);
    let t = trimmed(s);
    assert(t =~= s.subrange(a, a + t.len()));
    assert forall|k: int| #![trigger s[k]] a + t.len() <= k < s.len() implies is_white_space(s[k]) by {
        assert(s[k] == rest[k - a]);
    }
    if t.len() > 0 {
        assert(t[0] == rest[0]);
        assert(t.last() == rest[b - 1]);
    }
}

proof fn lemma_leading(s: Seq<char>)
    ensures
        leading_white_space(s) <= s.len(),
        forall|k: int| #![trigger s[k]] 0 <= k < leading_white_space(s) ==> is_white_space(s[k]),
        leading_white_space(s) < s.len() ==> !is_white_space(s[leading_white_space(s) as int]),
    decreases s.len(),
{
    if s.len() > 0 && is_white_space(s[0]) {
        let r = s.drop_first();
        lemma_leading(r);
        assert forall|k: int| #![trigger s[k]] 0 <= k < leading_white_space(s) implies is_white_space(s[k]) by {
            if k > 0 {
                assert(s[k] == r[k - 1]);
            }
        }
        if leading_white_space(s) < s.len() {
            assert(s[leading_white_space(s) as int] == r[leading_white_space(r) as int]);
        }
    }
}

proof fn lemma_trailing(s: Seq<char>)
    ensures
        trailing_white_space(s) <= s.len(),
        forall|k: int| #![trigger s[k]] s.len() - trailing_white_space(s) <= k < s.len() ==> is_white_space(s[k]),
        trailing_white_space(s) < s.len() ==> !is_white_space(s[s.len() - trailing_white_space(s) - 1]),
    decreases s.len(),
{
    if s.len() > 0 && is_white_space(s.last()) {
        let r = s.drop_last();
        lemma_trailing(r);
        assert forall|k: int| #![trigger s[k]] s.len() - trailing_white_space(s) <= k < s.len() implies is_white_space(s[k]) by {
            if k < s.len() - 1 {
                assert(s[k] == r[k]);
            }
        }
        if trailing_white_space(s) < s.len() {
            assert(s[s.len() - trailing_white_space(s) - 1] == r[r.len() - trailing_white_space(r) - 1]);
        }
    }
}

/// Calls `str::trim`, which its documentation says removes the leading and
/// trailing characters with the Unicode `White_Space` property; that set of
/// code points is spelt out in `is_white_space`.
#[verifier::external_body]
fn trim_text(s: &str) -> (t: &str)
    ensures
        t@ == trimmed(s@),
{
    s.trim()
}

/// How discovery is to run, when it runs at all.
#[derive(Debug, Clone)]
pub struct DiscoveryPlan {
    /// The network interface to enable first, when one is configured.
    pub interface: Option<String>,
}

/// The discovery plan for a configuration: none when mDNS is disabled;
/// otherwise the configured interface, trimmed, unless that leaves nothing.
pub fn discovery_plan(cfg: &DiscoveryConfig) -> (plan: Option<DiscoveryPlan>)
    ensures
        plan is Some <==> cfg.mdns_enabled,
        plan matches Some(p) ==> match p.interface {
            Some(i) => i@ == trimmed(cfg.mdns_interface@) && i@.len() > 0,
            None => trimmed(cfg.mdns_interface@).len() == 0,
        },
{
    if !cfg.mdns_enabled {
        return None;
    }
    let iface = trim_text(cfg.mdns_interface.as_str());
    if iface.is_empty() {
        Some(DiscoveryPlan { interface: None })
    } else {
        Some(DiscoveryPlan { interface: Some(String::from_str(iface)) })
    }
}


/// The kinds of event that browsing a service type reports.
#[derive(Debug, Clone, Copy, PartialEq, Eq)]
pub enum ServiceEventKind {
    SearchStarted,
    ServiceFound,
    ServiceResolved,
    ServiceRemoved,
    SearchStopped,
}

/// Only a resolved service is matched against the devices; every other
/// event is ignored.
pub fn handles_event(kind: ServiceEventKind) -> (handled: bool)
    ensures
        handled == (kind is ServiceResolved),
{
    match kind {
        ServiceEventKind::ServiceResolved => true,
        _ => false,
    }
}

/// What is done for the device an advertisement matched: its address is
/// always written back (so the time it was last seen moves on), and the
/// match is announced only when the address differs from the recorded one.
pub struct MatchUpdate {
    pub write_address: bool,
    pub announce: bool,
}

pub fn match_update(recorded_ip: &Option<String>, ip_text: &String) -> (u: MatchUpdate)
    ensures
        u.write_address,
        u.announce == !(recorded_ip matches Some(r) && r@ == ip_text@),
{
    let same = match recorded_ip {
        Some(r) => *r == *ip_text,
        None => false,
    };
    MatchUpdate { write_address: true, announce: !same }
}

} // verus!
