//! The discovery announcement: which local interface address is announced,
//! and the announcement message itself.

use vstd::prelude::*;

use crate::discovery::LocalDeviceInfo;
use crate::system::{system_interfaces, unix_timestamp, NetInterface};
use crate::text::{
    decimal, decimal_string, field_at, find_separator, has_prefix, lemma_decimal_no_dot,
    lemma_decimal_three_digits, lemma_decimal_two_digits, lemma_number_prefix,
    lemma_parse_decimal, lemma_segment_end, lemma_segment_end_exact, lemma_two_number_prefix,
    parse_decimal, parse_unsigned, segment_end, starts_with,
};
use crate::transfer::HTTP_PORT;

verus! {

/// A discovery message, exchanged as JSON over UDP multicast.
/// `msg_type` is `"announce"`, `"response"` or `"bye"`.
pub struct DiscoveryMessage {
    pub msg_type: String,
    pub device_id: String,
    pub device_name: String,
    pub ip: String,
    pub port: u16,
    pub timestamp: i64,
}

/// The local-area interface chosen for discovery.
pub struct LanInterface {
    pub ip: String,
    pub interface_name: String,
}

/// The dotted-decimal text of an IPv4 address, as `Ipv4Addr`'s `Display`
/// writes it.
pub open spec fn dotted_quad(o: [u8; 4]) -> Seq<char> {
    decimal(o[0] as nat) + seq!['.'] + decimal(o[1] as nat) + seq!['.'] + decimal(o[2] as nat)
        + seq!['.'] + decimal(o[3] as nat)
}

/// Writes an IPv4 address in dotted-decimal form.
pub fn ipv4_text(o: [u8; 4]) -> (s: String)
    ensures
        s@ == dotted_quad(o),
{
    proof {
        reveal_strlit(".");
    }
    let mut s = decimal_string(o[0] as u64);
    s.append(".");
    let t = decimal_string(o[1] as u64);
    s.append(t.as_str());
    s.append(".");
    let t = decimal_string(o[2] as u64);
    s.append(t.as_str());
    s.append(".");
    let t = decimal_string(o[3] as u64);
    s.append(t.as_str());
    assert("."@ =~= seq!['.']);
    s
}

/// The second dot-separated field of `s`, where `s` has a dot.
pub open spec fn second_field(s: Seq<char>) -> Option<Seq<char>> {
    let e0 = segment_end(s, '.', 0);
    if e0 < s.len() {
        Some(field_at(s, '.', e0 + 1))
    } else {
        None
    }
}

/// Whether the second field of an address text, read as a `u8` (0 where it
/// does not read as one), lies in 16..=31: the private 172.16.0.0/12 block.
pub open spec fn private_172_field(s: Seq<char>) -> bool {
    match second_field(s) {
        Some(f) => {
            let second = match parse_unsigned(f, 255) {
                Some(v) => v,
                None => 0,
            };
            16 <= second && second <= 31
        },
        None => false,
    }
}

/// Whether a `172.x.x.x` address text is in the private block 172.16.0.0/12,
/// judged by its second field.
pub fn is_private_172(ip_str: &str) -> (r: bool)
    ensures
        r == private_172_field(ip_str@),
{
    let n = ip_str.unicode_len();
    let e0 = find_separator(ip_str, '.', 0);
    proof {
        lemma_segment_end(ip_str@, '.', 0);
    }
    if e0 < n {
        let e1 = find_separator(ip_str, '.', e0 + 1);
        proof {
            lemma_segment_end(ip_str@, '.', e0 + 1);
        }
        let part = ip_str.substring_char(e0 + 1, e1);
        let second: u64 = match parse_decimal(part, 255) {
            Some(v) => v,
            None => 0,
        };
        second >= 16 && second <= 31
    } else {
        false
    }
}

/// Address ranges that virtual adapters use (proxy tools, Docker, link-local,
/// carrier-grade NAT); an address in one of them is never announced.
pub open spec fn excluded_range(ip: Seq<char>) -> bool {
    ||| has_prefix(ip, "198.18."@)
    ||| has_prefix(ip, "198.19."@)
    ||| has_prefix(ip, "172.19."@)
    ||| has_prefix(ip, "169.254."@)
    ||| has_prefix(ip, "100.64."@)
}

/// The usual private LAN ranges: 192.168.x.x, 10.x.x.x, 172.16-31.x.x.
pub open spec fn lan_range(ip: Seq<char>) -> bool {
    ||| has_prefix(ip, "192.168."@)
    ||| has_prefix(ip, "10."@)
    ||| has_prefix(ip, "172."@) && private_172_field(ip)
}

/// `Ipv4Addr::is_loopback`: the 127.0.0.0/8 block.
pub open spec fn is_loopback_v4(o: [u8; 4]) -> bool {
    o[0] == 127
}

/// Whether an interface address may be announced: IPv4, not loopback, not in
/// an excluded range, and in a private LAN range.
pub open spec fn is_lan_candidate(iface: NetInterface) -> bool {
    match iface.ipv4 {
        Some(o) => !is_loopback_v4(o) && !excluded_range(dotted_quad(o)) && lan_range(
            dotted_quad(o),
        ),
        None => false,
    }
}

/// The address text of an IPv4 address that may be announced, or `None`.
fn lan_address(o: [u8; 4]) -> (r: Option<String>)
    ensures
        match r {
            Some(ip) => ip@ == dotted_quad(o) && !is_loopback_v4(o) && !excluded_range(
                dotted_quad(o),
            ) && lan_range(dotted_quad(o)),
            None => !(!is_loopback_v4(o) && !excluded_range(dotted_quad(o)) && lan_range(
                dotted_quad(o),
            )),
        },
{
    if o[0] == 127 {
        return None;
    }
    let ip_str = ipv4_text(o);
    let s = ip_str.as_str();
    let excluded = starts_with(s, "198.18.") || starts_with(s, "198.19.") || starts_with(
        s,
        "172.19.",
    ) || starts_with(s, "169.254.") || starts_with(s, "100.64.");
    if excluded {
        return None;
    }
    if starts_with(s, "192.168.") || starts_with(s, "10.") || (starts_with(s, "172.")
        && is_private_172(s)) {
        Some(ip_str)
    } else {
        None
    }
}

/// The first interface of a list that may be announced.
pub open spec fn first_lan(s: Seq<NetInterface>) -> Option<NetInterface>
    decreases s.len(),
{
    if s.len() == 0 {
        None
    } else if is_lan_candidate(s[0]) {
        Some(s[0])
    } else {
        first_lan(s.drop_first())
    }
}

/// The address text of the first interface of a list that may be
/// announced, where there is one.
pub open spec fn lan_ip_of(s: Seq<NetInterface>) -> Option<Seq<char>> {
    match first_lan(s) {
        Some(f) => Some(dotted_quad(f.ipv4->0)),
        None => None,
    }
}

/// Skipping interfaces that may not be announced leaves the first one that
/// may.
proof fn lemma_first_lan_skip(s: Seq<NetInterface>, i: int)
    requires
        0 <= i <= s.len(),
        forall|j: int| 0 <= j < i ==> !is_lan_candidate(#[trigger] s[j]),
    ensures
        first_lan(s) == first_lan(s.skip(i)),
    decreases i,
{
    if i == 0 {
        assert(s.skip(0) =~= s);
    } else {
        lemma_first_lan_skip(s, i - 1);
        let t = s.skip(i - 1);
        assert(t[0] == s[i - 1]);
        assert(t.drop_first() =~= s.skip(i));
    }
}

/// The first interface that may be announced may be announced.
pub proof fn lemma_first_lan_candidate(s: Seq<NetInterface>)
    ensures
        first_lan(s) matches Some(f) ==> is_lan_candidate(f),
    decreases s.len(),
{
    if s.len() > 0 && !is_lan_candidate(s[0]) {
        lemma_first_lan_candidate(s.drop_first());
    }
}

/// The first interface that may be announced, with its address text and name.
pub fn select_lan_interface(interfaces: &Vec<NetInterface>) -> (r: Option<LanInterface>)
    ensures
        match r {
            Some(lan) => first_lan(interfaces@) matches Some(f) && lan.ip@ == dotted_quad(
                f.ipv4->0,
            ) && lan.interface_name == f.name,
            None => first_lan(interfaces@) is None,
        },
        match r {
            Some(lan) => exists|i: int|
                0 <= i < interfaces@.len() && #[trigger] is_lan_candidate(interfaces@[i]) && (
                forall|j: int| 0 <= j < i ==> !is_lan_candidate(#[trigger] interfaces@[j]))
                    && lan.ip@ == dotted_quad(interfaces@[i].ipv4->0) && lan.interface_name
                    == interfaces@[i].name,
            None => forall|i: int|
                0 <= i < interfaces@.len() ==> !is_lan_candidate(#[trigger] interfaces@[i]),
        },
{
    let mut i: usize = 0;
    while i < interfaces.len()
        invariant
            i <= interfaces@.len(),
            forall|j: int| 0 <= j < i ==> !is_lan_candidate(#[trigger] interfaces@[j]),
        decreases interfaces@.len() - i,
    {
        let iface = &interfaces[i];
        match iface.ipv4 {
            Some(o) => {
                match lan_address(o) {
                    Some(ip) => {
                        let lan = LanInterface { ip, interface_name: iface.name.clone() };
                        assert(is_lan_candidate(interfaces@[i as int]));
                        proof {
                            lemma_first_lan_skip(interfaces@, i as int);
                            assert(interfaces@.skip(i as int)[0] == interfaces@[i as int]);
                        }
                        return Some(lan);
                    },
                    None => {},
                }
            },
            None => {},
        }
        i = i + 1;
    }
    proof {
        lemma_first_lan_skip(interfaces@, interfaces@.len() as int);
    }
    None
}

/// The address text of the first interface of `interfaces` that may be
/// announced, where there is one.
pub fn local_ip_of(interfaces: &Vec<NetInterface>) -> (r: Option<String>)
    ensures
        match r {
            Some(ip) => lan_ip_of(interfaces@) == Some(ip@),
            None => lan_ip_of(interfaces@) is None,
        },
{
    match select_lan_interface(interfaces) {
        Some(lan) => Some(lan.ip),
        None => None,
    }
}

/// The real LAN interface of this machine (not a proxy, VPN or container
/// adapter): the first interface address that may be announced.
pub fn get_lan_interface() -> (r: Option<LanInterface>)
    ensures
        exists|interfaces: Seq<NetInterface>|
            #![trigger first_lan(interfaces)]
            match r {
                Some(lan) => first_lan(interfaces) matches Some(f) && lan.ip@ == dotted_quad(
                    f.ipv4->0,
                ) && lan.interface_name == f.name,
                None => first_lan(interfaces) is None,
            },
        r matches Some(lan) ==> exists|o: [u8; 4]|
            #![trigger dotted_quad(o)]
            lan_octets(o) && lan.ip@ == dotted_quad(o),
{
    let interfaces = system_interfaces();
    let r = select_lan_interface(&interfaces);
    proof {
        lemma_first_lan_candidate(interfaces@);
        if r is Some {
            let o = first_lan(interfaces@)->0.ipv4->0;
            lemma_lan_address_octets(o);
            assert(dotted_quad(o) == r->0.ip@);
        }
        assert(first_lan(interfaces@) == first_lan(interfaces@));
    }
    r
}

/// The LAN address of this machine, where it has a LAN interface: the
/// address of the first interface that may be announced. Where it has none,
/// the address of the interface that routes outward is taken instead, which
/// needs a socket and is found by the caller.
pub fn get_local_ip() -> (r: Option<String>)
    ensures
        exists|interfaces: Seq<NetInterface>|
            #![trigger lan_ip_of(interfaces)]
            match r {
                Some(ip) => lan_ip_of(interfaces) == Some(ip@),
                None => lan_ip_of(interfaces) is None,
            },
        r matches Some(ip) ==> exists|o: [u8; 4]|
            #![trigger dotted_quad(o)]
            lan_octets(o) && ip@ == dotted_quad(o),
{
    let interfaces = system_interfaces();
    let r = local_ip_of(&interfaces);
    proof {
        lemma_first_lan_candidate(interfaces@);
        if r is Some {
            let o = first_lan(interfaces@)->0.ipv4->0;
            lemma_lan_address_octets(o);
            assert(dotted_quad(o) == r->0@);
        }
        assert(lan_ip_of(interfaces@) == lan_ip_of(interfaces@));
    }
    r
}

/// The announcement this device multicasts: its identity, LAN address,
/// HTTP port and the current time.
pub fn announcement_at(device_info: &LocalDeviceInfo, ip: String, timestamp: i64) -> (m:
    DiscoveryMessage)
    ensures
        m.msg_type@ == "announce"@,
        m.device_id@ == device_info.device_id@,
        m.device_name@ == device_info.device_name@,
        m.ip@ == ip@,
        m.port == HTTP_PORT,
        m.timestamp == timestamp,
{
    DiscoveryMessage {
        msg_type: String::from_str("announce"),
        device_id: device_info.device_id.clone(),
        device_name: device_info.device_name.clone(),
        ip,
        port: HTTP_PORT,
        timestamp,
    }
}


/// The announcement this device multicasts, stamped now.
pub fn announcement(device_info: &LocalDeviceInfo, ip: String) -> (m: DiscoveryMessage)
    ensures
        m.msg_type@ == "announce"@,
        m.device_id@ == device_info.device_id@,
        m.device_name@ == device_info.device_name@,
        m.ip@ == ip@,
        m.port == HTTP_PORT,
{
    let now = unix_timestamp();
    announcement_at(device_info, ip, now)
}

/// The announced ranges in terms of the address's octets: 192.168.0.0/16,
/// 10.0.0.0/8, and 172.16.0.0/12 without 172.19.0.0/16.
pub open spec fn lan_octets(o: [u8; 4]) -> bool {
    ||| o[0] == 192 && o[1] == 168
    ||| o[0] == 10
    ||| o[0] == 172 && 16 <= o[1] && o[1] <= 31 && o[1] != 19
}

proof fn lemma_prefix_texts()
    ensures
        "198.18."@ == decimal(198) + seq!['.'] + decimal(18) + seq!['.'],
        "198.19."@ == decimal(198) + seq!['.'] + decimal(19) + seq!['.'],
        "172.19."@ == decimal(172) + seq!['.'] + decimal(19) + seq!['.'],
        "169.254."@ == decimal(169) + seq!['.'] + decimal(254) + seq!['.'],
        "100.64."@ == decimal(100) + seq!['.'] + decimal(64) + seq!['.'],
        "192.168."@ == decimal(192) + seq!['.'] + decimal(168) + seq!['.'],
        "10."@ == decimal(10) + seq!['.'],
        "172."@ == decimal(172) + seq!['.'],
{
    reveal_strlit("198.18.");
    reveal_strlit("198.19.");
    reveal_strlit("172.19.");
    reveal_strlit("169.254.");
    reveal_strlit("100.64.");
    reveal_strlit("192.168.");
    reveal_strlit("10.");
    reveal_strlit("172.");
    lemma_decimal_three_digits(198);
    lemma_decimal_three_digits(172);
    lemma_decimal_three_digits(169);
    lemma_decimal_three_digits(254);
    lemma_decimal_three_digits(100);
    lemma_decimal_three_digits(192);
    lemma_decimal_three_digits(168);
    lemma_decimal_two_digits(18);
    lemma_decimal_two_digits(19);
    lemma_decimal_two_digits(64);
    lemma_decimal_two_digits(10);
    assert("198.18."@ =~= decimal(198) + seq!['.'] + decimal(18) + seq!['.']);
    assert("198.19."@ =~= decimal(198) + seq!['.'] + decimal(19) + seq!['.']);
    assert("172.19."@ =~= decimal(172) + seq!['.'] + decimal(19) + seq!['.']);
    assert("169.254."@ =~= decimal(169) + seq!['.'] + decimal(254) + seq!['.']);
    assert("100.64."@ =~= decimal(100) + seq!['.'] + decimal(64) + seq!['.']);
    assert("192.168."@ =~= decimal(192) + seq!['.'] + decimal(168) + seq!['.']);
    assert("10."@ =~= decimal(10) + seq!['.']);
    assert("172."@ =~= decimal(172) + seq!['.']);
}

/// The second field of an address text is the decimal form of its second
/// octet, so the 172 test reads that octet.
pub proof fn lemma_second_field(o: [u8; 4])
    ensures
        second_field(dotted_quad(o)) == Some(decimal(o[1] as nat)),
        private_172_field(dotted_quad(o)) == (16 <= o[1] && o[1] <= 31),
{
    let da = decimal(o[0] as nat);
    let db = decimal(o[1] as nat);
    let rest = decimal(o[2] as nat) + seq!['.'] + decimal(o[3] as nat);
    let q = dotted_quad(o);
    assert(q =~= da + seq!['.'] + db + seq!['.'] + rest);
    lemma_decimal_no_dot(o[0] as nat);
    lemma_decimal_no_dot(o[1] as nat);
    let la = da.len() as int;
    let lb = db.len() as int;
    assert(q[la] == '.');
    assert forall|k: int| 0 <= k < la implies q[k] != '.' by {
        assert(q[k] == da[k]);
    }
    lemma_segment_end_exact(q, '.', 0, la);
    assert(q[la + 1 + lb] == '.');
    assert forall|k: int| la + 1 <= k < la + 1 + lb implies q[k] != '.' by {
        assert(q[k] == db[k - la - 1]);
    }
    lemma_segment_end_exact(q, '.', la + 1, la + 1 + lb);
    assert(field_at(q, '.', la + 1) =~= db);
    lemma_parse_decimal(o[1] as nat, 255);
}

/// The address that `get_lan_interface` accepts, stated on its text, is
/// exactly an address in 192.168.0.0/16, 10.0.0.0/8 or 172.16.0.0/12 other
/// than 172.19.0.0/16.
pub proof fn lemma_lan_address_octets(o: [u8; 4])
    ensures
        (!is_loopback_v4(o) && !excluded_range(dotted_quad(o)) && lan_range(dotted_quad(o)))
            == lan_octets(o),
{
    let a = o[0] as nat;
    let b = o[1] as nat;
    let rest2 = decimal(o[2] as nat) + seq!['.'] + decimal(o[3] as nat);
    let rest1 = decimal(b) + seq!['.'] + rest2;
    let q = dotted_quad(o);
    assert(q =~= decimal(a) + seq!['.'] + decimal(b) + seq!['.'] + rest2);
    assert(q =~= decimal(a) + seq!['.'] + rest1);
    lemma_prefix_texts();
    lemma_two_number_prefix(a, b, rest2, 198, 18);
    lemma_two_number_prefix(a, b, rest2, 198, 19);
    lemma_two_number_prefix(a, b, rest2, 172, 19);
    lemma_two_number_prefix(a, b, rest2, 169, 254);
    lemma_two_number_prefix(a, b, rest2, 100, 64);
    lemma_two_number_prefix(a, b, rest2, 192, 168);
    lemma_number_prefix(a, rest1, 10);
    lemma_number_prefix(a, rest1, 172);
    lemma_second_field(o);
}

} // verus!
