//! What the library reads from the machine: the clock, a random device
//! identifier, the host name and the network interfaces. Nothing here is
//! proved; each item says what it claims of the outside code it calls.

use vstd::prelude::*;

verus! {

/// A network interface address as the discovery logic reads it: the
/// interface's name and, for an IPv4 address, its four octets (`None` for an
/// IPv6 address).
pub struct NetInterface {
    pub name: String,
    pub ipv4: Option<[u8; 4]>,
}

/// Seconds since the Unix epoch, from `chrono::Local::now().timestamp()`.
/// The value depends on the clock, so nothing is claimed of it.
#[verifier::external_body]
pub(crate) fn unix_timestamp() -> i64 {
    chrono::Local::now().timestamp()
}

#[verifier::external_type_specification]
#[verifier::external_body]
pub struct ExInstant(std::time::Instant);

/// A reading of the monotonic clock, from `std::time::Instant::now()`. The
/// value depends on when it is read, so nothing is claimed of it.
#[verifier::external_body]
pub(crate) fn monotonic_now() -> std::time::Instant {
    std::time::Instant::now()
}

/// The time that passed from `earlier` to `later`, as
/// `Instant::duration_since` gives it (zero where `earlier` is the later one).
pub uninterp spec fn elapsed(later: std::time::Instant, earlier: std::time::Instant) -> core::time::Duration;

/// `later.duration_since(earlier)`; it depends on the two readings alone.
#[verifier::external_body]
pub(crate) fn time_between(later: &std::time::Instant, earlier: &std::time::Instant) -> (d:
    core::time::Duration)
    ensures
        d == elapsed(*later, *earlier),
{
    later.duration_since(*earlier)
}

/// The whole number of nanoseconds in a duration, as `Duration::as_nanos`
/// gives it.
pub uninterp spec fn duration_nanos(d: core::time::Duration) -> u128;

/// `d.as_nanos()`; it depends on `d` alone.
#[verifier::external_body]
pub(crate) fn nanos_of(d: &core::time::Duration) -> (n: u128)
    ensures
        n == duration_nanos(*d),
{
    d.as_nanos()
}

/// A lower-case hexadecimal digit.
pub open spec fn is_lower_hex(c: char) -> bool {
    ('0' <= c && c <= '9') || ('a' <= c && c <= 'f')
}

/// The text of a random (version 4) UUID in the hyphenated lower-case form:
/// 36 characters, hyphens at 8, 13, 18 and 23, the version digit `4` at 14,
/// one of `8 9 a b` at 19 (the RFC variant), lower-case hex digits elsewhere.
pub open spec fn is_uuid_v4_text(s: Seq<char>) -> bool {
    &&& s.len() == 36
    &&& forall|i: int|
        0 <= i < 36 ==> (if i == 8 || i == 13 || i == 18 || i == 23 {
            #[trigger] s[i] == '-'
        } else {
            is_lower_hex(s[i])
        })
    &&& s[14] == '4'
    &&& (s[19] == '8' || s[19] == '9' || s[19] == 'a' || s[19] == 'b')
}

/// `uuid::Uuid::new_v4().to_string()`. The uuid crate's `Display` writes the
/// hyphenated lower-case form, and `new_v4` masks in the version nibble 4 and
/// the RFC 4122 variant bits; the other 122 bits are random and unstated.
#[verifier::external_body]
pub(crate) fn new_device_id() -> (id: String)
    ensures
        is_uuid_v4_text(id@),
{
    uuid::Uuid::new_v4().to_string()
}

/// The machine's host name, from `gethostname::gethostname()`, with
/// characters that are not valid UTF-8 replaced (`to_string_lossy`). It
/// depends on the machine, so nothing is claimed of it.
#[verifier::external_body]
pub(crate) fn host_name() -> String {
    gethostname::gethostname().to_string_lossy().to_string()
}

/// The machine's interface addresses, from `if_addrs::get_if_addrs()`, an
/// empty list where that call fails (as `unwrap_or_default` gives). Each
/// interface keeps its name, and the octets of an IPv4 address. The list
/// depends on the machine, so nothing is claimed of it.
#[verifier::external_body]
pub(crate) fn system_interfaces() -> Vec<NetInterface> {
    if_addrs::get_if_addrs()
        .unwrap_or_default()
        .into_iter()
        .map(|iface| NetInterface {
            name: iface.name,
            ipv4: match iface.addr {
                if_addrs::IfAddr::V4(v4) => Some(v4.ip.octets()),
                if_addrs::IfAddr::V6(_) => None,
            },
        })
        .collect()
}

} // verus!
