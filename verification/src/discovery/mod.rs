//! Device discovery over UDP multicast.

pub mod broadcaster;
pub mod device_registry;
pub mod listener;

use vstd::prelude::*;

use crate::system::{host_name, is_uuid_v4_text, new_device_id, NetInterface};

verus! {

/// The UDP port that discovery messages are sent to.
pub const DISCOVERY_PORT: u16 = 3737;

/// Seconds between two announcements.
pub const ANNOUNCE_INTERVAL_SECS: u64 = 5;

/// This device's identity, shared by the announcer and the listener.
pub struct LocalDeviceInfo {
    pub device_id: String,
    pub device_name: String,
}

impl LocalDeviceInfo {
    /// A copy with the same identity.
    pub fn duplicate(&self) -> (r: LocalDeviceInfo)
        ensures
            r == *self,
    {
        LocalDeviceInfo { device_id: self.device_id.clone(), device_name: self.device_name.clone() }
    }
}

/// A fresh identity for this device: a random version-4 UUID as its id, and
/// the host name as its name.
pub fn local_device_info() -> (info: LocalDeviceInfo)
    ensures
        is_uuid_v4_text(info.device_id@),
{
    LocalDeviceInfo { device_id: new_device_id(), device_name: host_name() }
}

/// The LAN address of this machine; see `broadcaster::get_local_ip`.
pub fn get_local_ip() -> (r: Option<String>)
    ensures
        exists|interfaces: Seq<NetInterface>|
            #![trigger broadcaster::lan_ip_of(interfaces)]
            match r {
                Some(ip) => broadcaster::lan_ip_of(interfaces) == Some(ip@),
                None => broadcaster::lan_ip_of(interfaces) is None,
            },
        r matches Some(ip) ==> exists|o: [u8; 4]|
            #![trigger broadcaster::dotted_quad(o)]
            broadcaster::lan_octets(o) && ip@ == broadcaster::dotted_quad(o),
{
    broadcaster::get_local_ip()
}

} // verus!
