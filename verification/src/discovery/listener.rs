//! What the discovery listener does with a received message.

use vstd::prelude::*;

use crate::discovery::broadcaster::DiscoveryMessage;
use crate::discovery::LocalDeviceInfo;
use crate::system::unix_timestamp;
use crate::text::same_text;
use crate::transfer::HTTP_PORT;

verus! {

/// What the listener does with one received discovery message.
pub enum ListenerAction {
    /// The message is this device's own: it is dropped.
    IgnoreOwn,
    /// A peer announced itself: it is reported as discovered, and this device
    /// replies with a `"response"` message.
    DiscoveredAndReply,
    /// A peer answered an announcement: it is reported as discovered.
    Discovered,
    /// A peer said goodbye: it is reported as lost.
    Lost,
    /// Any other message type: nothing is done.
    Ignore,
}

/// The action that a received message calls for: this device's own messages
/// are dropped first; `"announce"` is reported and answered, `"response"`
/// is reported, `"bye"` reports the sender lost, and anything else is
/// dropped.
pub fn handle_message(msg: &DiscoveryMessage, device_info: &LocalDeviceInfo) -> (a:
    ListenerAction)
    ensures
        a == (if msg.device_id@ == device_info.device_id@ {
            ListenerAction::IgnoreOwn
        } else if msg.msg_type@ == "announce"@ {
            ListenerAction::DiscoveredAndReply
        } else if msg.msg_type@ == "response"@ {
            ListenerAction::Discovered
        } else if msg.msg_type@ == "bye"@ {
            ListenerAction::Lost
        } else {
            ListenerAction::Ignore
        }),
{
    if same_text(msg.device_id.as_str(), device_info.device_id.as_str()) {
        ListenerAction::IgnoreOwn
    } else if same_text(msg.msg_type.as_str(), "announce") {
        ListenerAction::DiscoveredAndReply
    } else if same_text(msg.msg_type.as_str(), "response") {
        ListenerAction::Discovered
    } else if same_text(msg.msg_type.as_str(), "bye") {
        ListenerAction::Lost
    } else {
        ListenerAction::Ignore
    }
}

/// The reply to an announcement: this device's identity, its address, the
/// HTTP port and the current time, as a `"response"` message.
pub fn response_at(device_info: &LocalDeviceInfo, ip: String, timestamp: i64) -> (m:
    DiscoveryMessage)
    ensures
        m.msg_type@ == "response"@,
        m.device_id@ == device_info.device_id@,
        m.device_name@ == device_info.device_name@,
        m.ip@ == ip@,
        m.port == HTTP_PORT,
        m.timestamp == timestamp,
{
    DiscoveryMessage {
        msg_type: String::from_str("response"),
        device_id: device_info.device_id.clone(),
        device_name: device_info.device_name.clone(),
        ip,
        port: HTTP_PORT,
        timestamp,
    }
}


/// The reply to an announcement, stamped now.
pub fn response(device_info: &LocalDeviceInfo, ip: String) -> (m: DiscoveryMessage)
    ensures
        m.msg_type@ == "response"@,
        m.device_id@ == device_info.device_id@,
        m.device_name@ == device_info.device_name@,
        m.ip@ == ip@,
        m.port == HTTP_PORT,
{
    let now = unix_timestamp();
    response_at(device_info, ip, now)
}

} // verus!
