//! The `EdgeReplica` DurableObject accepts only WebSocket upgrade requests;
//! anything else is answered with 400.

use vstd::prelude::*;

use crate::text::{eq_ignore_ascii_case, same_ignoring_case};

verus! {

/// The status of a refused request that is no WebSocket upgrade.
pub const NOT_AN_UPGRADE: u16 = 400;

/// The answer to a request that is no WebSocket upgrade.
pub const NOT_AN_UPGRADE_TEXT: &'static str = "EdgeReplica DO accepts only WebSocket upgrades";

/// Whether an `Upgrade` header asks for a WebSocket.
pub fn is_websocket_upgrade(upgrade: Option<&str>) -> (r: bool)
    ensures
        r == (upgrade matches Some(h) && same_ignoring_case(h@, "websocket"@)),
{
    match upgrade {
        Some(h) => eq_ignore_ascii_case(h, "websocket"),
        None => false,
    }
}

/// What to do with a request: nothing more where the schema is in place and
/// the request is an upgrade.
#[derive(Debug, PartialEq, Eq)]
pub enum Dispatch {
    /// Upgrade the connection.
    Upgrade,
    /// Answer with a status and a text.
    Refuse { status: u16, body: String },
}

/// Routes a request to the object.
pub fn dispatch(upgrade: Option<&str>) -> (r: Dispatch)
    ensures
        if upgrade matches Some(h) && same_ignoring_case(h@, "websocket"@) {
            r == Dispatch::Upgrade
        } else {
            r matches Dispatch::Refuse { status, body } && status == 400 && body@
                == "EdgeReplica DO accepts only WebSocket upgrades"@
        },
{
    if is_websocket_upgrade(upgrade) {
        Dispatch::Upgrade
    } else {
        Dispatch::Refuse { status: NOT_AN_UPGRADE, body: NOT_AN_UPGRADE_TEXT.to_owned() }
    }
}

} // verus!
