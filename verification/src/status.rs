//! Delivery status of a message and its mapping from transport codes.

use vstd::prelude::*;

verus! {

/// Where a message stands on its way to the recipient.
#[derive(Clone, Copy, Debug, PartialEq, Eq, Structural)]
pub enum DeliveryStatus {
    /// Handed to the transport, not yet confirmed.
    Sending,
    /// Accepted by the server.
    Sent,
    /// Reached the recipient's device.
    Delivered,
    /// Displayed to the recipient.
    Read,
    /// The send or upload did not go through.
    Failed,
    /// Authored by somebody else.
    Received,
}

/// The status that a transport status code stands for.
///
/// A message of another author is always `Received`. For one's own message
/// the codes 5, 6 and 7 are the intermediate send states, 2 is "delivered",
/// 11 is "displayed", and every other code counts as sent.
pub open spec fn delivery_status(status_code: i32, from_me: bool) -> DeliveryStatus {
    if !from_me {
        DeliveryStatus::Received
    } else if status_code == 5 || status_code == 6 || status_code == 7 {
        DeliveryStatus::Sending
    } else if status_code == 2 {
        DeliveryStatus::Delivered
    } else if status_code == 11 {
        DeliveryStatus::Read
    } else {
        DeliveryStatus::Sent
    }
}

/// The lower-case word under which a status is shown.
pub open spec fn status_label(status: DeliveryStatus) -> Seq<char> {
    match status {
        DeliveryStatus::Sending => "sending"@,
        DeliveryStatus::Sent => "sent"@,
        DeliveryStatus::Delivered => "delivered"@,
        DeliveryStatus::Read => "read"@,
        DeliveryStatus::Failed => "failed"@,
        DeliveryStatus::Received => "received"@,
    }
}

/// Status codes from 200 on mark informational rows, not messages.
pub open spec fn is_info_code(status_code: i32) -> bool {
    status_code >= 200
}

impl DeliveryStatus {
    /// The status for a transport status code.
    pub fn from_code(status_code: i32, from_me: bool) -> (status: DeliveryStatus)
        ensures
            status == delivery_status(status_code, from_me),
    {
        if !from_me {
            DeliveryStatus::Received
        } else if status_code == 5 || status_code == 6 || status_code == 7 {
            DeliveryStatus::Sending
        } else if status_code == 2 {
            DeliveryStatus::Delivered
        } else if status_code == 11 {
            DeliveryStatus::Read
        } else {
            DeliveryStatus::Sent
        }
    }

    /// The word under which the status is shown.
    pub fn label(&self) -> (word: &'static str)
        ensures
            word@ == status_label(*self),
    {
        match self {
            DeliveryStatus::Sending => "sending",
            DeliveryStatus::Sent => "sent",
            DeliveryStatus::Delivered => "delivered",
            DeliveryStatus::Read => "read",
            DeliveryStatus::Failed => "failed",
            DeliveryStatus::Received => "received",
        }
    }

    /// True for rows that a refresh must not remove: sends still in flight
    /// and sends that failed locally.
    pub fn is_local_only(&self) -> (b: bool)
        ensures
            b == (*self == DeliveryStatus::Sending || *self == DeliveryStatus::Failed),
    {
        match self {
            DeliveryStatus::Sending => true,
            DeliveryStatus::Failed => true,
            _ => false,
        }
    }
}

/// The shown word for a transport status code.
pub fn map_message_status(status_code: i32, from_me: bool) -> (word: &'static str)
    ensures
        word@ == status_label(delivery_status(status_code, from_me)),
{
    DeliveryStatus::from_code(status_code, from_me).label()
}

/// Whether a status code marks an informational row.
pub fn is_info_status(status_code: i32) -> (b: bool)
    ensures
        b == is_info_code(status_code),
{
    status_code >= 200
}

} // verus!
