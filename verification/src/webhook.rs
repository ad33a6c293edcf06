//! Decision rules of the outbound-notification path.
//!
//! Delivery itself is an external collaborator: best-effort, asynchronous,
//! its failures logged and swallowed. What is verified here is every
//! decision the core takes about it — which events rank high enough for
//! the configured threshold, what embed colour each event class carries,
//! and which transport status codes count as success.

use vstd::prelude::*;

verus! {

/// How much of the event stream a notification hook asks for. Levels are
/// ordered from chattiest to silent; an event is delivered when its own
/// level ranks at or above the configured one.
#[derive(Clone, Copy, PartialEq, Eq, Structural, Debug)]
pub enum WebhookLevel {
    /// Every event, successful beats included.
    All,
    /// Device registrations and anything rarer.
    NewDevices,
    /// Only absences long enough to notify about.
    LongAbsences,
    /// Nothing at all.
    Off,
}

/// The embed colour a notification is painted with.
#[derive(Clone, Copy, PartialEq, Eq, Structural, Debug)]
pub enum WebhookColour {
    Green,
    Orange,
    Blue,
}

/// Where a level stands in the order, chattiest first.
pub open spec fn level_rank_spec(level: WebhookLevel) -> u8 {
    match level {
        WebhookLevel::All => 0,
        WebhookLevel::NewDevices => 1,
        WebhookLevel::LongAbsences => 2,
        WebhookLevel::Off => 3,
    }
}

impl WebhookLevel {
    /// Where this level stands in the order, chattiest first.
    pub fn rank(&self) -> (r: u8)
        ensures
            r == level_rank_spec(*self),
    {
        match self {
            WebhookLevel::All => 0,
            WebhookLevel::NewDevices => 1,
            WebhookLevel::LongAbsences => 2,
            WebhookLevel::Off => 3,
        }
    }
}

impl WebhookColour {
    /// The 24-bit colour value this colour paints an embed with.
    pub fn code(&self) -> (r: u32)
        ensures
            (*self matches WebhookColour::Green ==> r == 0x42_f5_98),
            (*self matches WebhookColour::Orange ==> r == 0xde_95_3c),
            (*self matches WebhookColour::Blue ==> r == 0x64_95_ed),
    {
        match self {
            WebhookColour::Green => 0x42_f5_98,
            WebhookColour::Orange => 0xde_95_3c,
            WebhookColour::Blue => 0x64_95_ed,
        }
    }
}

/// The colour each event class is painted with; a level of `Off` sends
/// nothing and so has no colour.
pub fn colour_for_level(level: WebhookLevel) -> (r: Option<WebhookColour>)
    ensures
        (level matches WebhookLevel::All ==> r == Option::Some(WebhookColour::Blue)),
        (level matches WebhookLevel::NewDevices ==> r == Option::Some(WebhookColour::Green)),
        (level matches WebhookLevel::LongAbsences ==> r == Option::Some(WebhookColour::Orange)),
        (level matches WebhookLevel::Off ==> r == Option::<WebhookColour>::None),
{
    match level {
        WebhookLevel::All => Some(WebhookColour::Blue),
        WebhookLevel::NewDevices => Some(WebhookColour::Green),
        WebhookLevel::LongAbsences => Some(WebhookColour::Orange),
        WebhookLevel::Off => None,
    }
}

/// Whether an event of `message` level passes a hook configured at
/// `configured` level: delivered exactly when the event ranks at or above
/// the configuration.
pub fn should_deliver(configured: WebhookLevel, message: WebhookLevel) -> (r: bool)
    ensures
        r == (level_rank_spec(configured) <= level_rank_spec(message)),
{
    configured.rank() <= message.rank()
}

/// Whether a transport status code reports success: the 2xx range,
/// inclusive on both ends.
pub fn status_is_success(status: u16) -> (r: bool)
    ensures
        r == (200 <= status <= 299),
{
    200 <= status && status <= 299
}

} // verus!
