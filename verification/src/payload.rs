use vstd::prelude::*;

verus! {

/// The alert body of a notification: plain text, or a localization key with
/// its arguments.
#[derive(Clone, Debug)]
pub enum PayloadAPSAlert {
    Plain(String),
    Localized(String, Vec<String>),
}

/// The `aps` object of a notification payload. An optional field that is
/// unset is omitted from the serialized JSON entirely, never emitted as null.
#[derive(Clone, Debug)]
pub struct PayloadAPS {
    pub alert: PayloadAPSAlert,
    pub badge: Option<i32>,
    pub sound: Option<String>,
    pub content_available: Option<i32>,
}

/// A notification payload: the required `aps` object, and any extra top-level
/// keys, each mapped to a string value.
#[derive(Clone, Debug)]
pub struct Payload {
    pub aps: PayloadAPS,
    pub info: Option<Vec<(String, String)>>,
}

} // verus!
