pub mod client;
pub mod conn;
pub mod errors;
pub mod feedback;
pub mod frame;
pub mod payload;
pub mod token;
pub mod wire;

pub use client::APNS;
pub use errors::ApnsError;
pub use payload::Payload;
pub use payload::PayloadAPS;
pub use payload::PayloadAPSAlert;
