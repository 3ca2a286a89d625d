//! The cloud drive's web protocol.

pub mod client;
pub mod error;
pub mod item;
pub mod laws;
pub mod login;
pub mod login_laws;
pub mod replace;
pub mod request;
pub mod upload;
pub mod upload_laws;
pub mod upload_run;
pub mod wire;

pub use self::client::QuarkClient;
pub use self::error::QuarkError;
pub use self::item::RemoteItem;
pub use self::login::{AccountInfo, QrCodeData, QrLoginResult, QuarkQrLogin};
pub use crate::names::is_internal_name;
