//! Rust SDK for `LazyCat` application and device APIs: the verified core.
//!
//! This crate holds the wire codecs, URL and address validation, credential
//! checks, framing and decision logic of the SDK. Network and file I/O live
//! in the companion application crate, which hands plain values to the
//! functions here.

pub mod auth;
pub mod certificate;
mod codec;
pub mod connection;
pub mod credentials;
pub mod device_transport;
mod error;
pub mod hserver;
pub mod metadata;
pub mod net;
pub mod net_text;
pub mod peer;
pub mod remotesocks;
pub mod service_address;
pub mod service_status;
pub mod url_parts;

pub use connection::{normalize_gateway_address, PORTAL_SOCKET_PATH, RUNTIME_SOCKET_PATH};
pub use credentials::{
    CredentialMaterial, CredentialPaths, APP_CERT_PATH, APP_KEY_PATH, CA_PATH,
};
pub use error::Error;
pub use hserver::{RemoteLocation, RemoteSocksEndpoint};
pub use metadata::{with_real_uid, REAL_UID_METADATA_KEY};
pub use net::SocketAddress;
pub use peer::Application;
pub use remotesocks::SocksAddress;
pub use service_status::{ServiceState, ServiceStatus};
