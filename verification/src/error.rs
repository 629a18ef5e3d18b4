use tonic::transport::Error as TransportError;
use vstd::prelude::*;

verus! {

/// The I/O error type carried by [`Error`] variants.
#[verifier::external_type_specification]
#[verifier::external_body]
pub struct ExIoError(std::io::Error);

/// The transport error type of `tonic`, carried by [`Error::Transport`].
#[verifier::external_type_specification]
#[verifier::external_body]
pub struct ExTransportError(TransportError);

/// The gRPC status type of `tonic`, carried by [`Error::GrpcStatus`].
#[verifier::external_type_specification]
#[verifier::external_body]
pub struct ExStatus(tonic::Status);

/// The metadata error type of `tonic`, carried by [`Error::InvalidMetadataValue`].
#[verifier::external_type_specification]
#[verifier::external_body]
pub struct ExInvalidMetadataValue(tonic::metadata::errors::InvalidMetadataValue);

/// Errors returned by the `LazyCat` SDK compatibility layer.
#[derive(Debug)]
#[allow(inconsistent_fields)]
pub enum Error {
    /// A runtime credential could not be read.
    CredentialRead {
        /// Credential path that failed.
        path: String,
        /// Underlying I/O failure.
        source: std::io::Error,
    },
    /// A certificate file was empty, malformed, or unsupported.
    InvalidCertificate {
        /// Certificate path that failed validation.
        path: String,
        /// Sanitized validation reason.
        reason: &'static str,
    },
    /// A private key file was empty, malformed, unsupported, or mismatched.
    InvalidPrivateKey {
        /// Private key path that failed validation.
        path: String,
        /// Sanitized validation reason.
        reason: &'static str,
    },
    /// A tonic channel could not be configured or connected.
    Transport(TransportError),
    /// A gRPC method returned a status response.
    GrpcStatus(tonic::Status),
    /// The runtime gateway override is not a host or HTTP(S) URI.
    InvalidGatewayAddress,
    /// A device API URL is malformed or uses an unsupported scheme.
    InvalidDeviceUrl,
    /// The application private key cannot produce Go-compatible auth signatures.
    UnsupportedAuthSigningKey,
    /// Signing the application identity failed.
    AuthSigning,
    /// The device returned a token without an expiry deadline.
    MissingTokenDeadline,
    /// The device returned an invalid token expiry deadline.
    InvalidTokenDeadline,
    /// An auth token cannot be encoded as gRPC metadata.
    InvalidAuthTokenMetadata,
    /// The device does not implement the optional service-status API.
    ServiceStatusUnsupported,
    /// `HPortalSys` returned a malformed or unsupported `RemoteSocks` URL.
    InvalidRemoteSocksEndpoint,
    /// Resolving the `LazyCat` host-service address failed.
    ServiceAddressLookup {
        /// Underlying DNS lookup failure.
        source: std::io::Error,
    },
    /// No resolved host-service candidate had a usable local route.
    ServiceAddressNoRoute {
        /// Last route-selection failure, when at least one candidate was tried.
        source: Option<std::io::Error>,
    },
    /// A SOCKS address is malformed or cannot be represented on the wire.
    InvalidSocksAddress,
    /// A SOCKS domain or custom address exceeds the one-byte wire length.
    SocksAddressTooLong,
    /// A SOCKS peer used an address type not defined by RFC 1928.
    UnsupportedSocksAddressType {
        /// Unrecognized wire address type.
        address_type: u8,
    },
    /// A network operation used by `RemoteSocks` failed.
    RemoteSocksIo(std::io::Error),
    /// Connecting to the `RemoteSocks` proxy exceeded the configured deadline.
    RemoteSocksTimeout,
    /// A SOCKS peer replied with an unexpected protocol version.
    UnexpectedSocksVersion {
        /// Version byte received from the peer.
        version: u8,
    },
    /// A SOCKS peer rejected every offered authentication method.
    SocksNoAcceptableAuthentication,
    /// A SOCKS peer selected an authentication method this SDK does not support.
    UnsupportedSocksAuthentication {
        /// Authentication method selected by the peer.
        method: u8,
    },
    /// A SOCKS reply used a non-zero reserved byte.
    InvalidSocksReservedByte {
        /// Reserved byte received from the peer.
        reserved: u8,
    },
    /// A SOCKS command failed with the provided RFC 1928 reply code.
    SocksReply {
        /// SOCKS reply code returned by the peer.
        code: u8,
    },
    /// A SOCKS UDP datagram had invalid reserved or framing bytes.
    InvalidSocksUdpHeader,
    /// SOCKS UDP fragmentation is not supported by this SDK.
    UnsupportedSocksUdpFragment {
        /// Non-zero RFC 1928 fragment byte.
        fragment: u8,
    },
    /// A UDP payload cannot fit in one transport frame.
    SocksUdpPayloadTooLarge,
    /// An operation requiring a fixed UDP peer was used on a bound socket.
    SocksUdpNotConnected,
    /// The `RemoteSocks` TCP control stream has closed.
    RemoteSocksControlClosed,
    /// A SOCKS address cannot be used as a concrete UDP socket address.
    InvalidSocksUdpAddress,
    /// A value cannot be represented as gRPC metadata.
    InvalidMetadataValue(tonic::metadata::errors::InvalidMetadataValue),
    /// The request was not received over authenticated TLS.
    UnauthenticatedPeer,
    /// `LazyCat` application identity requires exactly one peer certificate.
    InvalidPeerCertificateCount {
        /// Number of certificates presented by the peer.
        count: usize,
    },
    /// The peer certificate could not be decoded as X.509.
    InvalidPeerCertificate,
}

} // verus!
