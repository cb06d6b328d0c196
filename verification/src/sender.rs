//! The delivery side's configuration bundle: the trust-anchor set and the
//! connection target, fixed before any worker starts and never mutated,
//! and the errors delivery can raise.

use vstd::prelude::*;

verus! {

/// Relies on rustls::RootCertStore, the set of trusted certificate
/// authorities handed to the TLS session builder. Held opaquely: it is
/// built once before delivery starts and only carried through.
#[verifier::external_type_specification]
#[verifier::external_body]
pub struct ExRootCertStore(rustls::RootCertStore);

/// What can go wrong while delivering: the connection or a write failed
/// (with the transport's message), the hand-off channel closed early, or
/// the TLS layer rejected the session (with its message).
#[derive(Debug, Clone)]
pub enum Error {
    ConnectionError(String),
    PipeError,
    SecurityError(String),
}

/// Everything the delivery worker needs to know, fixed for the process
/// lifetime: the trust anchors, the receiver's host and port, and the
/// identity fields stamped on every record.
pub struct Sender {
    pub root_store: rustls::RootCertStore,
    pub host: String,
    pub port: u16,
    pub hostname: String,
    pub appname: String,
}

impl Sender {
    pub fn new(
        root_store: rustls::RootCertStore,
        host: String,
        port: u16,
        hostname: String,
        appname: String,
    ) -> (s: Sender)
        ensures
            s.root_store == root_store,
            s.host == host,
            s.port == port,
            s.hostname == hostname,
            s.appname == appname,
    {
        Sender { root_store, host, port, hostname, appname }
    }
}

} // verus!
