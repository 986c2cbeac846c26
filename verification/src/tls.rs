use vstd::prelude::*;
use vstd::string::*;
use crate::error::{ErrorKind, RuntimeError};

verus! {

/// The name under which a peer owns its jobs.
pub type Username = String;

/// The owner identity that is attached to an authenticated request.
#[derive(Debug)]
pub struct UsernameExtension {
    pub username: Username,
}

/// The cipher suites that both sides of a connection are restricted to.
#[derive(Clone, Copy, Debug, PartialEq, Eq, Structural)]
pub enum CipherSuite {
    Tls13Aes128GcmSha256,
    Tls13Aes256GcmSha384,
    Tls13Chacha20Poly1305Sha256,
}

/// The cipher suites of the service, in the order of preference.
pub open spec fn allowed_cipher_suites() -> Seq<CipherSuite> {
    seq![
        CipherSuite::Tls13Aes128GcmSha256,
        CipherSuite::Tls13Aes256GcmSha384,
        CipherSuite::Tls13Chacha20Poly1305Sha256,
    ]
}

/// The cipher suites of the service: those of TLS 1.3 and no others.
pub fn cipher_suites() -> (r: Vec<CipherSuite>)
    ensures
        r@ == allowed_cipher_suites(),
{
    let mut r: Vec<CipherSuite> = Vec::new();
    r.push(CipherSuite::Tls13Aes128GcmSha256);
    r.push(CipherSuite::Tls13Aes256GcmSha384);
    r.push(CipherSuite::Tls13Chacha20Poly1305Sha256);
    assert(r@ =~= allowed_cipher_suites());
    r
}

/// The versions of TLS that both sides of a connection speak.
#[derive(Clone, Copy, Debug, PartialEq, Eq, Structural)]
pub enum ProtocolVersion {
    Tls13,
}

/// The versions of TLS of the service: 1.3 and no other.
pub fn protocol_versions() -> (r: Vec<ProtocolVersion>)
    ensures
        r@ == seq![ProtocolVersion::Tls13],
{
    let mut r: Vec<ProtocolVersion> = Vec::new();
    r.push(ProtocolVersion::Tls13);
    assert(r@ =~= seq![ProtocolVersion::Tls13]);
    r
}

/// The protocols that are advertised by ALPN: `h2` alone.
pub fn alpn_protocols() -> (r: Vec<Vec<u8>>)
    ensures
        r@.len() == 1,
        r@[0]@ == seq![0x68u8, 0x32u8],
{
    let mut h2: Vec<u8> = Vec::new();
    h2.push(0x68u8);
    h2.push(0x32u8);
    assert(h2@ =~= seq![0x68u8, 0x32u8]);
    let mut r: Vec<Vec<u8>> = Vec::new();
    r.push(h2);
    r
}

/// The views of a list of optional texts, in order.
pub open spec fn names_view(names: Seq<Option<String>>) -> Seq<Option<Seq<char>>> {
    Seq::new(
        names.len(),
        |i: int|
            match names[i] {
                Some(name) => Some(name@),
                None => None,
            },
    )
}

/// The common names in the subject of the certificate that the bytes
/// encode, in order, each as text where it is a string; `None` where the
/// bytes are no certificate. The reading is that of
/// `x509_parser::parse_x509_certificate`.
pub uninterp spec fn certificate_common_names(der: Seq<u8>) -> Option<Seq<Option<Seq<char>>>>;

/// Calls `x509_parser::parse_x509_certificate` and walks the subject's
/// common names, each read with `as_str`. Trusted: whether the bytes parse
/// and which names come out depends on the bytes alone, which
/// `certificate_common_names` names. Of the parser's error text nothing is
/// claimed.
#[verifier::external_body]
fn x509_common_names(der: &[u8]) -> (r: Result<Vec<Option<String>>, String>)
    ensures
        match r {
            Ok(names) => certificate_common_names(der@) == Some(names_view(names@)),
            Err(_) => certificate_common_names(der@) is None,
        },
{
    match x509_parser::parse_x509_certificate(der) {
        Ok((_, cert)) => {
            let mut names = Vec::new();
            for cn in cert.subject().iter_common_name() {
                names.push(cn.as_str().ok().map(String::from));
            }
            Ok(names)
        },
        Err(err) => Err(err.to_string()),
    }
}

/// The owner that a subject's common names give: the first of them, if it
/// is there and is text.
pub open spec fn first_name(names: Seq<Option<Seq<char>>>) -> Option<Seq<char>> {
    if names.len() == 0 {
        None
    } else {
        names[0]
    }
}

/// The owner identity in a certificate's common names: the first one.
/// Without a first common name that is text, the peer is unauthenticated.
pub fn extract_name_from_certificate(names: &Vec<Option<String>>) -> (r: Result<
    Username,
    RuntimeError,
>)
    ensures
        match first_name(names_view(names@)) {
            Some(name) => r is Ok && r->Ok_0@ == name,
            None => r is Err && r->Err_0@ == (
                ErrorKind::Unauthenticated,
                "invalid CommonName in certificate"@,
            ),
        },
{
    if names.len() == 0 {
        return Err(
            RuntimeError::new(ErrorKind::Unauthenticated, "invalid CommonName in certificate"),
        );
    }
    match &names[0] {
        Some(name) => Ok(name.clone()),
        None => Err(
            RuntimeError::new(ErrorKind::Unauthenticated, "invalid CommonName in certificate"),
        ),
    }
}

/// The identity that a parsed leaf certificate gives. A certificate that
/// did not parse is refused with the parser's words after
/// `failed to parse certificate: `; one without a usable common name with
/// `failed to extract username: invalid CommonName in certificate`.
pub fn username_from_names(parsed: Result<Vec<Option<String>>, String>) -> (r: Result<
    UsernameExtension,
    RuntimeError,
>)
    ensures
        match parsed {
            Ok(names) => match first_name(names_view(names@)) {
                Some(name) => r is Ok && r->Ok_0.username@ == name,
                None => r is Err && r->Err_0@ == (
                    ErrorKind::Unauthenticated,
                    "failed to extract username: invalid CommonName in certificate"@,
                ),
            },
            Err(words) => r is Err && r->Err_0@ == (
                ErrorKind::Unauthenticated,
                "failed to parse certificate: "@ + words@,
            ),
        },
{
    match parsed {
        Ok(names) => match extract_name_from_certificate(&names) {
            Ok(username) => Ok(UsernameExtension { username }),
            Err(_) => Err(
                RuntimeError::new(
                    ErrorKind::Unauthenticated,
                    "failed to extract username: invalid CommonName in certificate",
                ),
            ),
        },
        Err(words) => {
            let message: String = String::from_str("failed to parse certificate: ").concat(
                words.as_str(),
            );
            Err(RuntimeError { kind: ErrorKind::Unauthenticated, message })
        },
    }
}

/// Whether a peer that presents `certs` is given an identity, and which.
pub open spec fn peer_identity(certs: Seq<Vec<u8>>) -> Option<Seq<char>> {
    if certs.len() == 0 {
        None
    } else {
        match certificate_common_names(certs[0]@) {
            Some(names) => first_name(names),
            None => None,
        }
    }
}

/// Binds a request to its owner: the first common name of the peer's leaf
/// certificate, the first of `certs`. A peer without a certificate, with
/// one that does not parse, or with one that has no usable common name is
/// unauthenticated.
pub fn intercept_extract_username_from_certificate(certs: &Vec<Vec<u8>>) -> (r: Result<
    UsernameExtension,
    RuntimeError,
>)
    ensures
        match peer_identity(certs@) {
            Some(name) => r is Ok && r->Ok_0.username@ == name,
            None => r is Err && r->Err_0.kind == ErrorKind::Unauthenticated,
        },
        certs@.len() == 0 ==> r is Err && r->Err_0.message@ == "no certificate found"@,
        certs@.len() > 0 && certificate_common_names(certs@[0]@) is None ==> r is Err
            && "failed to parse certificate: "@.is_prefix_of(r->Err_0.message@),
        certs@.len() > 0 && certificate_common_names(certs@[0]@) is Some && peer_identity(
            certs@,
        ) is None ==> r is Err && r->Err_0.message@
            == "failed to extract username: invalid CommonName in certificate"@,
{
    if certs.len() == 0 {
        return Err(RuntimeError::new(ErrorKind::Unauthenticated, "no certificate found"));
    }
    username_from_names(x509_common_names(certs[0].as_slice()))
}

/// The owner identity of a request. A request that was not bound to an
/// owner is a broken invariant.
pub fn extract_username_from_request(extension: Option<&UsernameExtension>) -> (r: Result<
    Username,
    RuntimeError,
>)
    ensures
        match extension {
            Some(e) => r is Ok && r->Ok_0@ == e.username@,
            None => r is Err && r->Err_0@ == (
                ErrorKind::Internal,
                "unable to get username extension"@,
            ),
        },
{
    match extension {
        Some(e) => Ok(e.username.clone()),
        None => Err(RuntimeError::new(ErrorKind::Internal, "unable to get username extension")),
    }
}

} // verus!
