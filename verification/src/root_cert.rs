//! Trusting a certificate that the user names, for a connection to a server.

use std::string::FromUtf8Error;

use vstd::prelude::*;
use vstd::string::*;
use vstd::utf8::*;

verus! {

/// one or more concatenated certificates (i.e. public), such as a .crt file bundle: 1 MiB
pub const MAX_CERT_BUNDLE_SIZE: usize = 1_048_576;

/// size of a private key file (contains 1 private key), such as a .key file: 64 KiB
pub const MAX_KEY_FILE_SIZE: usize = 65536;

/// A certificate that the TLS library has read.
#[verifier::external_type_specification]
#[verifier::external_body]
pub struct ExCertificate(native_tls::Certificate);

/// Why the TLS library refused something.
#[verifier::external_type_specification]
#[verifier::external_body]
pub struct ExTlsError(native_tls::Error);

/// Why bytes are not UTF-8, with the bytes.
#[verifier::external_type_specification]
#[verifier::external_body]
pub struct ExFromUtf8Error(FromUtf8Error);

/// Why no certificate could be loaded, with the cause `E` that the TLS library gives.
#[derive(Debug)]
pub enum RootCertError<E> {
    /// The file could not be read.
    Read,
    /// The file is not valid UTF-8.
    NotUtf8(FromUtf8Error),
    /// The file is not a certificate in PEM format.
    NotPem(E),
}

/// What to do for a certificate that the user may have named.
#[derive(Clone, Copy, PartialEq, Eq, Debug, Structural)]
pub enum RootCertPlan {
    /// Nothing is to be loaded: none was named.
    NoCertificate,
    /// The file is to be read, with so many bytes allowed.
    ReadFile { max_size: usize },
}

impl<E> RootCertError<E> {
    /// The text of the error for the file at `path`.
    pub open spec fn text(self, path: Seq<char>) -> Seq<char> {
        match self {
            RootCertError::Read => "Failed to read certificate file: "@ + path,
            RootCertError::NotUtf8(_) => "Certificate file is not valid UTF-8: "@ + path,
            RootCertError::NotPem(_) => "Failed to parse PEM certificate: "@ + path,
        }
    }

    /// The text of the error for the file at `path`.
    pub fn message(&self, path: &str) -> (r: String)
        ensures
            r@ == self.text(path@),
            self is Read ==> r@ == "Failed to read certificate file: "@ + path@,
            self is NotUtf8 ==> r@ == "Certificate file is not valid UTF-8: "@ + path@,
            self is NotPem ==> r@ == "Failed to parse PEM certificate: "@ + path@,
    {
        let mut out = match self {
            RootCertError::Read => "Failed to read certificate file: ".to_owned(),
            RootCertError::NotUtf8(_) => "Certificate file is not valid UTF-8: ".to_owned(),
            RootCertError::NotPem(_) => "Failed to parse PEM certificate: ".to_owned(),
        };
        out.append(path);
        out
    }
}

/// `String::from_utf8`: the text that the bytes encode, if they are valid UTF-8, and only then.
#[verifier::external_body]
fn text_from_utf8(bytes: Vec<u8>) -> (r: Result<String, FromUtf8Error>)
    ensures
        r is Ok <==> valid_utf8(bytes@),
        r matches Ok(text) ==> text@ == decode_utf8(bytes@),
{
    String::from_utf8(bytes)
}

/// `native_tls::Certificate::from_pem`: reads a certificate with the TLS library of the machine.
/// Which bytes that library takes for a certificate is not told. It takes no more than a C `int`
/// can count. Apple's systems other than macOS have no such function: there the call panics.
#[verifier::external_body]
fn certificate_from_pem(pem: &[u8]) -> (r: Result<native_tls::Certificate, native_tls::Error>)
    requires
        pem@.len() <= i32::MAX,
{
    native_tls::Certificate::from_pem(pem)
}

/// What to do for the certificate at `cert_path`, if one was named.
pub fn plan_root_cert(cert_path: Option<&str>) -> (r: RootCertPlan)
    ensures
        r == match cert_path {
            Some(_) => RootCertPlan::ReadFile { max_size: MAX_CERT_BUNDLE_SIZE },
            None => RootCertPlan::NoCertificate,
        },
{
    match cert_path {
        Some(_) => RootCertPlan::ReadFile { max_size: MAX_CERT_BUNDLE_SIZE },
        None => RootCertPlan::NoCertificate,
    }
}

/// The text of a certificate file, which must be valid UTF-8. As bytes it is what the file holds.
pub fn root_cert_pem<E>(data: Vec<u8>) -> (r: Result<String, RootCertError<E>>)
    ensures
        match r {
            Ok(pem) => {
                &&& valid_utf8(data@)
                &&& pem@ == decode_utf8(data@)
                &&& encode_utf8(pem@) == data@
            },
            Err(e) => !valid_utf8(data@) && e is NotUtf8,
        },
{
    match text_from_utf8(data) {
        Ok(pem) => {
            proof {
                decode_utf8_encode_utf8(data@);
            }
            Ok(pem)
        },
        Err(e) => Err(RootCertError::NotUtf8(e)),
    }
}

/// What reading a certificate comes to: the certificate, or that the file is not one.
pub open spec fn settled<C, E>(parsed: Result<C, E>) -> Result<C, RootCertError<E>> {
    match parsed {
        Ok(cert) => Ok(cert),
        Err(e) => Err(RootCertError::NotPem(e)),
    }
}

/// What reading a certificate comes to: the certificate, or that the file is not one.
pub fn settle_root_cert<C, E>(parsed: Result<C, E>) -> (r: Result<C, RootCertError<E>>)
    ensures
        r == settled(parsed),
        match parsed {
            Ok(cert) => r == Ok::<C, RootCertError<E>>(cert),
            Err(e) => r == Err::<C, RootCertError<E>>(RootCertError::NotPem(e)),
        },
{
    match parsed {
        Ok(cert) => Ok(cert),
        Err(e) => Err(RootCertError::NotPem(e)),
    }
}

/// What the content of a certificate file comes to, where `parse` reads certificates. It is handed
/// exactly what the file holds, once that is known to be valid UTF-8, and nothing otherwise.
pub fn load_root_cert_with<C, E, F: FnOnce(&[u8]) -> Result<C, E>>(data: Vec<u8>, parse: F) -> (r:
    Result<C, RootCertError<E>>)
    requires
        forall|pem: &[u8]| pem@ == data@ ==> #[trigger] call_requires(parse, (pem,)),
    ensures
        !valid_utf8(data@) <==> r matches Err(RootCertError::NotUtf8(_)),
        valid_utf8(data@) ==> exists|pem: &[u8], parsed: Result<C, E>|
            {
                &&& pem@ == data@
                &&& #[trigger] call_ensures(parse, (pem,), parsed)
                &&& r == settled(parsed)
            },
{
    match root_cert_pem(data) {
        Ok(text) => {
            let pem: &[u8] = text.as_str().as_bytes();
            let parsed = parse(pem);
            settle_root_cert(parsed)
        },
        Err(e) => Err(e),
    }
}

/// Whether the TLS library, asked to read these bytes, may answer so.
pub closed spec fn tls_reads(
    pem: Seq<u8>,
    parsed: Result<native_tls::Certificate, native_tls::Error>,
) -> bool {
    exists|bytes: &[u8]|
        bytes@ == pem && #[trigger] call_ensures(certificate_from_pem, (bytes,), parsed)
}

/// The certificate in a file's content: what the TLS library makes of exactly that content, once
/// it is known to be valid UTF-8.
pub fn load_root_cert(data: Vec<u8>) -> (r: Result<
    native_tls::Certificate,
    RootCertError<native_tls::Error>,
>)
    requires
        data@.len() <= i32::MAX,
    ensures
        !valid_utf8(data@) <==> r matches Err(RootCertError::NotUtf8(_)),
        valid_utf8(data@) ==> exists|
            parsed: Result<native_tls::Certificate, native_tls::Error>,
        | #[trigger] tls_reads(data@, parsed) && r == settled(parsed),
{
    let ghost content = data@;
    let r = load_root_cert_with(data, certificate_from_pem);
    proof {
        if valid_utf8(content) {
            let (bytes, parsed) = choose|
                bytes: &[u8],
                parsed: Result<native_tls::Certificate, native_tls::Error>,
            |
                {
                    &&& bytes@ == content
                    &&& #[trigger] call_ensures(certificate_from_pem, (bytes,), parsed)
                    &&& r == settled(parsed)
                };
            assert(tls_reads(content, parsed));
        }
    }
    r
}

/// What the user is told when a certificate was added.
pub open spec fn added_text(path: Seq<char>) -> Seq<char> {
    "Added trusted certificate from "@ + path + " for a new TLS connection."@
}

/// What the user is told when no certificate was named.
pub const NO_ROOT_CERT: &'static str = "No trusted certificate specified via --cert for this new connection, thus if you used local CA or self-signed server certificate, you may get an error like '(unable to get local issuer certificate)' next.";

/// What the user is told when the certificate at `cert_path` was loaded, or none was named.
pub fn root_cert_notice(cert_path: Option<&str>) -> (r: String)
    ensures
        r@ == match cert_path {
            Some(path) => added_text(path@),
            None => NO_ROOT_CERT@,
        },
        cert_path matches Some(path) ==> r@ == "Added trusted certificate from "@ + path@
            + " for a new TLS connection."@,
{
    match cert_path {
        Some(path) => {
            let mut out = "Added trusted certificate from ".to_owned();
            out.append(path);
            out.append(" for a new TLS connection.");
            out
        },
        None => NO_ROOT_CERT.to_owned(),
    }
}

/// What comes of reading a certificate is what was read: the certificate itself, or the cause for
/// which it is none, and never a failure to read the file or its text.
pub proof fn law_reading_decides<C, E>(parsed: Result<C, E>)
    ensures
        settled(parsed) is Ok <==> parsed is Ok,
        parsed matches Ok(cert) ==> settled(parsed) == Ok::<C, RootCertError<E>>(cert),
        parsed matches Err(e) ==> settled(parsed) == Err::<C, RootCertError<E>>(
            RootCertError::NotPem(e),
        ),
{
}

} // verus!
