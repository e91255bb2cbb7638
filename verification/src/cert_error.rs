//! Errors of files that hold certificates and keys, each with the path of the file and the cause.

use vstd::prelude::*;
use vstd::string::*;

use crate::request_error::ErrorLink;

verus! {

/// The file of the client's certificate could not be used.
#[derive(Debug)]
pub struct ClientCertError<S> {
    path: String,
    source: S,
}

impl<S> ClientCertError<S> {
    /// The path of the file.
    pub closed spec fn path_view(&self) -> Seq<char> {
        self.path@
    }

    /// The cause.
    pub closed spec fn source_view(&self) -> S {
        self.source
    }

    pub fn new(path: &str, source: S) -> (r: Self)
        ensures
            r.path_view() == path@,
            r.source_view() == source,
    {
        ClientCertError { path: path.to_owned(), source }
    }

    /// What the user is told.
    pub fn to_string(&self) -> (r: String)
        ensures
            r@ == "Something failed with client certificate "@ + self.path_view(),
    {
        let mut out = "Something failed with client certificate ".to_owned();
        out.append(self.path.as_str());
        out
    }

    /// The cause.
    pub fn source(&self) -> (r: &S)
        ensures
            *r == self.source_view(),
    {
        &self.source
    }

    /// The error as a link of a chain of errors.
    pub fn link(&self) -> (r: ErrorLink)
        ensures
            r matches ErrorLink::ClientCert { path } && path@ == self.path_view(),
    {
        ErrorLink::ClientCert { path: self.path.clone() }
    }
}

/// The file of the client's private key could not be used.
#[derive(Debug)]
pub struct ClientKeyError<S> {
    path: String,
    source: S,
}

impl<S> ClientKeyError<S> {
    /// The path of the file.
    pub closed spec fn path_view(&self) -> Seq<char> {
        self.path@
    }

    /// The cause.
    pub closed spec fn source_view(&self) -> S {
        self.source
    }

    pub fn new(path: &str, source: S) -> (r: Self)
        ensures
            r.path_view() == path@,
            r.source_view() == source,
    {
        ClientKeyError { path: path.to_owned(), source }
    }

    /// What the user is told.
    pub fn to_string(&self) -> (r: String)
        ensures
            r@ == "Something failed with client private key "@ + self.path_view(),
    {
        let mut out = "Something failed with client private key ".to_owned();
        out.append(self.path.as_str());
        out
    }

    /// The cause.
    pub fn source(&self) -> (r: &S)
        ensures
            *r == self.source_view(),
    {
        &self.source
    }

    /// The error as a link of a chain of errors.
    pub fn link(&self) -> (r: ErrorLink)
        ensures
            r matches ErrorLink::ClientKey { path } && path@ == self.path_view(),
    {
        ErrorLink::ClientKey { path: self.path.clone() }
    }
}

/// The file of trusted certificates could not be used.
#[derive(Debug)]
pub struct TrustCertError<S> {
    path: String,
    source: S,
}

impl<S> TrustCertError<S> {
    /// The path of the file.
    pub closed spec fn path_view(&self) -> Seq<char> {
        self.path@
    }

    /// The cause.
    pub closed spec fn source_view(&self) -> S {
        self.source
    }

    pub fn new(path: &str, source: S) -> (r: Self)
        ensures
            r.path_view() == path@,
            r.source_view() == source,
    {
        TrustCertError { path: path.to_owned(), source }
    }

    /// What the user is told.
    pub fn to_string(&self) -> (r: String)
        ensures
            r@ == "Something failed with trust certificate "@ + self.path_view(),
    {
        let mut out = "Something failed with trust certificate ".to_owned();
        out.append(self.path.as_str());
        out
    }

    /// The cause.
    pub fn source(&self) -> (r: &S)
        ensures
            *r == self.source_view(),
    {
        &self.source
    }

    /// The error as a link of a chain of errors.
    pub fn link(&self) -> (r: ErrorLink)
        ensures
            r matches ErrorLink::TrustCert { path } && path@ == self.path_view(),
    {
        ErrorLink::TrustCert { path: self.path.clone() }
    }
}

} // verus!
