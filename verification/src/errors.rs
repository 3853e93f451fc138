use vstd::prelude::*;
use vstd::string::StringExecFns;

use crate::addr::PeerAddr;
use crate::rpc::types::ErrorMessage;
use crate::text::{addr_text, push_addr};

verus! {

/// Why a method could not be registered.
#[derive(Debug, PartialEq, Eq)]
pub enum RegistrationErrorKind {
    /// The name is already registered.
    HandleAlreadyMapped(String),
}

/// A failed registration.
#[derive(Debug, PartialEq, Eq)]
pub struct RegistrationError {
    pub inner: RegistrationErrorKind,
}

/// Why a client could not be released.
#[derive(Debug, PartialEq, Eq)]
pub enum ClientErrorKind {
    /// Somebody still holds the method when its peer is deregistered.
    DeregisterHandleHeld(String),
}

/// A client that could not be released.
#[derive(Debug, PartialEq, Eq)]
pub struct ClientError {
    pub inner: ClientErrorKind,
}

/// Everything that can go wrong while a request is served.
#[derive(Debug, PartialEq, Eq)]
pub enum ErrorKind {
    /// A value could not be read or written; the cause says why.
    SerializationError(String),
    /// A peer could not be reached; the cause says why.
    IoError(String),
    /// A service could not register one of its methods.
    ServiceRegistrationError(String, RegistrationError),
    /// A connected app could not be released.
    ConnectedAppError(PeerAddr, ClientError),
    /// No method of this name is registered.
    RpcError(String),
    /// The peer that served the request with this id has disconnected.
    ServerDisconnected(String),
    /// A response came in under an id that nobody waits for.
    UnexpectedResponse(String),
}

/// An error of the dispatcher.
#[derive(Debug, PartialEq, Eq)]
pub struct Error {
    pub inner: ErrorKind,
}

pub ghost enum ErrorView {
    Serialization(Seq<char>),
    Io(Seq<char>),
    ServiceRegistration(Seq<char>, Seq<char>),
    ConnectedApp(PeerAddr, Seq<char>),
    Rpc(Seq<char>),
    ServerDisconnected(Seq<char>),
    UnexpectedResponse(Seq<char>),
}

/// What a failed registration of `handle` says.
pub open spec fn registration_text(handle: Seq<char>) -> Seq<char> {
    "Existing handle found for endpoint "@ + handle
}

/// What a failed release of `handle` says.
pub open spec fn client_text(handle: Seq<char>) -> Seq<char> {
    "Multiple strong references held to "@ + handle
        + " when attempting to deregister client"@
}

impl ErrorView {
    /// What the error says.
    pub open spec fn text(self) -> Seq<char> {
        match self {
            ErrorView::Serialization(cause) => "error in serialization: "@ + cause,
            ErrorView::Io(cause) => "io error: "@ + cause,
            ErrorView::ServiceRegistration(service, handle) => "failed to register service "@
                + service + " -> "@ + registration_text(handle),
            ErrorView::ConnectedApp(client, handle) => "client "@ + addr_text(client) + " -> "@
                + client_text(handle),
            ErrorView::Rpc(name) => "invalid rpc error: rpc "@ + name + " is not registered"@,
            ErrorView::ServerDisconnected(id) => "Server disconnected while handling request to "@
                + id,
            ErrorView::UnexpectedResponse(id) => "Received unexpected response to message "@ + id,
        }
    }

    /// The causes of the error, the nearest first.
    pub open spec fn chain(self) -> Seq<Seq<char>> {
        match self {
            ErrorView::Serialization(cause) => seq![cause],
            ErrorView::Io(cause) => seq![cause],
            _ => Seq::empty(),
        }
    }
}

impl DeepView for RegistrationError {
    type V = Seq<char>;

    /// The handle that was taken.
    open spec fn deep_view(&self) -> Seq<char> {
        match self.inner {
            RegistrationErrorKind::HandleAlreadyMapped(handle) => handle@,
        }
    }
}

impl DeepView for ClientError {
    type V = Seq<char>;

    /// The handle that is still held.
    open spec fn deep_view(&self) -> Seq<char> {
        match self.inner {
            ClientErrorKind::DeregisterHandleHeld(handle) => handle@,
        }
    }
}

impl DeepView for ErrorKind {
    type V = ErrorView;

    open spec fn deep_view(&self) -> ErrorView {
        match self {
            ErrorKind::SerializationError(cause) => ErrorView::Serialization(cause@),
            ErrorKind::IoError(cause) => ErrorView::Io(cause@),
            ErrorKind::ServiceRegistrationError(service, error) => ErrorView::ServiceRegistration(
                service@,
                error.deep_view(),
            ),
            ErrorKind::ConnectedAppError(client, error) => ErrorView::ConnectedApp(
                *client,
                error.deep_view(),
            ),
            ErrorKind::RpcError(name) => ErrorView::Rpc(name@),
            ErrorKind::ServerDisconnected(id) => ErrorView::ServerDisconnected(id@),
            ErrorKind::UnexpectedResponse(id) => ErrorView::UnexpectedResponse(id@),
        }
    }
}

impl DeepView for Error {
    type V = ErrorView;

    open spec fn deep_view(&self) -> ErrorView {
        self.inner.deep_view()
    }
}

impl RegistrationError {
    /// The error of a name that is already registered.
    pub fn handle_already_exists(handle: &str) -> (r: RegistrationError)
        ensures
            r.deep_view() == handle@,
    {
        RegistrationError { inner: RegistrationErrorKind::HandleAlreadyMapped(handle.to_owned()) }
    }

    /// What the error says.
    pub fn message(&self) -> (r: String)
        ensures
            r@ == registration_text(self.deep_view()),
    {
        match &self.inner {
            RegistrationErrorKind::HandleAlreadyMapped(handle) => {
                let mut out = "Existing handle found for endpoint ".to_owned();
                out.append(handle.as_str());
                out
            },
        }
    }
}

impl ClientError {
    /// The error of a method that is still held when its peer leaves.
    pub fn strong_references_to(handle: &str) -> (r: ClientError)
        ensures
            r.deep_view() == handle@,
    {
        ClientError { inner: ClientErrorKind::DeregisterHandleHeld(handle.to_owned()) }
    }

    /// What the error says.
    pub fn message(&self) -> (r: String)
        ensures
            r@ == client_text(self.deep_view()),
    {
        match &self.inner {
            ClientErrorKind::DeregisterHandleHeld(handle) => {
                let mut out = "Multiple strong references held to ".to_owned();
                out.append(handle.as_str());
                out.append(" when attempting to deregister client");
                out
            },
        }
    }
}

impl Error {
    /// The error of this kind.
    pub fn from_kind(kind: ErrorKind) -> (r: Error)
        ensures
            r.deep_view() == kind.deep_view(),
    {
        Error { inner: kind }
    }

    /// The error of a service that could not register a method.
    pub fn registration_error(service: &str, error: RegistrationError) -> (r: Error)
        ensures
            r.deep_view() == ErrorView::ServiceRegistration(service@, error.deep_view()),
    {
        Error { inner: ErrorKind::ServiceRegistrationError(service.to_owned(), error) }
    }

    /// The error of a connected app that could not be released.
    pub fn client_error(client: PeerAddr, error: ClientError) -> (r: Error)
        ensures
            r.deep_view() == ErrorView::ConnectedApp(client, error.deep_view()),
    {
        Error { inner: ErrorKind::ConnectedAppError(client, error) }
    }

    /// The error of a peer that could not be reached. `before`, the address
    /// and `after` make up the cause.
    pub fn unreachable(before: &str, peer: PeerAddr, after: &str) -> (r: Error)
        ensures
            r.deep_view() == ErrorView::Io(before@ + addr_text(peer) + after@),
    {
        let mut cause = before.to_owned();
        push_addr(&mut cause, peer);
        cause.append(after);
        Error { inner: ErrorKind::IoError(cause) }
    }

    /// What the error says.
    pub fn message(&self) -> (r: String)
        ensures
            r@ == self.deep_view().text(),
    {
        match &self.inner {
            ErrorKind::SerializationError(cause) => {
                let mut out = "error in serialization: ".to_owned();
                out.append(cause.as_str());
                out
            },
            ErrorKind::IoError(cause) => {
                let mut out = "io error: ".to_owned();
                out.append(cause.as_str());
                out
            },
            ErrorKind::ServiceRegistrationError(service, error) => {
                let mut out = "failed to register service ".to_owned();
                out.append(service.as_str());
                out.append(" -> ");
                let inner = error.message();
                out.append(inner.as_str());
                assert(out@ =~= self.deep_view().text());
                out
            },
            ErrorKind::ConnectedAppError(client, error) => {
                let mut out = "client ".to_owned();
                push_addr(&mut out, *client);
                out.append(" -> ");
                let inner = error.message();
                out.append(inner.as_str());
                assert(out@ =~= self.deep_view().text());
                out
            },
            ErrorKind::RpcError(name) => {
                let mut out = "invalid rpc error: rpc ".to_owned();
                out.append(name.as_str());
                out.append(" is not registered");
                out
            },
            ErrorKind::ServerDisconnected(id) => {
                let mut out = "Server disconnected while handling request to ".to_owned();
                out.append(id.as_str());
                out
            },
            ErrorKind::UnexpectedResponse(id) => {
                let mut out = "Received unexpected response to message ".to_owned();
                out.append(id.as_str());
                out
            },
        }
    }

    /// The causes of the error, the nearest first.
    pub fn chain(&self) -> (r: Vec<String>)
        ensures
            r.deep_view() == self.deep_view().chain(),
    {
        let mut causes: Vec<String> = Vec::new();
        match &self.inner {
            ErrorKind::SerializationError(cause) => {
                causes.push(cause.clone());
            },
            ErrorKind::IoError(cause) => {
                causes.push(cause.clone());
            },
            _ => {},
        }
        assert(causes.deep_view() =~= self.deep_view().chain());
        causes
    }

    /// The error as it is reported to a peer.
    pub fn report(&self) -> (r: ErrorMessage)
        ensures
            r.error@ == self.deep_view().text(),
            r.chain.deep_view() == self.deep_view().chain(),
    {
        ErrorMessage { error: self.message(), chain: self.chain() }
    }
}

} // verus!
