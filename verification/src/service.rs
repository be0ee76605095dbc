//! What the application plugs into a server: a service turns a request into
//! a response or refuses it, and a factory makes one service for each
//! connection.

use vstd::prelude::*;
use crate::frame::{Exception, Request, Response};

verus! {

/// The application behind a server. Nothing is promised about what a service
/// answers: it may refuse any request, and a server copes with every answer.
pub trait Service {
    /// Answers a request: with a response, or with the reason for refusing.
    /// A service that does not know a function code refuses with
    /// `Exception::IllegalFunction`.
    fn call(&self, request: Request) -> Result<Response, Exception>;
}

/// A source of services, one for each connection, so that a service can keep
/// state of its connection.
pub trait NewService {
    /// The services that the factory makes.
    type Instance: Service;

    /// Makes the service for a new connection.
    fn new_service(&self) -> Self::Instance;
}

} // verus!
