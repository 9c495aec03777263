//! Client and server traits.
//!
//! A server is a single entity with any number of clients that send it
//! requests and receive its responses.

use vstd::prelude::*;

verus! {

/// A common abstraction for all clients: sending requests and receiving
/// responses.
pub trait Client {
    /// The type of data used as a request by the client.
    type Request;
    /// The type of data used as a response from the server.
    type Response;
    /// The type of error from sending or receiving data.
    type Error;

    /// Send a request to the server this client is associated with.
    fn send_request(&mut self, request: Self::Request) -> Result<(), Self::Error>;

    /// Check for responses from the server, each paired with the request
    /// it answers.
    fn poll_for_responses(&mut self) -> Vec<Result<(Self::Request, Self::Response), Self::Error>>;
}

/// A common abstraction for all servers.
pub trait Server {
    /// The type of data received as a request from the client.
    type Request;
    /// The type of data sent as a response to the client.
    type Response;
    /// The unique identifier type for the various clients.
    type Key;
    /// The type of error from sending or receiving data.
    type Error;

    /// Check for incoming requests from the clients.
    fn poll_for_requests(&mut self) -> Vec<Result<(Self::Key, Self::Request), Self::Error>>;

    /// Send a response to a specific client.
    fn send_response(
        &mut self,
        client_key: Self::Key,
        request: Self::Request,
        response: Self::Response,
    ) -> Result<(), Self::Error>;

    /// Send a collection of responses to specified clients, in order; the
    /// result of each send comes back at the same position.
    fn send_responses(
        &mut self,
        responses: Vec<(Self::Key, Self::Request, Self::Response)>,
    ) -> (results: Vec<Result<(), Self::Error>>)
        ensures
            results@.len() == responses@.len(),
    {
        let mut responses = responses;
        let ghost n = responses@.len();
        let mut results: Vec<Result<(), Self::Error>> = Vec::new();
        while responses.len() > 0
            invariant
                results@.len() + responses@.len() == n,
            decreases responses@.len(),
        {
            let (key, request, response) = responses.remove(0);
            let result = self.send_response(key, request, response);
            results.push(result);
        }
        results
    }
}

} // verus!
