//! Update client and server traits.
//!
//! An update server is given long running tasks by its clients; it sends
//! the client updates on a task before it finally sends a response.

use vstd::prelude::*;

verus! {

/// A common abstraction for all update clients.
pub trait UpdateClient {
    /// The type of data used as a request by the client.
    type Request;
    /// The type of data used as an update from the server.
    type Update;
    /// The type of data used as a response from the server.
    type Response;
    /// The type of error from sending or receiving data.
    type Error;

    /// Send a request to the server this client is associated with.
    fn send_request(&mut self, request: Self::Request) -> Result<(), Self::Error>;

    /// Poll for a single update from the server.
    fn poll_for_update(&mut self) -> Result<Option<(Self::Request, Self::Update)>, Self::Error>;

    /// Poll for updates from the server.
    fn poll_for_updates(&mut self) -> Vec<Result<(Self::Request, Self::Update), Self::Error>>;

    /// Poll for a single response from the server.
    fn poll_for_response(&mut self) -> Result<Option<(Self::Request, Self::Response)>, Self::Error>;

    /// Poll for responses from the server.
    fn poll_for_responses(&mut self) -> Vec<Result<(Self::Request, Self::Response), Self::Error>>;
}

/// A common abstraction for all update servers.
pub trait UpdateServer {
    /// The type of data received as a request from the client.
    type Request: Clone;
    /// The type of data sent as an update to the client.
    type Update;
    /// The type of data sent as a response to the client.
    type Response;
    /// The unique identifier type for the various clients.
    type Key;
    /// The type of error from sending or receiving data.
    type Error;

    /// Check for a single incoming request from the clients.
    fn poll_for_request(&mut self) -> Result<Option<(Self::Key, Self::Request)>, Self::Error>;

    /// Check for incoming requests from the clients.
    fn poll_for_requests(&mut self) -> Vec<Result<(Self::Key, Self::Request), Self::Error>>;

    /// Send an update to a specific client.
    fn send_update(
        &mut self,
        client_key: Self::Key,
        request: &Self::Request,
        update: Self::Update,
    ) -> Result<(), Self::Error>;

    /// Send a collection of updates to specified clients, in order; the
    /// result of each send comes back at the same position.
    fn send_updates<'a>(
        &mut self,
        updates: Vec<(Self::Key, &'a Self::Request, Self::Update)>,
    ) -> (results: Vec<Result<(), Self::Error>>)
        ensures
            results@.len() == updates@.len(),
    {
        let mut updates = updates;
        let ghost n = updates@.len();
        let mut results: Vec<Result<(), Self::Error>> = Vec::new();
        while updates.len() > 0
            invariant
                results@.len() + updates@.len() == n,
            decreases updates@.len(),
        {
            let (key, request, update) = updates.remove(0);
            let result = self.send_update(key, request, update);
            results.push(result);
        }
        results
    }

    /// Send a response to a specific client.
    fn send_response(
        &mut self,
        client_key: Self::Key,
        request: Self::Request,
        response: Self::Response,
    ) -> Result<(), Self::Error>;

    /// Send a collection of responses to specified clients, in order; the
    /// result of each send comes back at the same position.
    fn send_responses(
        &mut self,
        responses: Vec<(Self::Key, Self::Request, Self::Response)>,
    ) -> (results: Vec<Result<(), Self::Error>>)
        ensures
            results@.len() == responses@.len(),
    {
        let mut responses = responses;
        let ghost n = responses@.len();
        let mut results: Vec<Result<(), Self::Error>> = Vec::new();
        while responses.len() > 0
            invariant
                results@.len() + responses@.len() == n,
            decreases responses@.len(),
        {
            let (key, request, response) = responses.remove(0);
            let result = self.send_response(key, request, response);
            results.push(result);
        }
        results
    }
}

} // verus!
