//! Publisher to subscriber communication.
//!
//! Publishers push data to some endpoint so that subscribers can read the
//! data published by the publishers.

use vstd::prelude::*;

verus! {

/// The basic publisher trait: publishes data to some endpoint for
/// subscribers to read.
pub trait Publisher {
    /// The data to be published by the publisher.
    type Data;
    /// The error type from attempting to publish data.
    type Error;

    /// Publish a piece of data to the endpoint for subscribers to read.
    fn publish(&mut self, data: Self::Data) -> Result<(), Self::Error>;
}

/// The basic subscriber trait: reads data from some endpoint.
pub trait Subscriber {
    /// The type of data stored in the subscriber.
    type Target;

    /// Update the current data in the subscriber and return a reference to
    /// the current data.
    fn get(&mut self) -> &Self::Target;
}

} // verus!
