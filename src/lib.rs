//! An in-process publish/subscribe bus: publishers push tagged envelopes into
//! one shared queue, and a relay pass copies each envelope to every
//! subscription whose interests match its tag, in publication order.
pub mod bus;
pub mod ident;
pub mod objects;
pub mod queue;
