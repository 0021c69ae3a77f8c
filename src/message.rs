//! The gateway's own request and response model.
use vstd::prelude::*;

verus! {

#[derive(Debug, Clone)]
pub struct Request {
    pub method: String,
    pub path: String,
    /// The protocol family the request arrived on (`rest`, `websocket`).
    pub protocol: String,
    /// The bearer credential the client presented, if any.
    pub credential: Option<String>,
    pub body: Vec<u8>,
}

#[derive(Debug, Clone)]
pub struct Response {
    pub status: u16,
    pub body: Vec<u8>,
}

} // verus!
