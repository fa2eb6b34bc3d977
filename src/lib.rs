use vstd::prelude::*;

pub mod ai;
pub mod error;
pub mod gateway;
pub mod mcp;
pub mod outside;
pub mod proxy;
pub mod rag;
pub mod text;

verus! {

/// Marker for the request handlers that every host shares.
pub struct SharedHandlers;

impl SharedHandlers {
    pub fn new() -> (r: SharedHandlers) {
        SharedHandlers
    }
}

} // verus!
