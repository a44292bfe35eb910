//! Script-side models of two DOM objects of a web engine.
//!
//! `gpubuffer` holds the client half of the GPU buffer mapping protocol: a
//! state machine over `Unmapped`, `MappingPending`, `Mapped`,
//! `MappedAtCreation` and `Destroyed`, a registry of the views handed out
//! over a mapped region, and the single in-flight future of an asynchronous
//! map request.  Every operation is a pure transition on plain data; the
//! messages that must go to the remote device process are returned to the
//! caller as values, so the embedder performs the actual sends.
//!
//! `performance` holds the performance timeline: the entry buffer, the
//! registered observers, and the bookkeeping of the resource-timing buffer
//! with its secondary queue and buffer-full event.

// The operations a host runtime dispatches to keep their interface-level
// capitalised names.
#![allow(non_snake_case)]

pub mod gpubuffer;
pub mod performance;
