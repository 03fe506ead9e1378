//! A minimal persistent-record service: motorcycle rental bookings keyed by
//! an auto-incrementing identifier, held in durable key-value storage.
//!
//! The storage layer (`storage`) is an `ic_stable_structures` counter cell
//! and ordered byte map behind trusted wrappers; the codec (`codec`) is the
//! verified binary encoding records cross that boundary with; the service
//! (`service`) composes them into validated create, read, update and delete
//! operations over the record entity (`rental`).

pub mod codec;
pub mod rental;
pub mod service;
pub mod storage;
