//! A record as the ledger holds it: where it lives, which program owns it,
//! the byte size fixed when it was created, and its contents.
use crate::address::Address;
use vstd::prelude::*;

verus! {

/// A stored record of type `T`.
#[derive(Clone, Debug)]
pub struct Account<T> {
    /// The address of the record.
    pub key: Address,
    /// The program that owns the record.
    pub owner: Address,
    /// The byte size allocated when the record was created; it never changes.
    pub space: usize,
    /// The record's contents.
    pub data: T,
}

} // verus!
