//! A symmetric ratchet chain that derives one message key per step.

use vstd::prelude::*;

use crate::error::Result;
use crate::bytes::to_vec;
use crate::kdf::{message_key_of, next_chain_key};

verus! {

/// A symmetric ratchet chain: the current chain key and the number of steps taken.
pub struct ChainKey {
    key: Vec<u8>,
    index: u32,
}

impl View for ChainKey {
    /// The chain key and the index.
    type V = (Seq<u8>, u32);

    closed spec fn view(&self) -> (Seq<u8>, u32) {
        (self.key@, self.index)
    }
}

impl ChainKey {
    /// A chain starting at `key` with `index` steps already taken.
    pub fn new(key: Vec<u8>, index: u32) -> (r: Self)
        ensures
            r@ == (key@, index),
    {
        Self { key, index }
    }

    /// Advance the chain: the chain key moves to its successor, the index grows by one,
    /// and the message key of the former chain key is returned. Always succeeds.
    pub fn advance(&mut self) -> (r: Result<Vec<u8>>)
        requires
            old(self)@.1 < u32::MAX,
        ensures
            final(self)@ == (next_chain_key(old(self)@.0), (old(self)@.1 + 1) as u32),
            r matches Ok(mk) && mk@ == message_key_of(old(self)@.0) && mk@.len() == 32,
    {
        let (new_chain_key, message_key) = crate::kdf::derive_chain_and_message_key(self.key.as_slice())?;
        self.key = new_chain_key;
        self.index = self.index + 1;
        Ok(message_key)
    }

    /// A copy of the chain.
    pub fn duplicate(&self) -> (r: Self)
        ensures
            r@ == self@,
    {
        ChainKey { key: to_vec(self.key.as_slice()), index: self.index }
    }

    /// The number of times the chain has been advanced.
    pub fn index(&self) -> (r: u32)
        ensures
            r == self@.1,
    {
        self.index
    }
}

} // verus!
