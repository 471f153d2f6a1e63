//! The header sent with each Double Ratchet message, and its encoding as the AEAD
//! associated data.

use vstd::prelude::*;

use crate::bytes::{append_bytes, array32_from_slice, decimal_ascii, push_decimal, to_vec};
use crate::json::{append_number_list, json_number_list};
use crate::curve::PublicKey;

verus! {

/// Header sent with each encrypted message: the sender's current ratchet public key and
/// the message counters.
#[derive(Debug, Clone)]
pub struct MessageHeader {
    /// Sender's current DH ratchet public key (32 bytes).
    pub dh_public_key: Vec<u8>,
    /// Message number in the current sending chain.
    pub message_number: u32,
    /// Length of the previous sending chain.
    pub previous_chain_length: u32,
}

/// The values a header carries.
pub struct HeaderFields {
    pub dh_public_key: Seq<u8>,
    pub message_number: u32,
    pub previous_chain_length: u32,
}

impl View for MessageHeader {
    type V = HeaderFields;

    open spec fn view(&self) -> HeaderFields {
        HeaderFields {
            dh_public_key: self.dh_public_key@,
            message_number: self.message_number,
            previous_chain_length: self.previous_chain_length,
        }
    }
}

/// ASCII `{"dh_public_key":[`.
pub open spec fn json_open() -> Seq<u8> {
    seq![123u8, 34u8, 100u8, 104u8, 95u8, 112u8, 117u8, 98u8, 108u8, 105u8, 99u8, 95u8, 107u8, 101u8, 121u8, 34u8, 58u8, 91u8]
}

/// ASCII `],"message_number":`.
pub open spec fn json_after_key() -> Seq<u8> {
    seq![93u8, 44u8, 34u8, 109u8, 101u8, 115u8, 115u8, 97u8, 103u8, 101u8, 95u8, 110u8, 117u8, 109u8, 98u8, 101u8, 114u8, 34u8, 58u8]
}

/// ASCII `,"previous_chain_length":`.
pub open spec fn json_after_number() -> Seq<u8> {
    seq![44u8, 34u8, 112u8, 114u8, 101u8, 118u8, 105u8, 111u8, 117u8, 115u8, 95u8, 99u8, 104u8, 97u8, 105u8, 110u8, 95u8, 108u8, 101u8, 110u8, 103u8, 116u8, 104u8, 34u8, 58u8]
}

/// The compact JSON object of a header, fields in declaration order, the key as an array
/// of numbers: `{"dh_public_key":[..],"message_number":N,"previous_chain_length":P}`.
/// It is the associated data that authenticates the header with each message.
pub open spec fn header_json(h: HeaderFields) -> Seq<u8> {
    json_open() + json_number_list(h.dh_public_key) + json_after_key() + decimal_ascii(
        h.message_number as nat,
    ) + json_after_number() + decimal_ascii(h.previous_chain_length as nat) + seq![125u8]
}

fn append_json_open(v: &mut Vec<u8>)
    ensures
        final(v)@ == old(v)@ + json_open(),
{
    let a: [u8; 18] = [123u8, 34u8, 100u8, 104u8, 95u8, 112u8, 117u8, 98u8, 108u8, 105u8, 99u8, 95u8, 107u8, 101u8, 121u8, 34u8, 58u8, 91u8];
    assert(a@ =~= json_open());
    append_bytes(v, &a);
}

fn append_json_after_key(v: &mut Vec<u8>)
    ensures
        final(v)@ == old(v)@ + json_after_key(),
{
    let a: [u8; 19] = [93u8, 44u8, 34u8, 109u8, 101u8, 115u8, 115u8, 97u8, 103u8, 101u8, 95u8, 110u8, 117u8, 109u8, 98u8, 101u8, 114u8, 34u8, 58u8];
    assert(a@ =~= json_after_key());
    append_bytes(v, &a);
}

fn append_json_after_number(v: &mut Vec<u8>)
    ensures
        final(v)@ == old(v)@ + json_after_number(),
{
    let a: [u8; 25] = [44u8, 34u8, 112u8, 114u8, 101u8, 118u8, 105u8, 111u8, 117u8, 115u8, 95u8, 99u8, 104u8, 97u8, 105u8, 110u8, 95u8, 108u8, 101u8, 110u8, 103u8, 116u8, 104u8, 34u8, 58u8];
    assert(a@ =~= json_after_number());
    append_bytes(v, &a);
}

impl MessageHeader {
    /// A header for message `msg_num` of a chain, sent with ratchet key `dh_key`, after a
    /// previous chain of `prev_chain_len` messages.
    pub fn new(dh_key: &PublicKey, msg_num: u32, prev_chain_len: u32) -> (r: Self)
        ensures
            r@ == (HeaderFields {
                dh_public_key: dh_key@,
                message_number: msg_num,
                previous_chain_length: prev_chain_len,
            }),
    {
        MessageHeader {
            dh_public_key: to_vec(dh_key.as_bytes()),
            message_number: msg_num,
            previous_chain_length: prev_chain_len,
        }
    }

    /// The sender's ratchet public key.
    pub fn to_public_key(&self) -> (r: PublicKey)
        requires
            self.dh_public_key@.len() == 32,
        ensures
            r@ == self.dh_public_key@,
    {
        PublicKey::from_bytes(array32_from_slice(self.dh_public_key.as_slice()))
    }

    /// The header as the AEAD associated data: its compact JSON encoding.
    pub fn to_bytes(&self) -> (r: Vec<u8>)
        ensures
            r@ == header_json(self@),
    {
        let mut out: Vec<u8> = Vec::new();
        append_json_open(&mut out);
        append_number_list(&mut out, self.dh_public_key.as_slice());
        append_json_after_key(&mut out);
        push_decimal(&mut out, self.message_number as u64);
        append_json_after_number(&mut out);
        push_decimal(&mut out, self.previous_chain_length as u64);
        out.push(125u8);
        assert(out@ =~= header_json(self@));
        out
    }
}

} // verus!
