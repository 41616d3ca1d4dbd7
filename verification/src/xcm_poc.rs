//! The cross-chain forwarder: builds the encoded `execute` call that is
//! relayed to a sibling execution domain, and decides which event to deposit
//! for the relay's outcome. The relay itself — sending the message upward to
//! the destination chain — is the host's collaborator, specified only as
//! "accepts an encoded call plus a weight bound and a destination"; its
//! outcome is handed back to the decision function here.

use vstd::prelude::*;
use crate::result::DispatchError;
use crate::tx::{chunk_enc, chunk_valid};
use crate::pipeline::Origin;

verus! {

/// The call index of the `execute` operation inside the forwarded call.
pub const EXECUTE_CALL_INDEX: u8 = 0;

/// The weight bound a forwarded execution is allowed on the sibling chain,
/// which is also the gas limit encoded into the forwarded call.
pub const FORWARD_WEIGHT_BOUND: u64 = 1_000_000;

/// Events of the forwarder.
#[derive(Clone, Debug, PartialEq, Eq)]
pub enum Event {
    /// A call was relayed toward this destination, carrying a payload of
    /// this length.
    PingSent { para_id: u32, payload_len: u64 },
    /// The relay refused the message with this error code; the payload is
    /// returned for inspection.
    ErrorSendingPing { error: u32, para_id: u32, payload: Vec<u8> },
}

/// The eight little-endian bytes of a 64-bit value.
pub open spec fn le8(n: u64) -> Seq<u8> {
    seq![
        (n & 0xff) as u8,
        ((n >> 8) & 0xff) as u8,
        ((n >> 16) & 0xff) as u8,
        ((n >> 24) & 0xff) as u8,
        ((n >> 32) & 0xff) as u8,
        ((n >> 40) & 0xff) as u8,
        ((n >> 48) & 0xff) as u8,
        ((n >> 56) & 0xff) as u8,
    ]
}

/// The canonical encoding of a forwarded `execute` call: the call index, the
/// transaction payload as a chunk, and the gas limit.
pub open spec fn execute_call_enc(payload: Seq<u8>, gas_limit: u64) -> Seq<u8> {
    seq![EXECUTE_CALL_INDEX] + chunk_enc(payload) + le8(gas_limit)
}

fn push_le8(out: &mut Vec<u8>, n: u64)
    ensures
        final(out)@ == old(out)@ + le8(n),
{
    out.push((n & 0xff) as u8);
    out.push(((n >> 8) & 0xff) as u8);
    out.push(((n >> 16) & 0xff) as u8);
    out.push(((n >> 24) & 0xff) as u8);
    out.push(((n >> 32) & 0xff) as u8);
    out.push(((n >> 40) & 0xff) as u8);
    out.push(((n >> 48) & 0xff) as u8);
    out.push(((n >> 56) & 0xff) as u8);
    proof {
        assert(out@ =~= old(out)@ + le8(n));
    }
}

fn push_le4(out: &mut Vec<u8>, n: u32)
    ensures
        final(out)@ == old(out)@ + crate::tx::le4(n),
{
    out.push((n & 0xff) as u8);
    out.push(((n >> 8) & 0xff) as u8);
    out.push(((n >> 16) & 0xff) as u8);
    out.push(((n >> 24) & 0xff) as u8);
    proof {
        assert(out@ =~= old(out)@ + crate::tx::le4(n));
    }
}

/// Encodes the `execute` call forwarded to the sibling chain.
pub fn encode_execute_call(payload: &Vec<u8>, gas_limit: u64) -> (r: Vec<u8>)
    requires
        chunk_valid(payload@),
    ensures
        r@ == execute_call_enc(payload@, gas_limit),
{
    let mut out: Vec<u8> = Vec::new();
    out.push(EXECUTE_CALL_INDEX);
    push_le4(&mut out, payload.len() as u32);
    let mut i: usize = 0;
    while i < payload.len()
        invariant
            0 <= i <= payload@.len(),
            out@ == seq![EXECUTE_CALL_INDEX] + crate::tx::le4(payload@.len() as u32)
                + payload@.take(i as int),
        decreases payload@.len() - i,
    {
        proof {
            assert(seq![EXECUTE_CALL_INDEX] + crate::tx::le4(payload@.len() as u32)
                + payload@.take(i + 1) =~= (seq![EXECUTE_CALL_INDEX] + crate::tx::le4(
                payload@.len() as u32,
            ) + payload@.take(i as int)).push(payload@[i as int]));
        }
        out.push(payload[i]);
        i = i + 1;
    }
    proof {
        assert(payload@.take(payload@.len() as int) =~= payload@);
        assert(out@ =~= seq![EXECUTE_CALL_INDEX] + chunk_enc(payload@));
    }
    push_le8(&mut out, gas_limit);
    proof {
        assert(out@ =~= execute_call_enc(payload@, gas_limit));
    }
    out
}

/// The preparation phase of forwarding an execution to a sibling chain:
/// requires a signed origin, and yields the encoded call together with the
/// weight bound the relay must respect. The relay itself is the host's step.
pub fn execute_on_parachain(origin: &Origin, para_id: u32, payload: &Vec<u8>) -> (r: Result<
    (Vec<u8>, u64),
    DispatchError,
>)
    requires
        origin is Signed ==> chunk_valid(payload@),
    ensures
        !(origin is Signed) ==> r == Err::<(Vec<u8>, u64), DispatchError>(DispatchError::BadOrigin),
        origin is Signed ==> (r matches Ok(p) && p.0@ == execute_call_enc(
            payload@,
            FORWARD_WEIGHT_BOUND,
        ) && p.1 == FORWARD_WEIGHT_BOUND),
{
    match origin {
        Origin::Signed(_) => {},
        _ => {
            return Err(DispatchError::BadOrigin);
        },
    }
    let call = encode_execute_call(payload, FORWARD_WEIGHT_BOUND);
    Ok((call, FORWARD_WEIGHT_BOUND))
}

/// Decides the event deposited for a relay outcome: a successful send
/// reports the destination and the payload length; a refused send returns
/// the error code, the destination and the payload.
pub fn xcm_event_for(send_result: &Result<(), u32>, para_id: u32, payload: Vec<u8>) -> (e: Event)
    ensures
        (*send_result) is Ok ==> e == (Event::PingSent { para_id, payload_len: payload@.len() as u64 }),
        (*send_result) matches Err(code) ==> e == (Event::ErrorSendingPing {
            error: code,
            para_id,
            payload,
        }),
{
    match send_result {
        Ok(_) => Event::PingSent { para_id, payload_len: payload.len() as u64 },
        Err(code) => Event::ErrorSendingPing { error: *code, para_id, payload },
    }
}

} // verus!
