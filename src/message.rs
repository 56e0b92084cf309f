//! Message grammar. Every message is `[instance, phase, payload...]`; the
//! phase tags 1 and 2 are shared by the A and B variants, and the receiving
//! role tells them apart.

use vstd::prelude::*;

verus! {

/// Number of acceptors whose answers make a quorum (three acceptors).
pub const QUORUM: i32 = 2;

/// Phase tag of a client's submit.
pub const PHASE_SUBMIT: i32 = 0;

/// Phase tag of 1A (prepare) and 1B (promise).
pub const PHASE_ONE: i32 = 1;

/// Phase tag of 2A (accept request) and 2B (accepted).
pub const PHASE_TWO: i32 = 2;

/// Phase tag of a restart sent by a proposer's timer.
pub const PHASE_RESTART: i32 = 3;

/// A message that a role cannot act on.
#[derive(Debug, Clone, Copy, PartialEq, Eq)]
pub enum ProtocolError {
    /// Fewer words than the phase needs.
    Malformed,
    /// A phase tag that this role does not consume.
    UnknownPhase(i32),
    /// A message about an instance this role never started.
    UnknownInstance(i32),
    /// The proposer has used every instance number.
    InstancesExhausted,
}

/// What a proposer receives.
#[derive(Debug, Clone, Copy, PartialEq, Eq)]
pub enum ProposerRequest {
    /// `[_, 0, value]` from a client.
    Submit { value: i32 },
    /// 1B `[instance, 1, rnd, v_rnd, v_val]` from an acceptor.
    Promise { instance: i32, rnd: i32, v_rnd: i32, v_val: i32 },
    /// `[instance, 3, rnd]` from a proposer's timer.
    Restart { instance: i32, rnd: i32 },
}

/// What an acceptor receives.
#[derive(Debug, Clone, Copy, PartialEq, Eq)]
pub enum AcceptorRequest {
    /// 1A `[instance, 1, c_rnd]`.
    Prepare { instance: i32, c_rnd: i32 },
    /// 2A `[instance, 2, c_rnd, c_val]`.
    Accept { instance: i32, c_rnd: i32, c_val: i32 },
}

/// What a learner receives: 2B `[instance, 2, v_rnd, v_val]`.
#[derive(Debug, Clone, Copy, PartialEq, Eq)]
pub struct Accepted {
    pub instance: i32,
    pub v_rnd: i32,
    pub v_val: i32,
}

pub open spec fn proposer_request(m: Seq<i32>) -> Result<ProposerRequest, ProtocolError> {
    if m.len() < 2 {
        Err(ProtocolError::Malformed)
    } else if m[1] == PHASE_SUBMIT {
        if m.len() < 3 { Err(ProtocolError::Malformed) } else { Ok(ProposerRequest::Submit { value: m[2] }) }
    } else if m[1] == PHASE_ONE {
        if m.len() < 5 {
            Err(ProtocolError::Malformed)
        } else {
            Ok(ProposerRequest::Promise { instance: m[0], rnd: m[2], v_rnd: m[3], v_val: m[4] })
        }
    } else if m[1] == PHASE_RESTART {
        if m.len() < 3 { Err(ProtocolError::Malformed) } else { Ok(ProposerRequest::Restart { instance: m[0], rnd: m[2] }) }
    } else {
        Err(ProtocolError::UnknownPhase(m[1]))
    }
}

pub open spec fn acceptor_request(m: Seq<i32>) -> Result<AcceptorRequest, ProtocolError> {
    if m.len() < 2 {
        Err(ProtocolError::Malformed)
    } else if m[1] == PHASE_ONE {
        if m.len() < 3 { Err(ProtocolError::Malformed) } else { Ok(AcceptorRequest::Prepare { instance: m[0], c_rnd: m[2] }) }
    } else if m[1] == PHASE_TWO {
        if m.len() < 4 {
            Err(ProtocolError::Malformed)
        } else {
            Ok(AcceptorRequest::Accept { instance: m[0], c_rnd: m[2], c_val: m[3] })
        }
    } else {
        Err(ProtocolError::UnknownPhase(m[1]))
    }
}

pub open spec fn learner_request(m: Seq<i32>) -> Result<Accepted, ProtocolError> {
    if m.len() < 2 {
        Err(ProtocolError::Malformed)
    } else if m[1] == PHASE_TWO {
        if m.len() < 4 { Err(ProtocolError::Malformed) } else { Ok(Accepted { instance: m[0], v_rnd: m[2], v_val: m[3] }) }
    } else {
        Err(ProtocolError::UnknownPhase(m[1]))
    }
}

/// Reads a message addressed to a proposer.
pub fn parse_proposer_request(m: &[i32]) -> (r: Result<ProposerRequest, ProtocolError>)
    ensures
        r == proposer_request(m@),
{
    if m.len() < 2 {
        Err(ProtocolError::Malformed)
    } else if m[1] == PHASE_SUBMIT {
        if m.len() < 3 { Err(ProtocolError::Malformed) } else { Ok(ProposerRequest::Submit { value: m[2] }) }
    } else if m[1] == PHASE_ONE {
        if m.len() < 5 {
            Err(ProtocolError::Malformed)
        } else {
            Ok(ProposerRequest::Promise { instance: m[0], rnd: m[2], v_rnd: m[3], v_val: m[4] })
        }
    } else if m[1] == PHASE_RESTART {
        if m.len() < 3 { Err(ProtocolError::Malformed) } else { Ok(ProposerRequest::Restart { instance: m[0], rnd: m[2] }) }
    } else {
        Err(ProtocolError::UnknownPhase(m[1]))
    }
}

/// Reads a message addressed to an acceptor.
pub fn parse_acceptor_request(m: &[i32]) -> (r: Result<AcceptorRequest, ProtocolError>)
    ensures
        r == acceptor_request(m@),
{
    if m.len() < 2 {
        Err(ProtocolError::Malformed)
    } else if m[1] == PHASE_ONE {
        if m.len() < 3 { Err(ProtocolError::Malformed) } else { Ok(AcceptorRequest::Prepare { instance: m[0], c_rnd: m[2] }) }
    } else if m[1] == PHASE_TWO {
        if m.len() < 4 {
            Err(ProtocolError::Malformed)
        } else {
            Ok(AcceptorRequest::Accept { instance: m[0], c_rnd: m[2], c_val: m[3] })
        }
    } else {
        Err(ProtocolError::UnknownPhase(m[1]))
    }
}

/// Reads a message addressed to a learner.
pub fn parse_learner_request(m: &[i32]) -> (r: Result<Accepted, ProtocolError>)
    ensures
        r == learner_request(m@),
{
    if m.len() < 2 {
        Err(ProtocolError::Malformed)
    } else if m[1] == PHASE_TWO {
        if m.len() < 4 { Err(ProtocolError::Malformed) } else { Ok(Accepted { instance: m[0], v_rnd: m[2], v_val: m[3] }) }
    } else {
        Err(ProtocolError::UnknownPhase(m[1]))
    }
}

/// The submit a client sends for `value`; the proposer assigns the instance.
pub fn submit_message(value: i32) -> (r: Vec<i32>)
    ensures
        r@ == seq![-1i32, PHASE_SUBMIT, value],
{
    vec![-1i32, PHASE_SUBMIT, value]
}

} // verus!
