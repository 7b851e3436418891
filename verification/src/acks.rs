//! The acknowledgement-requirement code table.

use vstd::prelude::*;

use crate::error::Error;

verus! {

/// The number of acknowledgments the producer requires the leader to have
/// received before considering a request complete: `-1` for the full in-sync
/// replica set, `0` for none, `1` for the leader alone.
#[derive(Clone, Copy, Debug, PartialEq, Eq, Structural)]
pub enum AckRequirement {
    FullISR,
    NoAcknowledgements,
    LeaderOnly,
}

pub open spec fn spec_ack_from_code(v: i16) -> Option<AckRequirement> {
    if v == -1 {
        Some(AckRequirement::FullISR)
    } else if v == 0 {
        Some(AckRequirement::NoAcknowledgements)
    } else if v == 1 {
        Some(AckRequirement::LeaderOnly)
    } else {
        None
    }
}

pub open spec fn spec_ack_code(a: AckRequirement) -> i16 {
    match a {
        AckRequirement::FullISR => -1i16,
        AckRequirement::NoAcknowledgements => 0,
        AckRequirement::LeaderOnly => 1,
    }
}

impl AckRequirement {
    /// Resolves a numeric code; every value other than `-1`, `0` and `1`
    /// fails with `InvalidAckRequirement`.
    pub fn from_code(value: i16) -> (r: Result<AckRequirement, Error>)
        ensures
            match r {
                Ok(a) => spec_ack_from_code(value) == Some(a),
                Err(e) => spec_ack_from_code(value) is None && e == Error::InvalidAckRequirement(
                    value,
                ),
            },
    {
        match value {
            -1 => Ok(AckRequirement::FullISR),
            0 => Ok(AckRequirement::NoAcknowledgements),
            1 => Ok(AckRequirement::LeaderOnly),
            _ => Err(Error::InvalidAckRequirement(value)),
        }
    }

    /// The numeric code this requirement takes on the wire.
    pub fn code(self) -> (r: i16)
        ensures
            r == spec_ack_code(self),
    {
        match self {
            AckRequirement::FullISR => -1,
            AckRequirement::NoAcknowledgements => 0,
            AckRequirement::LeaderOnly => 1,
        }
    }
}

/// The table is a bijection between its three codes and the requirements.
pub proof fn lemma_ack_table_bijective()
    ensures
        forall|a: AckRequirement| spec_ack_from_code(#[trigger] spec_ack_code(a)) == Some(a),
        forall|v: i16| #[trigger] spec_ack_from_code(v) matches Some(a) ==> spec_ack_code(a) == v,
{
}

} // verus!
