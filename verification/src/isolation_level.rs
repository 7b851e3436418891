//! The isolation-level code table.

use vstd::prelude::*;

use crate::error::Error;

verus! {

/// Controls the visibility of transactional records.
#[derive(Clone, Copy, Debug, PartialEq, Eq, Structural)]
pub enum IsolationLevel {
    /// Makes all records visible.
    ReadUncommitted,
    /// Makes only non-transactional and committed transactional records
    /// visible: all data below the last stable offset, with the list of
    /// aborted transactions included so consumers can discard their records.
    ReadCommitted,
}

pub open spec fn spec_isolation_from_code(v: i8) -> Option<IsolationLevel> {
    if v == 0 {
        Some(IsolationLevel::ReadUncommitted)
    } else if v == 1 {
        Some(IsolationLevel::ReadCommitted)
    } else {
        None
    }
}

pub open spec fn spec_isolation_code(l: IsolationLevel) -> i8 {
    match l {
        IsolationLevel::ReadUncommitted => 0,
        IsolationLevel::ReadCommitted => 1,
    }
}

impl IsolationLevel {
    /// Resolves a numeric code; every value other than `0` and `1` fails
    /// with `InvalidIsolationLevel`.
    pub fn from_code(value: i8) -> (r: Result<IsolationLevel, Error>)
        ensures
            match r {
                Ok(l) => spec_isolation_from_code(value) == Some(l),
                Err(e) => spec_isolation_from_code(value) is None && e
                    == Error::InvalidIsolationLevel(value),
            },
    {
        match value {
            0 => Ok(IsolationLevel::ReadUncommitted),
            1 => Ok(IsolationLevel::ReadCommitted),
            _ => Err(Error::InvalidIsolationLevel(value)),
        }
    }

    /// The numeric code this level takes on the wire.
    pub fn code(self) -> (r: i8)
        ensures
            r == spec_isolation_code(self),
    {
        match self {
            IsolationLevel::ReadUncommitted => 0,
            IsolationLevel::ReadCommitted => 1,
        }
    }
}

/// The table is a bijection between its two codes and the levels.
pub proof fn lemma_isolation_table_bijective()
    ensures
        forall|l: IsolationLevel| spec_isolation_from_code(#[trigger] spec_isolation_code(l))
            == Some(l),
        forall|v: i8| #[trigger] spec_isolation_from_code(v) matches Some(l)
            ==> spec_isolation_code(l) == v,
{
}

} // verus!
