//! The mode in which a station transmits.

use vstd::prelude::*;

verus! {

/// The mode in which a station transmits.
#[derive(Debug, PartialEq, Eq, Hash)]
pub enum Mode {
    Cw,
    Ssb,
    Fm,
    Data,
    Other(String),
}

/// What a mode says, as mathematical values.
pub enum ModeModel {
    Cw,
    Ssb,
    Fm,
    Data,
    Other(Seq<char>),
}

impl View for Mode {
    type V = ModeModel;

    open spec fn view(&self) -> ModeModel {
        match self {
            Mode::Cw => ModeModel::Cw,
            Mode::Ssb => ModeModel::Ssb,
            Mode::Fm => ModeModel::Fm,
            Mode::Data => ModeModel::Data,
            Mode::Other(name) => ModeModel::Other(name@),
        }
    }
}

impl Clone for Mode {
    fn clone(&self) -> (out: Self)
        ensures
            out@ == self@,
    {
        match self {
            Mode::Cw => Mode::Cw,
            Mode::Ssb => Mode::Ssb,
            Mode::Fm => Mode::Fm,
            Mode::Data => Mode::Data,
            Mode::Other(name) => Mode::Other(name.clone()),
        }
    }
}

} // verus!
