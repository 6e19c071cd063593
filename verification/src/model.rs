//! The supported plotter models and their working areas.

use vstd::prelude::*;

verus! {

/// A model of the AxiDraw family.
#[derive(Debug, Clone, Copy, PartialEq, Eq, Structural)]
pub enum AxiDrawModel {
    /// AxiDraw V3.
    V3,
    /// AxiDraw V3/A3.
    V3A3,
    /// AxiDraw SE/A3.
    SEA3,
    /// AxiDraw Mini.
    Mini,
}

impl AxiDrawModel {
    /// The model's marketing name.
    pub open spec fn spec_name(self) -> Seq<char> {
        match self {
            AxiDrawModel::V3 => "AxiDraw V3"@,
            AxiDrawModel::V3A3 => "AxiDraw V3/A3"@,
            AxiDrawModel::SEA3 => "AxiDraw SE/A3"@,
            AxiDrawModel::Mini => "AxiDraw Mini"@,
        }
    }

    /// Width of the working area in tenths of a millimetre.
    pub open spec fn spec_width_tenths(self) -> int {
        match self {
            AxiDrawModel::V3 => 2159,
            AxiDrawModel::V3A3 | AxiDrawModel::SEA3 => 2794,
            AxiDrawModel::Mini => 1600,
        }
    }

    /// Height of the working area in tenths of a millimetre.
    pub open spec fn spec_height_tenths(self) -> int {
        match self {
            AxiDrawModel::V3 => 2794,
            AxiDrawModel::V3A3 | AxiDrawModel::SEA3 => 4318,
            AxiDrawModel::Mini => 1010,
        }
    }

    /// Returns the model's name.
    pub fn name(&self) -> (s: &'static str)
        ensures
            s@ == self.spec_name(),
    {
        match self {
            AxiDrawModel::V3 => "AxiDraw V3",
            AxiDrawModel::V3A3 => "AxiDraw V3/A3",
            AxiDrawModel::SEA3 => "AxiDraw SE/A3",
            AxiDrawModel::Mini => "AxiDraw Mini",
        }
    }

    /// Returns the width of the working area in tenths of a millimetre.
    pub fn width_tenths(&self) -> (w: u32)
        ensures
            w == self.spec_width_tenths(),
    {
        match self {
            AxiDrawModel::V3 => 2159,
            AxiDrawModel::V3A3 | AxiDrawModel::SEA3 => 2794,
            AxiDrawModel::Mini => 1600,
        }
    }

    /// Returns the height of the working area in tenths of a millimetre.
    pub fn height_tenths(&self) -> (h: u32)
        ensures
            h == self.spec_height_tenths(),
    {
        match self {
            AxiDrawModel::V3 => 2794,
            AxiDrawModel::V3A3 | AxiDrawModel::SEA3 => 4318,
            AxiDrawModel::Mini => 1010,
        }
    }
}

} // verus!
