//! The piece counts the configuration screen offers.
//!
//! Each supported count keeps the board's fixed 3:2 aspect ratio: a count
//! with factor `f` is laid out as `3*f` columns by `2*f` rows.

use vstd::prelude::*;

verus! {

/// One of the supported piece counts for a play session.
#[derive(Debug, PartialEq, Eq, Structural, Clone, Copy)]
pub enum TotalPieces {
    P6,
    P24,
    P54,
    P96,
}

impl TotalPieces {
    /// The grid scale factor of this count.
    pub open spec fn spec_factor(self) -> u8 {
        match self {
            TotalPieces::P6 => 1,
            TotalPieces::P24 => 2,
            TotalPieces::P54 => 3,
            TotalPieces::P96 => 4,
        }
    }

    /// Rows of the board grid: twice the factor.
    pub open spec fn spec_height_count(self) -> int {
        2 * self.spec_factor()
    }

    /// Columns of the board grid: three times the factor.
    pub open spec fn spec_width_count(self) -> int {
        3 * self.spec_factor()
    }

    /// How many pieces the board holds in all.
    pub open spec fn spec_value(self) -> u8 {
        match self {
            TotalPieces::P6 => 6,
            TotalPieces::P24 => 24,
            TotalPieces::P54 => 54,
            TotalPieces::P96 => 96,
        }
    }

    pub fn get_factor(&self) -> (f: u8)
        ensures
            f == self.spec_factor(),
            1 <= f <= 4,
    {
        match self {
            TotalPieces::P6 => 1,
            TotalPieces::P24 => 2,
            TotalPieces::P54 => 3,
            TotalPieces::P96 => 4,
        }
    }

    pub fn get_height_count(&self) -> (rows: u8)
        ensures
            rows == self.spec_height_count(),
            2 <= rows <= 8,
    {
        2 * self.get_factor()
    }

    pub fn get_width_count(&self) -> (columns: u8)
        ensures
            columns == self.spec_width_count(),
            3 <= columns <= 12,
    {
        3 * self.get_factor()
    }

    /// The total piece count equals columns times rows.
    pub fn get_value(&self) -> (value: u8)
        ensures
            value == self.spec_value(),
            value == self.spec_width_count() * self.spec_height_count(),
    {
        proof {
            lemma_value_matches_grid(*self);
        }
        match self {
            TotalPieces::P6 => 6,
            TotalPieces::P24 => 24,
            TotalPieces::P54 => 54,
            TotalPieces::P96 => 96,
        }
    }
}

/// Every supported count fills its grid exactly: the advertised piece count
/// is the number of columns times the number of rows.
pub proof fn lemma_value_matches_grid(p: TotalPieces)
    ensures
        p.spec_value() == p.spec_width_count() * p.spec_height_count(),
{
    let w = p.spec_width_count();
    let h = p.spec_height_count();
    assert(w * h == 6 * p.spec_factor() * p.spec_factor()) by (nonlinear_arith)
        requires
            w == 3 * p.spec_factor(),
            h == 2 * p.spec_factor(),
    ;
    match p {
        TotalPieces::P6 => {
            assert(6 * p.spec_factor() * p.spec_factor() == 6) by (nonlinear_arith)
                requires p.spec_factor() == 1,
            ;
        }
        TotalPieces::P24 => {
            assert(6 * p.spec_factor() * p.spec_factor() == 24) by (nonlinear_arith)
                requires p.spec_factor() == 2,
            ;
        }
        TotalPieces::P54 => {
            assert(6 * p.spec_factor() * p.spec_factor() == 54) by (nonlinear_arith)
                requires p.spec_factor() == 3,
            ;
        }
        TotalPieces::P96 => {
            assert(6 * p.spec_factor() * p.spec_factor() == 96) by (nonlinear_arith)
                requires p.spec_factor() == 4,
            ;
        }
    }
}

} // verus!
