use vstd::prelude::*;

verus! {

/// A ramp of nine glyphs: a cell filled to zero through eight eighths.
#[derive(Debug, Clone, Copy, PartialEq, Eq, Structural)]
pub struct BarSet {
    pub full: char,
    pub seven_eighths: char,
    pub three_quarters: char,
    pub five_eighths: char,
    pub half: char,
    pub three_eighths: char,
    pub one_quarter: char,
    pub one_eighth: char,
    pub empty: char,
}

pub fn nine_levels() -> (r: BarSet)
    ensures
        r == nine_levels_spec(),
{
    BarSet {
        full: '\u{2588}',
        seven_eighths: '\u{2587}',
        three_quarters: '\u{2586}',
        five_eighths: '\u{2585}',
        half: '\u{2584}',
        three_eighths: '\u{2583}',
        one_quarter: '\u{2582}',
        one_eighth: '\u{2581}',
        empty: ' ',
    }
}

pub open spec fn nine_levels_spec() -> BarSet {
    BarSet {
        full: '\u{2588}',
        seven_eighths: '\u{2587}',
        three_quarters: '\u{2586}',
        five_eighths: '\u{2585}',
        half: '\u{2584}',
        three_eighths: '\u{2583}',
        one_quarter: '\u{2582}',
        one_eighth: '\u{2581}',
        empty: ' ',
    }
}

pub fn three_levels() -> (r: BarSet)
    ensures
        r == three_levels_spec(),
{
    BarSet {
        full: '\u{2588}',
        seven_eighths: '\u{2588}',
        three_quarters: '\u{2584}',
        five_eighths: '\u{2584}',
        half: '\u{2584}',
        three_eighths: '\u{2584}',
        one_quarter: '\u{2584}',
        one_eighth: ' ',
        empty: ' ',
    }
}

pub open spec fn three_levels_spec() -> BarSet {
    BarSet {
        full: '\u{2588}',
        seven_eighths: '\u{2588}',
        three_quarters: '\u{2584}',
        five_eighths: '\u{2584}',
        half: '\u{2584}',
        three_eighths: '\u{2584}',
        one_quarter: '\u{2584}',
        one_eighth: ' ',
        empty: ' ',
    }
}

impl BarSet {
    /// The glyph for a cell filled to `level` eighths; eight or more is full.
    pub open spec fn symbol_spec(&self, level: int) -> char {
        if level <= 0 {
            self.empty
        } else if level == 1 {
            self.one_eighth
        } else if level == 2 {
            self.one_quarter
        } else if level == 3 {
            self.three_eighths
        } else if level == 4 {
            self.half
        } else if level == 5 {
            self.five_eighths
        } else if level == 6 {
            self.three_quarters
        } else if level == 7 {
            self.seven_eighths
        } else {
            self.full
        }
    }

    pub fn symbol(&self, level: u64) -> (r: char)
        ensures
            r == self.symbol_spec(level as int),
    {
        match level {
            0 => self.empty,
            1 => self.one_eighth,
            2 => self.one_quarter,
            3 => self.three_eighths,
            4 => self.half,
            5 => self.five_eighths,
            6 => self.three_quarters,
            7 => self.seven_eighths,
            _ => self.full,
        }
    }
}

impl Default for BarSet {
    fn default() -> (r: BarSet)
        ensures
            r == nine_levels_spec(),
    {
        nine_levels()
    }
}

} // verus!
