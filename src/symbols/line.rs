use vstd::prelude::*;

verus! {

/// The glyphs of one kind of box-drawing line.
#[derive(Debug, Clone, Copy, PartialEq, Eq, Structural)]
pub struct LineSet {
    pub vertical: char,
    pub horizontal: char,
    pub top_right: char,
    pub top_left: char,
    pub bottom_right: char,
    pub bottom_left: char,
    pub vertical_left: char,
    pub vertical_right: char,
    pub horizontal_down: char,
    pub horizontal_up: char,
    pub cross: char,
}

pub open spec fn normal_spec() -> LineSet {
    LineSet {
        vertical: '\u{2502}',
        horizontal: '\u{2500}',
        top_right: '\u{2510}',
        top_left: '\u{250c}',
        bottom_right: '\u{2518}',
        bottom_left: '\u{2514}',
        vertical_left: '\u{2524}',
        vertical_right: '\u{251c}',
        horizontal_down: '\u{252c}',
        horizontal_up: '\u{2534}',
        cross: '\u{253c}',
    }
}

pub fn normal() -> (r: LineSet)
    ensures
        r == normal_spec(),
{
    LineSet {
        vertical: '\u{2502}',
        horizontal: '\u{2500}',
        top_right: '\u{2510}',
        top_left: '\u{250c}',
        bottom_right: '\u{2518}',
        bottom_left: '\u{2514}',
        vertical_left: '\u{2524}',
        vertical_right: '\u{251c}',
        horizontal_down: '\u{252c}',
        horizontal_up: '\u{2534}',
        cross: '\u{253c}',
    }
}

pub open spec fn rounded_spec() -> LineSet {
    LineSet {
        vertical: '\u{2502}',
        horizontal: '\u{2500}',
        top_right: '\u{256e}',
        top_left: '\u{256d}',
        bottom_right: '\u{256f}',
        bottom_left: '\u{2570}',
        vertical_left: '\u{2524}',
        vertical_right: '\u{251c}',
        horizontal_down: '\u{252c}',
        horizontal_up: '\u{2534}',
        cross: '\u{253c}',
    }
}

pub fn rounded() -> (r: LineSet)
    ensures
        r == rounded_spec(),
{
    LineSet {
        vertical: '\u{2502}',
        horizontal: '\u{2500}',
        top_right: '\u{256e}',
        top_left: '\u{256d}',
        bottom_right: '\u{256f}',
        bottom_left: '\u{2570}',
        vertical_left: '\u{2524}',
        vertical_right: '\u{251c}',
        horizontal_down: '\u{252c}',
        horizontal_up: '\u{2534}',
        cross: '\u{253c}',
    }
}

pub open spec fn double_spec() -> LineSet {
    LineSet {
        vertical: '\u{2551}',
        horizontal: '\u{2550}',
        top_right: '\u{2557}',
        top_left: '\u{2554}',
        bottom_right: '\u{255d}',
        bottom_left: '\u{255a}',
        vertical_left: '\u{2563}',
        vertical_right: '\u{2560}',
        horizontal_down: '\u{2566}',
        horizontal_up: '\u{2569}',
        cross: '\u{256c}',
    }
}

pub fn double() -> (r: LineSet)
    ensures
        r == double_spec(),
{
    LineSet {
        vertical: '\u{2551}',
        horizontal: '\u{2550}',
        top_right: '\u{2557}',
        top_left: '\u{2554}',
        bottom_right: '\u{255d}',
        bottom_left: '\u{255a}',
        vertical_left: '\u{2563}',
        vertical_right: '\u{2560}',
        horizontal_down: '\u{2566}',
        horizontal_up: '\u{2569}',
        cross: '\u{256c}',
    }
}

pub open spec fn thick_spec() -> LineSet {
    LineSet {
        vertical: '\u{2503}',
        horizontal: '\u{2501}',
        top_right: '\u{2513}',
        top_left: '\u{250f}',
        bottom_right: '\u{251b}',
        bottom_left: '\u{2517}',
        vertical_left: '\u{252b}',
        vertical_right: '\u{2523}',
        horizontal_down: '\u{2533}',
        horizontal_up: '\u{253b}',
        cross: '\u{254b}',
    }
}

pub fn thick() -> (r: LineSet)
    ensures
        r == thick_spec(),
{
    LineSet {
        vertical: '\u{2503}',
        horizontal: '\u{2501}',
        top_right: '\u{2513}',
        top_left: '\u{250f}',
        bottom_right: '\u{251b}',
        bottom_left: '\u{2517}',
        vertical_left: '\u{252b}',
        vertical_right: '\u{2523}',
        horizontal_down: '\u{2533}',
        horizontal_up: '\u{253b}',
        cross: '\u{254b}',
    }
}

} // verus!
