use vstd::prelude::*;

verus! {

/// Colours and modifiers of a cell. A `None` colour leaves the colour
/// beneath unchanged when the style is laid over another.
#[derive(Debug, Clone, Copy, PartialEq, Eq, Structural)]
pub struct Style {
    pub fg: Option<u8>,
    pub bg: Option<u8>,
    pub modifier: u16,
}

pub open spec fn or_else(a: Option<u8>, b: Option<u8>) -> Option<u8> {
    if a is Some { a } else { b }
}

impl Style {
    /// The style that changes nothing it is laid over.
    pub open spec fn default_spec() -> Style {
        Style { fg: None, bg: None, modifier: 0 }
    }

    /// The style that results from laying `other` over `self`.
    pub open spec fn patch_spec(self, other: Style) -> Style {
        Style {
            fg: or_else(other.fg, self.fg),
            bg: or_else(other.bg, self.bg),
            modifier: self.modifier | other.modifier,
        }
    }

    pub fn fg(self, color: u8) -> (r: Style)
        ensures
            r == (Style { fg: Some(color), ..self }),
    {
        Style { fg: Some(color), ..self }
    }

    pub fn bg(self, color: u8) -> (r: Style)
        ensures
            r == (Style { bg: Some(color), ..self }),
    {
        Style { bg: Some(color), ..self }
    }

    pub fn add_modifier(self, modifier: u16) -> (r: Style)
        ensures
            r == (Style { modifier: self.modifier | modifier, ..self }),
    {
        Style { modifier: self.modifier | modifier, ..self }
    }

    pub fn patch(self, other: Style) -> (r: Style)
        ensures
            r == self.patch_spec(other),
    {
        let fg = match other.fg {
            Some(c) => Some(c),
            None => self.fg,
        };
        let bg = match other.bg {
            Some(c) => Some(c),
            None => self.bg,
        };
        Style { fg, bg, modifier: self.modifier | other.modifier }
    }
}

/// Laying a style over a cell twice does what laying it once does.
pub broadcast proof fn lemma_patch_twice(s: Style, o: Style)
    ensures
        #[trigger] s.patch_spec(o).patch_spec(o) == s.patch_spec(o),
{
    let m = s.modifier;
    let b = o.modifier;
    assert((m | b) | b == m | b) by (bit_vector);
}

impl Default for Style {
    fn default() -> (r: Style)
        ensures
            r == Style::default_spec(),
    {
        Style { fg: None, bg: None, modifier: 0 }
    }
}

} // verus!
