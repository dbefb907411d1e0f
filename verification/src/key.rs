//! Keyboard events, independent of any UI toolkit: every shell maps its own
//! key events into these before handing them to the editor.

use vstd::prelude::*;

verus! {

/// Modifier bits: shift, control, alt, super.
#[derive(Debug, Clone, Copy, PartialEq, Eq, Structural, Hash, Default)]
pub struct KeyModifiers {
    bits: u8,
}

impl KeyModifiers {
    /// The modifier bits as a number.
    pub closed spec fn bits_of(self) -> u8 {
        self.bits
    }

    pub fn none() -> (m: Self)
        ensures
            m.bits_of() == 0,
    {
        KeyModifiers { bits: 0 }
    }

    pub fn shift() -> (m: Self)
        ensures
            m.bits_of() == 1,
    {
        KeyModifiers { bits: 1 }
    }

    pub fn control() -> (m: Self)
        ensures
            m.bits_of() == 2,
    {
        KeyModifiers { bits: 2 }
    }

    pub fn alt() -> (m: Self)
        ensures
            m.bits_of() == 4,
    {
        KeyModifiers { bits: 4 }
    }

    pub fn super_key() -> (m: Self)
        ensures
            m.bits_of() == 8,
    {
        KeyModifiers { bits: 8 }
    }

    /// No modifier.
    pub fn empty() -> (m: Self)
        ensures
            m.bits_of() == 0,
    {
        Self::none()
    }

    /// Every modifier of `other` is held in `self`.
    pub fn contains(self, other: Self) -> (b: bool)
        ensures
            b == ((self.bits_of() & other.bits_of()) == other.bits_of()),
    {
        (self.bits & other.bits) == other.bits
    }

    /// The modifiers of both.
    pub fn union(self, other: Self) -> (m: Self)
        ensures
            m.bits_of() == self.bits_of() | other.bits_of(),
    {
        KeyModifiers { bits: self.bits | other.bits }
    }

    /// Add the modifiers of `other`.
    pub fn insert(&mut self, other: Self)
        ensures
            final(self).bits_of() == old(self).bits_of() | other.bits_of(),
    {
        self.bits = self.bits | other.bits;
    }

    pub fn is_empty(self) -> (b: bool)
        ensures
            b == (self.bits_of() == 0),
    {
        self.bits == 0
    }
}

/// Union of two modifier sets is a superset of each, and the empty set is
/// its identity.
pub proof fn law_union_contains(a: KeyModifiers, b: KeyModifiers)
    ensures
        ((a.bits_of() | b.bits_of()) & a.bits_of()) == a.bits_of(),
        ((a.bits_of() | b.bits_of()) & b.bits_of()) == b.bits_of(),
        (a.bits_of() | 0u8) == a.bits_of(),
{
    let x = a.bits_of();
    let y = b.bits_of();
    assert(((x | y) & x) == x) by (bit_vector);
    assert(((x | y) & y) == y) by (bit_vector);
    assert((x | 0u8) == x) by (bit_vector);
}

/// A key, as far as the editor tells keys apart.
#[derive(Debug, Clone, Copy, PartialEq, Eq, Structural, Hash)]
pub enum KeyCode {
    Char(char),
    Enter,
    Esc,
    Backspace,
    Tab,
    /// Shift+Tab.
    BackTab,
    Delete,
    Insert,
    Left,
    Right,
    Up,
    Down,
    Home,
    End,
    PageUp,
    PageDown,
    F(u8),
    /// Not recognised; ignored.
    Null,
}

/// One key press after the shell's normalisation.
#[derive(Debug, Clone, Copy, PartialEq, Eq, Structural, Hash)]
pub struct KeyEvent {
    pub code: KeyCode,
    pub modifiers: KeyModifiers,
}

impl KeyEvent {
    pub fn new(code: KeyCode, modifiers: KeyModifiers) -> (e: Self)
        ensures
            e == (KeyEvent { code, modifiers }),
    {
        KeyEvent { code, modifiers }
    }

    /// A character with no modifier.
    pub fn char(c: char) -> (e: Self)
        ensures
            e.code == KeyCode::Char(c),
            e.modifiers.bits_of() == 0,
    {
        KeyEvent { code: KeyCode::Char(c), modifiers: KeyModifiers::none() }
    }

    /// A character with Control.
    pub fn ctrl(c: char) -> (e: Self)
        ensures
            e.code == KeyCode::Char(c),
            e.modifiers.bits_of() == 2,
    {
        KeyEvent { code: KeyCode::Char(c), modifiers: KeyModifiers::control() }
    }
}

} // verus!
