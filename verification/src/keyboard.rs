//! Key classification and the contiguous key range a user's instrument
//! covers; only keys inside the range take part in play-along matching.

use vstd::prelude::*;

verus! {

/// Whether a piano key is a white (neutral) or black (sharp) key.
#[derive(Clone, Copy, PartialEq, Eq, Structural, Debug)]
pub enum KeyKind {
    Neutral,
    Sharp,
}

impl KeyKind {
    pub fn is_neutral(&self) -> (r: bool)
        ensures
            r == (*self == KeyKind::Neutral),
    {
        matches!(self, KeyKind::Neutral)
    }

    pub fn is_sharp(&self) -> (r: bool)
        ensures
            r == (*self == KeyKind::Sharp),
    {
        matches!(self, KeyKind::Sharp)
    }
}

/// A half-open interval `[lo, hi)` of MIDI key numbers, with `hi` at most
/// 128.
#[derive(Clone, Copy, PartialEq, Eq, Structural, Debug)]
pub struct KeyboardRange {
    pub lo: u8,
    pub hi: u8,
}

impl KeyboardRange {
    pub open spec fn wf(&self) -> bool {
        self.lo <= self.hi && self.hi <= 128
    }

    pub open spec fn contains_spec(&self, key: u8) -> bool {
        self.lo <= key < self.hi
    }

    /// A range from `lo` (inclusive) to `hi` (exclusive); bounds above 128
    /// or crossed bounds are clamped.
    pub fn new(lo: u8, hi: u8) -> (r: KeyboardRange)
        ensures
            r.wf(),
            r.hi == if hi > 128 {
                128u8
            } else {
                hi
            },
            r.lo == if lo > r.hi {
                r.hi
            } else {
                lo
            },
    {
        let hi2: u8 = if hi > 128 {
            128
        } else {
            hi
        };
        let lo2: u8 = if lo > hi2 {
            hi2
        } else {
            lo
        };
        KeyboardRange { lo: lo2, hi: hi2 }
    }

    /// The range of a standard 88-key piano: A0 (21) through C8 (108).
    pub fn standard_88_keys() -> (r: KeyboardRange)
        ensures
            r.wf(),
            r.lo == 21,
            r.hi == 109,
    {
        KeyboardRange { lo: 21, hi: 109 }
    }

    pub fn contains(&self, key: u8) -> (r: bool)
        ensures
            r == self.contains_spec(key),
    {
        self.lo <= key && key < self.hi
    }

    /// How many keys the range covers.
    pub fn count(&self) -> (r: usize)
        requires
            self.wf(),
        ensures
            r == self.hi - self.lo,
    {
        (self.hi - self.lo) as usize
    }
}

} // verus!
