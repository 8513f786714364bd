//! The 64x32 monochrome framebuffer and the keypad priority rule.
//!
//! The host window only ever reads the pixel grid; the keyboard hands the
//! core, once per tick, which of the sixteen mapped host keys are held, and
//! `first_held_key` turns that into the one sampled hex key.

use vstd::prelude::*;

verus! {

/// The pixel grid.  Pixel (x, y) is `data[x + 64 * y]`; the length is
/// always 2048.
pub struct Display {
    /// The pixels, row-major; `true` is lit.
    pub data: Vec<bool>,
}

impl View for Display {
    type V = Seq<bool>;

    open spec fn view(&self) -> Seq<bool> {
        self.data@
    }
}

/// A fresh, black screen.
pub fn new_display() -> (d: Display)
    ensures
        d@ == Seq::new(2048, |j: int| false),
{
    let mut data: Vec<bool> = Vec::new();
    let mut k: usize = 0;
    while k < 2048
        invariant
            k <= 2048,
            data@.len() == k,
            forall|j: int| 0 <= j < k ==> data@[j] == false,
        decreases 2048 - k,
    {
        data.push(false);
        k += 1;
    }
    proof {
        assert(data@ =~= Seq::new(2048, |j: int| false));
    }
    Display { data }
}

impl Display {
    /// Turn every pixel off.
    pub fn clear(&mut self)
        requires
            old(self)@.len() == 2048,
        ensures
            final(self)@ == Seq::new(2048, |j: int| false),
    {
        let mut k: usize = 0;
        while k < 2048
            invariant
                k <= 2048,
                self@.len() == 2048,
                forall|j: int| 0 <= j < k ==> self@[j] == false,
            decreases 2048 - k,
        {
            self.data.set(k, false);
            k += 1;
        }
        proof {
            assert(self@ =~= Seq::new(2048, |j: int| false));
        }
    }

    /// XOR one sprite bit onto the pixel at (x, y).  Returns 1 exactly when
    /// a lit pixel was turned off.  Coordinates off the screen are clipped:
    /// nothing changes and no collision is reported.
    pub fn xor_pix(&mut self, x: u8, y: u8, bit: bool) -> (col: u8)
        requires
            old(self)@.len() == 2048,
        ensures
            final(self)@.len() == 2048,
            x < 64 && y < 32 ==> {
                let idx = x + 64 * (y as int);
                &&& final(self)@ == old(self)@.update(
                    idx,
                    old(self)@[idx] != bit,
                )
                &&& col == (if bit && old(self)@[idx] { 1u8 } else { 0u8 })
            },
            !(x < 64 && y < 32) ==> final(self)@ == old(self)@ && col == 0,
    {
        if x >= 64 || y >= 32 {
            return 0;
        }
        let idx: usize = x as usize + 64 * (y as usize);
        let was = self.data[idx];
        self.data.set(idx, was != bit);
        proof {
            assert(old(self)@.update(idx as int, old(self)@[idx as int] != bit) =~= self@);
        }
        if bit && was {
            1
        } else {
            0
        }
    }
}

/// The fixed keypad table: entry `j` is the hex key that the `j`-th host key
/// (in priority order 1 2 3 4 Q W E R A S D F Y X C V) stands for.
pub open spec fn keymap(j: int) -> u8 {
    seq![0x1u8, 0x2, 0x3, 0xC, 0x4, 0x5, 0x6, 0xD, 0x7, 0x8, 0x9, 0xE, 0xA, 0x0, 0xB, 0xF][j]
}

/// The key the keypad reports, given which of the sixteen mapped host keys
/// are held (in the table's order), from position `j` on: the first held
/// one wins.
pub open spec fn first_held_from(held: Seq<bool>, j: int) -> Option<u8>
    decreases 16 - j,
{
    if j < 0 || j >= 16 {
        None
    } else if held[j] {
        Some(keymap(j))
    } else {
        first_held_from(held, j + 1)
    }
}

/// The one key the keypad considers held, or `None`: the first held entry
/// of the table, left to right, decides.
pub fn first_held_key(held: &[bool]) -> (r: Option<u8>)
    requires
        held@.len() == 16,
    ensures
        r == first_held_from(held@, 0),
{
    let keys: [u8; 16] = [
        0x1, 0x2, 0x3, 0xC, 0x4, 0x5, 0x6, 0xD, 0x7, 0x8, 0x9, 0xE, 0xA, 0x0, 0xB, 0xF,
    ];
    let mut j: usize = 0;
    while j < 16
        invariant
            j <= 16,
            held@.len() == 16,
            forall|t: int| 0 <= t < 16 ==> keys[t] == keymap(t),
            first_held_from(held@, 0) == first_held_from(held@, j as int),
        decreases 16 - j,
    {
        if held[j] {
            return Some(keys[j]);
        }
        j += 1;
    }
    None
}

} // verus!
