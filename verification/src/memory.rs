//! The 4 KiB flat memory, with the font table preloaded at 0x050.

use vstd::prelude::*;

use crate::state::{fetch16, font_seq, init_mem};

verus! {

/// The machine's memory: 4096 bytes, bounds-checked at every access.
pub struct Memory {
    /// The bytes themselves; the length is always 4096.
    pub data: Vec<u8>,
}

impl View for Memory {
    type V = Seq<u8>;

    open spec fn view(&self) -> Seq<u8> {
        self.data@
    }
}

/// A fresh memory: zero everywhere except the 80-byte font table at 0x050.
pub fn new_memory() -> (m: Memory)
    ensures
        m@ == init_mem(),
{
    let mut data: Vec<u8> = Vec::new();
    let mut k: usize = 0;
    while k < 4096
        invariant
            k <= 4096,
            data@.len() == k,
            forall|j: int| 0 <= j < k ==> data@[j] == 0u8,
        decreases 4096 - k,
    {
        data.push(0);
        k += 1;
    }
    let mut m = Memory { data };
    let font = font_table();
    m.write_data(font.as_slice(), 0x50);
    proof {
        assert(m@ =~= init_mem());
    }
    m
}

/// The font glyphs 0..F, five bytes each, top row first.
fn font_table() -> (v: Vec<u8>)
    ensures
        v@ == font_seq(),
{
    let mut v: Vec<u8> = Vec::new();
    v.push(0xF0); v.push(0x90); v.push(0x90); v.push(0x90); v.push(0xF0);
    v.push(0x20); v.push(0x60); v.push(0x20); v.push(0x20); v.push(0x70);
    v.push(0xF0); v.push(0x10); v.push(0xF0); v.push(0x80); v.push(0xF0);
    v.push(0xF0); v.push(0x10); v.push(0xF0); v.push(0x10); v.push(0xF0);
    v.push(0x90); v.push(0x90); v.push(0xF0); v.push(0x10); v.push(0x10);
    v.push(0xF0); v.push(0x80); v.push(0xF0); v.push(0x10); v.push(0xF0);
    v.push(0xF0); v.push(0x80); v.push(0xF0); v.push(0x90); v.push(0xF0);
    v.push(0xF0); v.push(0x10); v.push(0x20); v.push(0x40); v.push(0x40);
    v.push(0xF0); v.push(0x90); v.push(0xF0); v.push(0x90); v.push(0xF0);
    v.push(0xF0); v.push(0x90); v.push(0xF0); v.push(0x10); v.push(0xF0);
    v.push(0xF0); v.push(0x90); v.push(0xF0); v.push(0x90); v.push(0x90);
    v.push(0xE0); v.push(0x90); v.push(0xE0); v.push(0x90); v.push(0xE0);
    v.push(0xF0); v.push(0x80); v.push(0x80); v.push(0x80); v.push(0xF0);
    v.push(0xE0); v.push(0x90); v.push(0x90); v.push(0x90); v.push(0xE0);
    v.push(0xF0); v.push(0x80); v.push(0xF0); v.push(0x80); v.push(0xF0);
    v.push(0xF0); v.push(0x80); v.push(0xF0); v.push(0x80); v.push(0x80);
    proof {
        assert(v@ =~= font_seq());
    }
    v
}

impl Memory {
    /// The big-endian 16-bit word at `i`; an opcode fetch.
    pub fn fetch(&self, i: usize) -> (w: u16)
        requires
            i + 1 < self@.len(),
        ensures
            w == fetch16(self@, i as int),
    {
        let n = self.data.len();
        proof {
            assert(i + 1 < n);
        }
        let hi = self.data[i] as u16;
        let lo = self.data[i + 1] as u16;
        hi * 0x100 + lo
    }

    /// The byte at `i`.
    pub fn get(&self, i: usize) -> (b: u8)
        requires
            i < self@.len(),
        ensures
            b == self@[i as int],
    {
        self.data[i]
    }

    /// Overwrite the byte at `i`.
    pub fn set(&mut self, i: usize, b: u8)
        requires
            i < old(self)@.len(),
        ensures
            final(self)@ == old(self)@.update(i as int, b),
    {
        self.data.set(i, b);
    }

    /// Copy `d` into memory starting at `s`.
    pub fn write_data(&mut self, d: &[u8], s: usize)
        requires
            s + d@.len() <= old(self)@.len(),
        ensures
            final(self)@.len() == old(self)@.len(),
            forall|j: int|
                0 <= j < final(self)@.len() ==> final(self)@[j] == (if s <= j < s + d@.len() {
                    d@[j - s]
                } else {
                    old(self)@[j]
                }),
    {
        let n = d.len();
        let mut k: usize = 0;
        while k < n
            invariant
                k <= n,
                n == d@.len(),
                s + n <= self.data.len(),
                self@.len() == old(self)@.len(),
                forall|j: int| s <= j < s + k ==> self@[j] == d@[j - s],
                forall|j: int|
                    0 <= j < self@.len() && !(s <= j < s + k) ==> self@[j] == old(self)@[j],
            decreases n - k,
        {
            self.data.set(s + k, d[k]);
            k += 1;
        }
    }
}

} // verus!
