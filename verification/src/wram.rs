//! 8 KiB of work RAM.  The range `$C000-$DFFF` holds the bytes; the echo
//! range `$E000-$FDFF` aliases onto the same storage, so reads and writes
//! through either window land in one array.

use vstd::prelude::*;

verus! {

pub const WRAM_START: u16 = 0xC000;

pub const WRAM_STOP: u16 = 0xDFFF;

pub const ECHO_START: u16 = 0xE000;

pub const ECHO_STOP: u16 = 0xFDFF;

pub const WRAM_SIZE: usize = 0x2000;

/// The storage index an address maps to: offset from whichever of the two
/// window bases the address lies in.
pub open spec fn spec_wram_index(addr: u16) -> int
    recommends
        WRAM_START <= addr <= ECHO_STOP,
{
    if addr <= WRAM_STOP {
        addr - WRAM_START
    } else {
        addr - ECHO_START
    }
}

pub struct WRAM {
    pub wram: Vec<u8>,
}

impl View for WRAM {
    type V = Seq<u8>;

    open spec fn view(&self) -> Seq<u8> {
        self.wram@
    }
}

impl WRAM {
    pub open spec fn wf(self) -> bool {
        self.wram@.len() == WRAM_SIZE
    }

    pub fn new() -> (w: WRAM)
        ensures
            w.wf(),
            w@ == Seq::new(WRAM_SIZE as nat, |i: int| 0u8),
    {
        let mut wram: Vec<u8> = Vec::new();
        let mut i: usize = 0;
        while i < WRAM_SIZE
            invariant
                i <= WRAM_SIZE,
                wram@.len() == i,
                forall|j: int| 0 <= j < i ==> wram@[j] == 0u8,
            decreases WRAM_SIZE - i,
        {
            wram.push(0);
            i += 1;
        }
        let w = WRAM { wram };
        proof {
            assert(w@ =~= Seq::new(WRAM_SIZE as nat, |i: int| 0u8));
        }
        w
    }

    pub fn read_u8(&self, addr: u16) -> (r: u8)
        requires
            WRAM_START <= addr <= ECHO_STOP,
            self.wf(),
        ensures
            r == self@[spec_wram_index(addr)],
    {
        if addr <= WRAM_STOP {
            let relative_addr = addr - WRAM_START;
            self.wram[relative_addr as usize]
        } else {
            let relative_addr = addr - ECHO_START;
            self.wram[relative_addr as usize]
        }
    }

    pub fn write_u8(&mut self, addr: u16, val: u8)
        requires
            WRAM_START <= addr <= ECHO_STOP,
            old(self).wf(),
        ensures
            final(self).wf(),
            final(self)@ == old(self)@.update(spec_wram_index(addr), val),
    {
        if addr <= WRAM_STOP {
            let relative_addr = addr - WRAM_START;
            self.wram[relative_addr as usize] = val;
        } else {
            let relative_addr = addr - ECHO_START;
            self.wram[relative_addr as usize] = val;
        }
    }
}

} // verus!
