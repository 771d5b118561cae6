//! Sector alignment for reads from a raw volume, which can only be read in
//! whole sectors.

use vstd::prelude::*;
use vstd::arithmetic::div_mod::{
    lemma_fundamental_div_mod, lemma_mod_decreases, lemma_mod_multiples_basic, lemma_mod_pos_bound,
};
use vstd::arithmetic::mul::lemma_mul_is_commutative;

verus! {

/// The sector size raw volumes are read with.
pub const SECTOR_SIZE: usize = 4096;

/// The part of a volume to read for a request: whole sectors from `start`
/// on, `length` bytes in all, of which the bytes wanted begin at `offset`.
#[derive(Debug, Clone, Copy, PartialEq, Eq, Structural)]
pub struct SectorWindow {
    pub start: u64,
    pub offset: usize,
    pub length: usize,
}

/// The last multiple of `sector` at or below `position`.
pub open spec fn align_down(position: int, sector: int) -> int {
    position - position % sector
}

/// The first multiple of `sector` at or above `position`.
pub open spec fn align_up(position: int, sector: int) -> int {
    align_down(position + sector - 1, sector)
}

/// Aligning down reaches a multiple of the sector size less than one
/// sector below; aligning up reaches one less than one sector above.
pub proof fn lemma_alignment(position: int, sector: int)
    requires
        position >= 0,
        sector > 0,
    ensures
        align_down(position, sector) % sector == 0,
        position - sector < align_down(position, sector) <= position,
        align_up(position, sector) % sector == 0,
        position <= align_up(position, sector) < position + sector,
{
    lemma_fundamental_div_mod(position, sector);
    lemma_mod_multiples_basic(position / sector, sector);
    lemma_mod_pos_bound(position, sector);
    let above = position + sector - 1;
    lemma_fundamental_div_mod(above, sector);
    lemma_mod_multiples_basic(above / sector, sector);
    lemma_mod_pos_bound(above, sector);
    assert(position - position % sector == sector * (position / sector));
    assert(above - above % sector == sector * (above / sector));
    assert((sector * (position / sector)) % sector == 0) by {
        lemma_mul_is_commutative(sector, position / sector);
    }
    assert((sector * (above / sector)) % sector == 0) by {
        lemma_mul_is_commutative(sector, above / sector);
    }
}

/// A multiple of the sector size less than one sector above `position` is
/// `position` aligned up.
pub proof fn lemma_align_up_unique(position: int, sector: int, candidate: int)
    requires
        position >= 0,
        sector > 0,
        candidate % sector == 0,
        position <= candidate < position + sector,
    ensures
        align_up(position, sector) == candidate,
{
    lemma_alignment(position, sector);
    let up = align_up(position, sector);
    lemma_fundamental_div_mod(up, sector);
    lemma_fundamental_div_mod(candidate, sector);
    let a = up / sector;
    let b = candidate / sector;
    assert(up == sector * a);
    assert(candidate == sector * b);
    assert(a == b) by (nonlinear_arith)
        requires
            sector > 0,
            -sector < sector * a - sector * b < sector,
    ;
}

/// The window to read so as to get `wanted` bytes from `position` on, in
/// sectors of `sector_size` bytes: it starts at the sector that holds
/// `position` and ends with the sector that holds the last byte wanted.
/// There is none for a sector size of 0, nor where the window's length
/// does not fit the machine.
pub fn sector_window(position: u64, wanted: usize, sector_size: usize) -> (r: Option<SectorWindow>)
    ensures
        match r {
            Some(w) => {
                &&& sector_size > 0
                &&& w.start == align_down(position as int, sector_size as int)
                &&& w.offset == position - w.start
                &&& w.length == align_up(w.offset + wanted, sector_size as int)
            },
            None => sector_size == 0 || align_up(
                position as int % sector_size as int + wanted,
                sector_size as int,
            ) > usize::MAX,
        },
{
    if sector_size == 0 {
        return None;
    }
    let sector: u64 = sector_size as u64;
    let offset_wide: u64 = position % sector;
    proof {
        lemma_mod_decreases(position as nat, sector as nat);
    }
    let start: u64 = position - offset_wide;
    let offset: usize = offset_wide as usize;
    proof {
        lemma_alignment(offset + wanted, sector_size as int);
    }
    let end: usize = match offset.checked_add(wanted) {
        Some(end) => end,
        None => {
            return None;
        },
    };
    let rest: usize = end % sector_size;
    if rest == 0 {
        proof {
            lemma_align_up_unique(end as int, sector_size as int, end as int);
        }
        return Some(SectorWindow { start, offset, length: end });
    }
    let ghost full = end + (sector_size - rest);
    proof {
        lemma_fundamental_div_mod(end as int, sector_size as int);
        let q = end as int / sector_size as int;
        assert(full == sector_size * (q + 1)) by (nonlinear_arith)
            requires
                end == sector_size * q + rest,
                full == end + (sector_size - rest),
        ;
        lemma_mod_multiples_basic(q + 1, sector_size as int);
        lemma_mul_is_commutative(sector_size as int, q + 1);
        lemma_align_up_unique(end as int, sector_size as int, full);
    }
    match end.checked_add(sector_size - rest) {
        Some(length) => Some(SectorWindow { start, offset, length }),
        None => None,
    }
}

} // verus!
