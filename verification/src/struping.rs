//! The state that all transfers share, and the throttle that keeps a job below its
//! bandwidth ceiling.
use vstd::arithmetic::div_mod::{lemma_fundamental_div_mod, lemma_mod_bound};
use vstd::prelude::*;

verus! {

/// What the user has set for all transfers: whether they are to stop, and the ceilings
/// in megabits per second for each direction, where zero means no ceiling.
#[derive(Debug)]
pub struct Tilstand {
    pub avbryt: bool,
    pub ned_mbps: u64,
    pub opp_mbps: u64,
}

impl Default for Tilstand {
    /// Nothing is to stop, and there are no ceilings.
    fn default() -> (r: Self)
        ensures
            !r.avbryt,
            r.ned_mbps == 0,
            r.opp_mbps == 0,
    {
        Tilstand { avbryt: false, ned_mbps: 0, opp_mbps: 0 }
    }
}

impl Tilstand {
    /// Sets both ceilings and leaves the rest as it is.
    pub fn sett_nettverk(&mut self, ned_mbps: u64, opp_mbps: u64)
        ensures
            final(self).avbryt == old(self).avbryt,
            final(self).ned_mbps == ned_mbps,
            final(self).opp_mbps == opp_mbps,
    {
        self.ned_mbps = ned_mbps;
        self.opp_mbps = opp_mbps;
    }

    /// Asks every running transfer to stop.
    pub fn avbryt(&mut self)
        ensures
            final(self).avbryt,
            final(self).ned_mbps == old(self).ned_mbps,
            final(self).opp_mbps == old(self).opp_mbps,
    {
        self.avbryt = true;
    }

    /// A new job begins: an earlier request to stop no longer counts.
    pub fn ny_jobb(&mut self)
        ensures
            !final(self).avbryt,
            final(self).ned_mbps == old(self).ned_mbps,
            final(self).opp_mbps == old(self).opp_mbps,
    {
        self.avbryt = false;
    }
}

/// The number of streams a job may use at once: what was asked for, at least one and at
/// most `maks`.
pub fn samtidige(parallell: usize, maks: usize) -> (r: usize)
    requires
        maks >= 1,
    ensures
        r == if parallell < 1 {
            1
        } else if parallell > maks {
            maks
        } else {
            parallell
        },
        1 <= r <= maks,
        1 <= parallell <= maks ==> r == parallell,
        r < parallell ==> r == maks,
        r > parallell ==> r == 1,
{
    if parallell < 1 {
        1
    } else if parallell > maks {
        maks
    } else {
        parallell
    }
}

/// The most streams that a download uses at once.
pub const MAKS_NED: usize = 8;

/// The most streams that an upload uses at once.
pub const MAKS_OPP: usize = 6;

/// The longest stretch, in nanoseconds, that is slept at a time: two seconds.
pub const LENGSTE_SOVN: u64 = 2_000_000_000;

/// A job's throttle: the bytes it has moved since it began, and its ceiling in megabits
/// per second, where zero means no ceiling.
#[derive(Debug)]
pub struct Struper {
    pub bytes: u64,
    pub mbps: u64,
}

/// The nanoseconds that `bytes` bytes take at `mbps` megabits per second, rounded up.
pub open spec fn skal_ha_brukt(bytes: int, mbps: int) -> int {
    (bytes * 8000 + mbps - 1) / mbps
}

/// The pause, in nanoseconds, after `bytes` bytes in `brukt` nanoseconds: as long as the
/// job is ahead of its ceiling.
pub open spec fn pause(bytes: int, mbps: int, brukt: int) -> int {
    if mbps == 0 || skal_ha_brukt(bytes, mbps) <= brukt {
        0
    } else {
        skal_ha_brukt(bytes, mbps) - brukt
    }
}

impl Struper {
    /// The throttle of a job that has moved nothing yet.
    pub fn ny(mbps: u64) -> (r: Struper)
        ensures
            r.bytes == 0,
            r.mbps == mbps,
    {
        Struper { bytes: 0, mbps }
    }

    /// Sets the ceiling from here on; what has been moved still counts.
    pub fn sett_tak(&mut self, mbps: u64)
        ensures
            final(self).mbps == mbps,
            final(self).bytes == old(self).bytes,
    {
        self.mbps = mbps;
    }

    /// Counts `n` more bytes, `brukt` nanoseconds after the job began, and gives the
    /// nanoseconds to pause before the next piece. Once they are over, the job has moved no
    /// more than its ceiling allows; it does not pause where that held already.
    pub fn tell(&mut self, n: u64, brukt: u128) -> (r: u128)
        requires
            old(self).bytes + n <= u64::MAX,
        ensures
            final(self).bytes == old(self).bytes + n,
            final(self).mbps == old(self).mbps,
            r == pause(old(self).bytes + n, old(self).mbps as int, brukt as int),
            old(self).mbps == 0 ==> r == 0,
            old(self).mbps > 0 ==> (old(self).bytes + n) * 8 * 1000 <= old(self).mbps * (brukt + r),
            old(self).mbps > 0 ==> ((old(self).bytes + n) * 8 * 1000 <= old(self).mbps * brukt
                <==> r == 0),
            old(self).mbps > 0 && r > 0 ==> (old(self).bytes + n) * 8 * 1000 > old(self).mbps * (
            brukt + r - 1),
    {
        self.bytes = self.bytes + n;
        if self.mbps == 0 {
            return 0;
        }
        proof {
            struping_holder_taket(self.bytes as int, self.mbps as int, brukt as int);
        }
        let skal: u128 = ((self.bytes as u128) * 8000 + (self.mbps as u128) - 1) / (
        self.mbps as u128);
        if skal <= brukt {
            return 0;
        }
        skal - brukt
    }
}

/// How long to sleep next, with so much of a pause left: all of it, but never more than the
/// longest stretch.
pub fn neste_sovn(igjen: u128) -> (r: u64)
    ensures
        r == if igjen > LENGSTE_SOVN {
            LENGSTE_SOVN as int
        } else {
            igjen as int
        },
{
    if igjen > LENGSTE_SOVN as u128 {
        LENGSTE_SOVN
    } else {
        igjen as u64
    }
}

/// A throttled job keeps below its ceiling: once it has slept the pause out, its bytes, in
/// bits, are no more than its ceiling times the time that it has used. It pauses only where
/// that did not hold already, and no longer than it takes.
pub proof fn struping_holder_taket(bytes: int, mbps: int, brukt: int)
    requires
        0 <= bytes,
        0 < mbps,
        0 <= brukt,
    ensures
        bytes * 8 * 1000 <= mbps * (brukt + pause(bytes, mbps, brukt)),
        bytes * 8 * 1000 <= mbps * brukt <==> pause(bytes, mbps, brukt) == 0,
        pause(bytes, mbps, brukt) > 0 ==> bytes * 8 * 1000 > mbps * (brukt + pause(
            bytes,
            mbps,
            brukt,
        ) - 1),
{
    let skal = skal_ha_brukt(bytes, mbps);
    let x = bytes * 8000 + mbps - 1;
    lemma_fundamental_div_mod(x, mbps);
    lemma_mod_bound(x, mbps);
    assert(x == mbps * skal + x % mbps);
    assert(bytes * 8000 <= mbps * skal);
    assert(bytes * 8000 > mbps * (skal - 1)) by (nonlinear_arith)
        requires
            bytes * 8000 + mbps - 1 == mbps * skal + x % mbps,
            0 <= x % mbps < mbps,
    ;
    if skal <= brukt {
        assert(mbps * skal <= mbps * brukt) by (nonlinear_arith)
            requires
                skal <= brukt,
                0 < mbps,
        ;
    } else {
        assert(mbps * brukt <= mbps * (skal - 1)) by (nonlinear_arith)
            requires
                brukt <= skal - 1,
                0 < mbps,
        ;
    }
}

} // verus!
