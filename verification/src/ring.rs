//! Ring locations, distances and storage arcs.
//!
//! The address space of the network is a modular ring of `u32` locations.
//! Every agent claims a storage arc: the set of locations within a chosen
//! half-length of the arc's center, measured as the shortest way around the
//! ring. Range queries address the ring through inclusive intervals instead,
//! which may wrap past the ring maximum; the two views are proved to agree.
//!
//! Convention for wraparound (chosen once and documented here): an interval
//! with `start <= end` holds exactly the locations of `start..=end`; one with
//! `start > end` wraps and holds the locations `>= start` together with those
//! `<= end`. In particular a full-ring interval is `[0, u32::MAX]`, which
//! includes both location `0` and location `u32::MAX`.

use vstd::prelude::*;

verus! {

/// Number of locations on the ring, as a spec-level constant.
pub open spec fn ring_size() -> int {
    0x1_0000_0000
}

/// Distance from `b` up to `a` going forward around the ring.
pub open spec fn ring_diff(a: u32, b: u32) -> u32 {
    if a >= b {
        (a - b) as u32
    } else {
        (a - b + ring_size()) as u32
    }
}

/// Shortest distance between two ring locations, going either way around.
pub open spec fn ring_dist(a: u32, b: u32) -> u32 {
    if ring_diff(a, b) <= ring_diff(b, a) {
        ring_diff(a, b)
    } else {
        ring_diff(b, a)
    }
}

/// The shortest way around the ring never exceeds half the ring.
pub proof fn lemma_ring_dist_bound(a: u32, b: u32)
    ensures
        ring_dist(a, b) <= 0x8000_0000,
{
}

/// Ring distance is symmetric.
pub proof fn lemma_ring_dist_symmetric(a: u32, b: u32)
    ensures
        ring_dist(a, b) == ring_dist(b, a),
{
}

/// Shortest distance between two ring locations, wrapping either way.
pub fn shortest_arc_distance(a: u32, b: u32) -> (r: u32)
    ensures
        r == ring_dist(a, b),
{
    let d1 = a.wrapping_sub(b);
    let d2 = b.wrapping_sub(a);
    if d1 <= d2 {
        d1
    } else {
        d2
    }
}

/// An inclusive, possibly wrapping interval of ring locations.
#[derive(Clone, Copy, Debug, PartialEq, Eq, Structural)]
pub struct ArcInterval {
    pub start: u32,
    pub end: u32,
}

impl ArcInterval {
    /// Which locations the interval holds, under the wraparound convention
    /// documented at the top of this module.
    pub open spec fn spec_contains(self, loc: u32) -> bool {
        if self.start <= self.end {
            self.start <= loc <= self.end
        } else {
            loc >= self.start || loc <= self.end
        }
    }

    /// Whether `loc` lies inside the interval.
    pub fn contains_loc(&self, loc: u32) -> (r: bool)
        ensures
            r == self.spec_contains(loc),
    {
        if self.start <= self.end {
            self.start <= loc && loc <= self.end
        } else {
            loc >= self.start || loc <= self.end
        }
    }

    /// The interval holding every ring location.
    pub fn full() -> (r: ArcInterval)
        ensures
            forall|loc: u32| r.spec_contains(loc),
    {
        ArcInterval { start: 0, end: u32::MAX }
    }
}

/// A storage arc: the locations within `half_length` of `center`, measured by
/// shortest ring distance. A `half_length` of `0x8000_0000` or more covers the
/// whole ring.
#[derive(Clone, Copy, Debug, PartialEq, Eq, Structural)]
pub struct StorageArc {
    pub center: u32,
    pub half_length: u32,
}

impl StorageArc {
    /// Which locations the arc claims.
    pub open spec fn spec_contains(self, loc: u32) -> bool {
        ring_dist(self.center, loc) <= self.half_length
    }

    /// Whether the arc claims `loc`.
    pub fn contains(&self, loc: u32) -> (r: bool)
        ensures
            r == self.spec_contains(loc),
    {
        shortest_arc_distance(self.center, loc) <= self.half_length
    }

    /// An arc covering the whole ring, centered at `center`.
    pub fn full(center: u32) -> (r: StorageArc)
        ensures
            r.center == center,
            forall|loc: u32| r.spec_contains(loc),
    {
        proof {
            assert forall|loc: u32| ring_dist(center, loc) <= 0x8000_0000 by {
                lemma_ring_dist_bound(center, loc);
            }
        }
        StorageArc { center, half_length: 0x8000_0000 }
    }

    /// The same set of locations as an inclusive interval.
    pub fn to_interval(&self) -> (r: ArcInterval)
        ensures
            forall|loc: u32| r.spec_contains(loc) == self.spec_contains(loc),
    {
        if self.half_length >= 0x8000_0000 {
            proof {
                assert forall|loc: u32| ring_dist(self.center, loc) <= self.half_length by {
                    lemma_ring_dist_bound(self.center, loc);
                }
            }
            ArcInterval { start: 0, end: u32::MAX }
        } else {
            let r = ArcInterval {
                start: self.center.wrapping_sub(self.half_length),
                end: self.center.wrapping_add(self.half_length),
            };
            proof {
                assert forall|loc: u32| r.spec_contains(loc) == self.spec_contains(loc) by {
                    lemma_arc_interval_agree(*self, r, loc);
                }
            }
            r
        }
    }
}

/// For a non-full arc, the interval `[center - half, center + half]` holds a
/// location exactly when the arc does.
proof fn lemma_arc_interval_agree(arc: StorageArc, iv: ArcInterval, loc: u32)
    requires
        arc.half_length < 0x8000_0000,
        iv.start == vstd::wrapping::u32_specs::wrapping_sub(arc.center, arc.half_length),
        iv.end == vstd::wrapping::u32_specs::wrapping_add(arc.center, arc.half_length),
    ensures
        iv.spec_contains(loc) == arc.spec_contains(loc),
{
}

} // verus!
