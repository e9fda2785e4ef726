//! Sightings and the single-slot store that hands the latest one to readers.

use vstd::prelude::*;

verus! {

/// A capture instant, as time since the Unix epoch.
#[derive(Clone, Copy, Debug, PartialEq, Eq, Structural)]
pub struct Timestamp {
    pub secs_since_epoch: u64,
    pub nanos_since_epoch: u32,
}

/// A sighting as a value: when it was captured and the encoded image.
pub struct SightingView {
    pub timestamp: Timestamp,
    pub image: Seq<u8>,
}

/// A record of detected motion: capture time and the encoded color image.
pub struct DogSighting {
    pub timestamp: Timestamp,
    pub image: Vec<u8>,
}

impl View for DogSighting {
    type V = SightingView;

    open spec fn view(&self) -> SightingView {
        SightingView { timestamp: self.timestamp, image: self.image@ }
    }
}

impl DogSighting {
    pub fn new(timestamp: Timestamp, image: Vec<u8>) -> (r: DogSighting)
        ensures
            r@ == (SightingView { timestamp, image: image@ }),
    {
        DogSighting { timestamp, image }
    }

    /// An independent copy with the same timestamp and image bytes.
    pub fn duplicate(&self) -> (r: DogSighting)
        ensures
            r@ == self@,
    {
        let image = self.image.clone();
        assert(image@ =~= self.image@);
        DogSighting { timestamp: self.timestamp, image }
    }
}

/// The store's content after `s` is published over `prev`: `s` alone.
pub open spec fn published(prev: Option<SightingView>, s: SightingView) -> Option<SightingView> {
    Some(s)
}

/// Holds at most one sighting, always the last one published.
pub struct SightingStore {
    latest: Option<DogSighting>,
}

impl View for SightingStore {
    type V = Option<SightingView>;

    closed spec fn view(&self) -> Option<SightingView> {
        match self.latest {
            Some(s) => Some(s@),
            None => None,
        }
    }
}

impl SightingStore {
    /// A store holding nothing.
    pub fn new() -> (r: SightingStore)
        ensures
            r@ is None,
    {
        SightingStore { latest: None }
    }

    /// Replaces the held sighting with `sighting`.
    pub fn publish(&mut self, sighting: DogSighting)
        ensures
            final(self)@ == published(old(self)@, sighting@),
    {
        self.latest = Some(sighting);
    }

    /// A copy of the held sighting, if any.
    pub fn peek(&self) -> (r: Option<DogSighting>)
        ensures
            match r {
                Some(s) => self@ == Some(s@),
                None => self@ is None,
            },
    {
        match &self.latest {
            Some(s) => Some(s.duplicate()),
            None => None,
        }
    }

    /// The capture time of the held sighting, if any.
    pub fn latest_timestamp(&self) -> (r: Option<Timestamp>)
        ensures
            match r {
                Some(t) => self@ is Some && self@->0.timestamp == t,
                None => self@ is None,
            },
    {
        match &self.latest {
            Some(s) => Some(s.timestamp),
            None => None,
        }
    }
}

/// Latest wins: whatever the store held, after `s1` and then `s2` are
/// published it holds `s2`, and a peek returns `s2`, never `s1` unless the two
/// are the same sighting.
pub proof fn lemma_latest_wins(prev: Option<SightingView>, s1: SightingView, s2: SightingView)
    ensures
        published(published(prev, s1), s2) == Some(s2),
        s1 != s2 ==> published(published(prev, s1), s2) != Some(s1),
{
}

} // verus!
