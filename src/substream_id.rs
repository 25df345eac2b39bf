use vstd::prelude::*;

verus! {

/// Identifier of a substream inside the yamux multiplexer.
#[derive(Debug, Copy, Clone, PartialEq, Eq, PartialOrd, Ord, Hash, Structural)]
pub struct YamuxSubstreamId(pub u32);

impl YamuxSubstreamId {
    /// Smallest possible multiplexer id.
    pub fn min_value() -> (r: Self)
        ensures
            r.0 == 0,
    {
        YamuxSubstreamId(0)
    }

    /// Largest possible multiplexer id.
    pub fn max_value() -> (r: Self)
        ensures
            r.0 == u32::MAX,
    {
        YamuxSubstreamId(u32::MAX)
    }
}

/// Where a substream lives: inside the multiplexer of a single-stream connection, or as one of
/// the pipes that the host of a multi-stream connection provides.
#[derive(Debug, Copy, Clone, PartialEq, Eq, PartialOrd, Ord, Hash, Structural)]
pub enum SubstreamIdInner {
    SingleStream(YamuxSubstreamId),
    MultiStream(u32),
}

/// Identifier of a request or a notifications substream.
///
/// Identifiers are totally ordered: every single-stream identifier comes before every
/// multi-stream identifier, and within each flavor the order is the one of the integers.
#[derive(Debug, Copy, Clone, PartialEq, Eq, PartialOrd, Ord, Hash, Structural)]
pub struct SubstreamId(pub SubstreamIdInner);

/// Position of an identifier in the total order of identifiers.
pub open spec fn id_rank(id: SubstreamId) -> int {
    match id.0 {
        SubstreamIdInner::SingleStream(y) => y.0 as int,
        SubstreamIdInner::MultiStream(n) => u32::MAX as int + 1 + n as int,
    }
}

/// `a` compares inferior or equal to `b`.
pub open spec fn id_le(a: SubstreamId, b: SubstreamId) -> bool {
    id_rank(a) <= id_rank(b)
}

impl SubstreamId {
    /// Identifier of the substream `id` of the multiplexer.
    pub open spec fn single_stream_spec(id: u32) -> SubstreamId {
        SubstreamId(SubstreamIdInner::SingleStream(YamuxSubstreamId(id)))
    }

    /// Builds the identifier of a substream of the multiplexer.
    pub fn single_stream(id: u32) -> (r: Self)
        ensures
            r == Self::single_stream_spec(id),
    {
        SubstreamId(SubstreamIdInner::SingleStream(YamuxSubstreamId(id)))
    }

    /// Builds the identifier of a substream provided by the host.
    pub fn multi_stream(id: u32) -> (r: Self)
        ensures
            r == SubstreamId(SubstreamIdInner::MultiStream(id)),
    {
        SubstreamId(SubstreamIdInner::MultiStream(id))
    }

    /// Returns the value that compares inferior or equal to all possible values.
    pub fn min_value() -> (r: Self)
        ensures
            r == SubstreamId(SubstreamIdInner::SingleStream(YamuxSubstreamId(0))),
            forall|other: SubstreamId| id_le(r, other),
    {
        let y = YamuxSubstreamId::min_value();
        SubstreamId(SubstreamIdInner::SingleStream(y))
    }

    /// Returns the value that compares superior or equal to all possible values.
    pub fn max_value() -> (r: Self)
        ensures
            r == SubstreamId(SubstreamIdInner::MultiStream(u32::MAX)),
            forall|other: SubstreamId| id_le(other, r),
    {
        SubstreamId(SubstreamIdInner::MultiStream(u32::MAX))
    }

    /// Returns true if `self` compares inferior or equal to `other`.
    pub fn le(&self, other: &SubstreamId) -> (r: bool)
        ensures
            r == id_le(*self, *other),
    {
        match (self.0, other.0) {
            (SubstreamIdInner::SingleStream(a), SubstreamIdInner::SingleStream(b)) => a.0 <= b.0,
            (SubstreamIdInner::SingleStream(_), SubstreamIdInner::MultiStream(_)) => true,
            (SubstreamIdInner::MultiStream(_), SubstreamIdInner::SingleStream(_)) => false,
            (SubstreamIdInner::MultiStream(a), SubstreamIdInner::MultiStream(b)) => a <= b,
        }
    }
}

/// The order of identifiers is total, and two identifiers that compare equal both ways are
/// the same identifier.
pub proof fn lemma_id_order_total(a: SubstreamId, b: SubstreamId)
    ensures
        id_le(a, b) || id_le(b, a),
        id_le(a, b) && id_le(b, a) ==> a == b,
{
}

} // verus!
