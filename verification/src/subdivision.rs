//! Splitting an offsetted curve at its critical points.
//!
//! An offsetted quadratic Bézier curve is approximated piecewise: the curve is
//! split at up to two parameters, and each piece is offsetted on its own with
//! the offset distances that hold at the split points.
use vstd::prelude::*;

verus! {

/// One piece of a subdivided curve, with the offset distances at its two ends.
#[derive(Clone, Copy, Debug, PartialEq)]
pub struct OffsetSegment<C, D> {
    pub curve: C,
    pub start_offset_dist: D,
    pub end_offset_dist: D,
    pub move_start: bool,
}

/// The distance at an optional split point, as a sequence of zero or one element.
pub open spec fn option_as_seq<D>(o: Option<D>) -> Seq<D> {
    match o {
        Some(d) => seq![d],
        None => Seq::empty(),
    }
}

/// The offset distances at the start, at each split point that exists, and at the end.
pub open spec fn offset_breakpoints<D>(
    start_offset_dist: D,
    dist_t1: Option<D>,
    dist_t2: Option<D>,
    end_offset_dist: D,
) -> Seq<D> {
    seq![start_offset_dist] + option_as_seq(dist_t1) + option_as_seq(dist_t2) + seq![end_offset_dist]
}

/// The number of pieces the curve is split into.
pub open spec fn segment_count<D>(dist_t1: Option<D>, dist_t2: Option<D>) -> nat {
    1 + option_as_seq(dist_t1).len() + option_as_seq(dist_t2).len()
}

/// Piece `i` runs from breakpoint `i` to breakpoint `i + 1`; only the first
/// piece may move to its start.
pub open spec fn spec_offset_segments<C, D>(
    pieces: Seq<C>,
    start_offset_dist: D,
    dist_t1: Option<D>,
    dist_t2: Option<D>,
    end_offset_dist: D,
    move_start: bool,
) -> Seq<OffsetSegment<C, D>> {
    let bp = offset_breakpoints(start_offset_dist, dist_t1, dist_t2, end_offset_dist);
    Seq::new(
        segment_count(dist_t1, dist_t2),
        |i: int|
            OffsetSegment {
                curve: pieces[i],
                start_offset_dist: bp[i],
                end_offset_dist: bp[i + 1],
                move_start: move_start && i == 0,
            },
    )
}

/// Plans the offsetting of a curve that was split at its critical points.
///
/// `pieces` are the parts of the split curve in order; `dist_t1` and `dist_t2`
/// are the offset distances at the first and second split point, where the
/// curve was split there.
pub fn offset_subdivision_segments<C: Copy, D: Copy>(
    pieces: &Vec<C>,
    start_offset_dist: D,
    dist_t1: Option<D>,
    dist_t2: Option<D>,
    end_offset_dist: D,
    move_start: bool,
) -> (segments: Vec<OffsetSegment<C, D>>)
    requires
        segment_count(dist_t1, dist_t2) <= pieces.len(),
    ensures
        segments@ == spec_offset_segments(
            pieces@,
            start_offset_dist,
            dist_t1,
            dist_t2,
            end_offset_dist,
            move_start,
        ),
{
    let ghost bp = offset_breakpoints(start_offset_dist, dist_t1, dist_t2, end_offset_dist);
    let mut segments: Vec<OffsetSegment<C, D>> = Vec::new();
    match (dist_t1, dist_t2) {
        (Some(d1), Some(d2)) => {
            segments.push(OffsetSegment { curve: pieces[0], start_offset_dist, end_offset_dist: d1, move_start });
            segments.push(OffsetSegment { curve: pieces[1], start_offset_dist: d1, end_offset_dist: d2, move_start: false });
            segments.push(OffsetSegment { curve: pieces[2], start_offset_dist: d2, end_offset_dist, move_start: false });
        },
        (Some(d1), None) => {
            segments.push(OffsetSegment { curve: pieces[0], start_offset_dist, end_offset_dist: d1, move_start });
            segments.push(OffsetSegment { curve: pieces[1], start_offset_dist: d1, end_offset_dist, move_start: false });
        },
        (None, Some(d2)) => {
            segments.push(OffsetSegment { curve: pieces[0], start_offset_dist, end_offset_dist: d2, move_start });
            segments.push(OffsetSegment { curve: pieces[1], start_offset_dist: d2, end_offset_dist, move_start: false });
        },
        (None, None) => {
            segments.push(OffsetSegment { curve: pieces[0], start_offset_dist, end_offset_dist, move_start });
        },
    }
    assert(segments@ =~= spec_offset_segments(
        pieces@,
        start_offset_dist,
        dist_t1,
        dist_t2,
        end_offset_dist,
        move_start,
    ));
    segments
}

/// The pieces form one continuous offset: there is one piece more than there
/// are split points, the first piece starts at the start offset distance and is
/// the only one that may move to its start, each piece ends at the distance at
/// which the next one starts, the last piece ends at the end offset distance,
/// and the pieces keep the order of the split curve.
pub proof fn lemma_offset_segments_chain<C, D>(
    pieces: Seq<C>,
    start_offset_dist: D,
    dist_t1: Option<D>,
    dist_t2: Option<D>,
    end_offset_dist: D,
    move_start: bool,
)
    ensures
        ({
            let segs = spec_offset_segments(
                pieces,
                start_offset_dist,
                dist_t1,
                dist_t2,
                end_offset_dist,
                move_start,
            );
            &&& segs.len() == segment_count(dist_t1, dist_t2)
            &&& segs.len() >= 1
            &&& segs[0].start_offset_dist == start_offset_dist
            &&& segs[0].move_start == move_start
            &&& segs[segs.len() - 1].end_offset_dist == end_offset_dist
            &&& forall|i: int| 0 <= i < segs.len() - 1 ==> #[trigger] segs[i].end_offset_dist == segs[i + 1].start_offset_dist
            &&& forall|i: int| 1 <= i < segs.len() ==> !(#[trigger] segs[i]).move_start
            &&& forall|i: int| 0 <= i < segs.len() ==> (#[trigger] segs[i]).curve == pieces[i]
        }),
{
    let bp = offset_breakpoints(start_offset_dist, dist_t1, dist_t2, end_offset_dist);
    assert(bp.len() == segment_count(dist_t1, dist_t2) + 1);
    assert(bp[0] == start_offset_dist);
    assert(bp[bp.len() - 1] == end_offset_dist);
}

/// Without split points the whole curve is offsetted in one piece, from the
/// start to the end offset distance.
pub proof fn lemma_offset_segments_unsplit<C, D>(
    pieces: Seq<C>,
    start_offset_dist: D,
    end_offset_dist: D,
    move_start: bool,
)
    ensures
        spec_offset_segments(pieces, start_offset_dist, None, None, end_offset_dist, move_start)
            =~= seq![OffsetSegment { curve: pieces[0], start_offset_dist, end_offset_dist, move_start }],
{
}

/// The two halves of a curve split in the middle: the first runs from the
/// start to the middle offset distance and may move to its start, the second
/// runs on from the middle to the end offset distance without a move.
pub open spec fn spec_offset_halves<C, D>(
    first: C,
    second: C,
    start_offset_dist: D,
    mid_offset_dist: D,
    end_offset_dist: D,
    move_start: bool,
) -> Seq<OffsetSegment<C, D>> {
    seq![
        OffsetSegment { curve: first, start_offset_dist, end_offset_dist: mid_offset_dist, move_start },
        OffsetSegment {
            curve: second,
            start_offset_dist: mid_offset_dist,
            end_offset_dist,
            move_start: false,
        },
    ]
}

/// Plans the offsetting of a curve that was split into two halves.
pub fn offset_halves<C, D: Copy>(
    first: C,
    second: C,
    start_offset_dist: D,
    mid_offset_dist: D,
    end_offset_dist: D,
    move_start: bool,
) -> (segments: Vec<OffsetSegment<C, D>>)
    ensures
        segments@ == spec_offset_halves(
            first,
            second,
            start_offset_dist,
            mid_offset_dist,
            end_offset_dist,
            move_start,
        ),
{
    let mut segments: Vec<OffsetSegment<C, D>> = Vec::new();
    segments.push(OffsetSegment { curve: first, start_offset_dist, end_offset_dist: mid_offset_dist, move_start });
    segments.push(OffsetSegment { curve: second, start_offset_dist: mid_offset_dist, end_offset_dist, move_start: false });
    assert(segments@ =~= spec_offset_halves(
        first,
        second,
        start_offset_dist,
        mid_offset_dist,
        end_offset_dist,
        move_start,
    ));
    segments
}

/// The two halves meet at the middle offset distance, the first starts at the
/// start distance, the second ends at the end distance, and only the first may
/// move to its start.
pub proof fn lemma_offset_halves_chain<C, D>(
    first: C,
    second: C,
    start_offset_dist: D,
    mid_offset_dist: D,
    end_offset_dist: D,
    move_start: bool,
)
    ensures
        ({
            let h = spec_offset_halves(first, second, start_offset_dist, mid_offset_dist, end_offset_dist, move_start);
            &&& h.len() == 2
            &&& h[0].curve == first
            &&& h[1].curve == second
            &&& h[0].start_offset_dist == start_offset_dist
            &&& h[0].end_offset_dist == mid_offset_dist
            &&& h[1].start_offset_dist == mid_offset_dist
            &&& h[0].end_offset_dist == h[1].start_offset_dist
            &&& h[1].end_offset_dist == end_offset_dist
            &&& h[0].move_start == move_start
            &&& !h[1].move_start
        }),
{
}

/// The split distances are the interior breakpoints, in order: the pieces are
/// the split curve's pieces in order, the first starts at the start distance
/// and the last ends at the end distance, the first piece ends at the distance
/// at the first split point where there is one, the last piece starts at the
/// distance at the second split point where there is one, and only the first
/// piece moves, exactly when `move_start` holds.
pub proof fn lemma_offset_segments_split_distances<C, D>(
    pieces: Seq<C>,
    start_offset_dist: D,
    dist_t1: Option<D>,
    dist_t2: Option<D>,
    end_offset_dist: D,
    move_start: bool,
)
    ensures
        ({
            let segs = spec_offset_segments(
                pieces,
                start_offset_dist,
                dist_t1,
                dist_t2,
                end_offset_dist,
                move_start,
            );
            let n = segs.len() as int;
            &&& n == 1 + (if dist_t1 is Some { 1int } else { 0int }) + (if dist_t2 is Some { 1int } else { 0int })
            &&& forall|i: int| 0 <= i < n ==> (#[trigger] segs[i]).curve == pieces[i]
            &&& forall|i: int| 0 <= i < n ==> (#[trigger] segs[i]).move_start == (move_start && i == 0)
            &&& forall|i: int| 0 <= i < n - 1 ==> #[trigger] segs[i].end_offset_dist == segs[i + 1].start_offset_dist
            &&& segs[0].start_offset_dist == start_offset_dist
            &&& segs[n - 1].end_offset_dist == end_offset_dist
            &&& (dist_t1 matches Some(d1) ==> segs[0].end_offset_dist == d1)
            &&& (dist_t2 matches Some(d2) ==> segs[n - 1].start_offset_dist == d2)
        }),
{
    lemma_offset_segments_chain(pieces, start_offset_dist, dist_t1, dist_t2, end_offset_dist, move_start);
    let bp = offset_breakpoints(start_offset_dist, dist_t1, dist_t2, end_offset_dist);
    match dist_t1 {
        Some(d1) => {
            assert(bp[1] == d1);
        },
        None => {},
    }
    match dist_t2 {
        Some(d2) => {
            assert(bp[bp.len() - 2] == d2);
        },
        None => {},
    }
}

} // verus!
