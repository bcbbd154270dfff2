//! Path commands and the composition of curves into them.
use vstd::prelude::*;

use crate::curves::{CubicBezier, Line, QuadBezier};

verus! {

/// One absolute command of a path.
///
/// `EllipticalArc` carries the two radii and the end point; its rotation and
/// its two flags are always zero.
#[derive(Clone, Copy, Debug, PartialEq)]
pub enum PathCommand<P, R> {
    Move(P),
    Line(P),
    QuadraticCurve(P, P),
    CubicCurve(P, P, P),
    EllipticalArc(R, R, P),
}

/// The commands that draw `line`, preceded by a move to its start when `move_start` holds.
pub open spec fn spec_compose_line<P, R>(line: Line<P>, move_start: bool) -> Seq<PathCommand<P, R>> {
    let draw = seq![PathCommand::Line(line.end)];
    if move_start { seq![PathCommand::Move(line.start)] + draw } else { draw }
}

/// Composes the path commands of a line.
pub fn compose_line<P, R>(line: Line<P>, move_start: bool) -> (commands: Vec<PathCommand<P, R>>)
    ensures
        commands@ == spec_compose_line::<P, R>(line, move_start),
{
    let mut commands: Vec<PathCommand<P, R>> = Vec::new();
    if move_start {
        commands.push(PathCommand::Move(line.start));
    }
    commands.push(PathCommand::Line(line.end));
    commands
}


/// The commands that draw `quadbez`, preceded by a move to its start when `move_start` holds.
pub open spec fn spec_compose_quadbez<P, R>(quadbez: QuadBezier<P>, move_start: bool) -> Seq<PathCommand<P, R>> {
    let draw = seq![PathCommand::QuadraticCurve(quadbez.cp, quadbez.end)];
    if move_start { seq![PathCommand::Move(quadbez.start)] + draw } else { draw }
}

/// Composes the path commands of a quadratic Bézier curve.
pub fn compose_quadbez<P, R>(quadbez: QuadBezier<P>, move_start: bool) -> (commands: Vec<PathCommand<P, R>>)
    ensures
        commands@ == spec_compose_quadbez::<P, R>(quadbez, move_start),
{
    let mut commands: Vec<PathCommand<P, R>> = Vec::new();
    if move_start {
        commands.push(PathCommand::Move(quadbez.start));
    }
    commands.push(PathCommand::QuadraticCurve(quadbez.cp, quadbez.end));
    commands
}

/// The commands that draw `cubbez`, preceded by a move to its start when `move_start` holds.
pub open spec fn spec_compose_cubbez<P, R>(cubbez: CubicBezier<P>, move_start: bool) -> Seq<PathCommand<P, R>> {
    let draw = seq![PathCommand::CubicCurve(cubbez.cp1, cubbez.cp2, cubbez.end)];
    if move_start { seq![PathCommand::Move(cubbez.start)] + draw } else { draw }
}

/// Composes the path commands of a cubic Bézier curve.
pub fn compose_cubbez<P, R>(cubbez: CubicBezier<P>, move_start: bool) -> (commands: Vec<PathCommand<P, R>>)
    ensures
        commands@ == spec_compose_cubbez::<P, R>(cubbez, move_start),
{
    let mut commands: Vec<PathCommand<P, R>> = Vec::new();
    if move_start {
        commands.push(PathCommand::Move(cubbez.start));
    }
    commands.push(PathCommand::CubicCurve(cubbez.cp1, cubbez.cp2, cubbez.end));
    commands
}

/// The point at which the pen stands after a command.
pub open spec fn command_end<P, R>(command: PathCommand<P, R>) -> P {
    match command {
        PathCommand::Move(p) => p,
        PathCommand::Line(p) => p,
        PathCommand::QuadraticCurve(_, p) => p,
        PathCommand::CubicCurve(_, _, p) => p,
        PathCommand::EllipticalArc(_, _, p) => p,
    }
}

/// Whether a command lifts the pen.
pub open spec fn is_move<P, R>(command: PathCommand<P, R>) -> bool {
    command is Move
}

/// Moving to the start only puts a move to the curve's start in front of the
/// commands that draw the curve.
pub proof fn lemma_move_start_prepends<P, R>(line: Line<P>, quadbez: QuadBezier<P>, cubbez: CubicBezier<P>)
    ensures
        spec_compose_line::<P, R>(line, true)
            == seq![PathCommand::<P, R>::Move(line.start)] + spec_compose_line::<P, R>(line, false),
        spec_compose_quadbez::<P, R>(quadbez, true)
            == seq![PathCommand::<P, R>::Move(quadbez.start)] + spec_compose_quadbez::<P, R>(quadbez, false),
        spec_compose_cubbez::<P, R>(cubbez, true)
            == seq![PathCommand::<P, R>::Move(cubbez.start)] + spec_compose_cubbez::<P, R>(cubbez, false),
{
}

/// A composed curve is drawn by exactly one command that is not a move, and
/// the pen ends at the curve's end point.
pub proof fn lemma_composed_curve_ends_at_end<P, R>(
    line: Line<P>,
    quadbez: QuadBezier<P>,
    cubbez: CubicBezier<P>,
    move_start: bool,
)
    ensures
        ({
            let l = spec_compose_line::<P, R>(line, move_start);
            let q = spec_compose_quadbez::<P, R>(quadbez, move_start);
            let c = spec_compose_cubbez::<P, R>(cubbez, move_start);
            &&& l.len() >= 1 && command_end(l.last()) == line.end && !is_move(l.last())
            &&& q.len() >= 1 && command_end(q.last()) == quadbez.end && !is_move(q.last())
            &&& c.len() >= 1 && command_end(c.last()) == cubbez.end && !is_move(c.last())
            &&& forall|i: int| 0 <= i < l.len() - 1 ==> is_move(#[trigger] l[i])
            &&& forall|i: int| 0 <= i < q.len() - 1 ==> is_move(#[trigger] q[i])
            &&& forall|i: int| 0 <= i < c.len() - 1 ==> is_move(#[trigger] c[i])
        }),
{
}

/// Drawing a curve backwards ends where the curve starts.
pub proof fn lemma_reversed_ends_at_start<P, R>(
    line: Line<P>,
    quadbez: QuadBezier<P>,
    cubbez: CubicBezier<P>,
    move_start: bool,
)
    ensures
        command_end(spec_compose_line::<P, R>(line.spec_reversed(), move_start).last()) == line.start,
        command_end(spec_compose_quadbez::<P, R>(quadbez.spec_reversed(), move_start).last())
            == quadbez.start,
        command_end(spec_compose_cubbez::<P, R>(cubbez.spec_reversed(), move_start).last())
            == cubbez.start,
{
}

/// The commands of consecutive quadratic Bézier curves, each drawn after the
/// previous one; only the first may move to its start.
pub open spec fn spec_compose_quadbez_chain<P, R>(curves: Seq<QuadBezier<P>>, move_start: bool) -> Seq<PathCommand<P, R>>
    decreases curves.len(),
{
    if curves.len() == 0 {
        Seq::empty()
    } else {
        spec_compose_quadbez_chain::<P, R>(curves.drop_last(), move_start)
            + spec_compose_quadbez::<P, R>(curves.last(), move_start && curves.len() == 1)
    }
}

/// Composes consecutive quadratic Bézier curves into one path, moving to the
/// start of the first one when `move_start` holds.
pub fn compose_quadbez_chain<P: Copy, R>(curves: &Vec<QuadBezier<P>>, move_start: bool) -> (commands: Vec<PathCommand<P, R>>)
    ensures
        commands@ == spec_compose_quadbez_chain::<P, R>(curves@, move_start),
{
    let mut commands: Vec<PathCommand<P, R>> = Vec::new();
    let n = curves.len();
    let mut i: usize = 0;
    while i < n
        invariant
            n == curves@.len(),
            i <= n,
            commands@ == spec_compose_quadbez_chain::<P, R>(curves@.take(i as int), move_start),
        decreases n - i,
    {
        let curve = curves[i];
        let mut piece: Vec<PathCommand<P, R>> = compose_quadbez(curve, move_start && i == 0);
        commands.append(&mut piece);
        proof {
            let next = curves@.take(i + 1);
            assert(next.drop_last() =~= curves@.take(i as int));
            assert(next.last() == curves@[i as int]);
        }
        i = i + 1;
    }
    assert(curves@.take(n as int) =~= curves@);
    commands
}

/// The commands of a closed outline: one side, the join at the end, the other
/// side drawn backwards, and the join back at the start.
pub open spec fn spec_compose_outline<P, R>(
    forward: Seq<PathCommand<P, R>>,
    end_join: Seq<PathCommand<P, R>>,
    backward: Seq<PathCommand<P, R>>,
    start_join: Seq<PathCommand<P, R>>,
) -> Seq<PathCommand<P, R>> {
    forward + end_join + backward + start_join
}

/// A path of at least one command that lifts the pen at most once: at its
/// first command, and there only when `move_start` holds.
pub open spec fn single_subpath<P, R>(commands: Seq<PathCommand<P, R>>, move_start: bool) -> bool {
    &&& commands.len() >= 1
    &&& forall|i: int| 0 <= i < commands.len() ==> (is_move(#[trigger] commands[i]) <==> (i == 0 && move_start))
}

/// Each composed curve is a single subpath.
pub proof fn lemma_composed_curve_single_subpath<P, R>(
    line: Line<P>,
    quadbez: QuadBezier<P>,
    cubbez: CubicBezier<P>,
    move_start: bool,
)
    ensures
        single_subpath(spec_compose_line::<P, R>(line, move_start), move_start),
        single_subpath(spec_compose_quadbez::<P, R>(quadbez, move_start), move_start),
        single_subpath(spec_compose_cubbez::<P, R>(cubbez, move_start), move_start),
{
}

/// A chain of one or more curves is a single subpath with one drawing command
/// per curve, and the pen ends at the end of the last curve.
pub proof fn lemma_quadbez_chain_single_subpath<P, R>(curves: Seq<QuadBezier<P>>, move_start: bool)
    requires
        curves.len() >= 1,
    ensures
        single_subpath(spec_compose_quadbez_chain::<P, R>(curves, move_start), move_start),
        spec_compose_quadbez_chain::<P, R>(curves, move_start).len()
            == curves.len() + (if move_start { 1int } else { 0int }),
        command_end(spec_compose_quadbez_chain::<P, R>(curves, move_start).last()) == curves.last().end,
    decreases curves.len(),
{
    let whole = spec_compose_quadbez_chain::<P, R>(curves, move_start);
    if curves.len() > 1 {
        lemma_quadbez_chain_single_subpath::<P, R>(curves.drop_last(), move_start);
        let prefix = spec_compose_quadbez_chain::<P, R>(curves.drop_last(), move_start);
        let tail = spec_compose_quadbez::<P, R>(curves.last(), false);
        assert(whole == prefix + tail);
        assert forall|i: int| 0 <= i < whole.len() implies (is_move(#[trigger] whole[i]) <==> (i == 0 && move_start)) by {
            if i < prefix.len() {
                assert(whole[i] == prefix[i]);
            } else {
                assert(whole[i] == tail[i - prefix.len()]);
            }
        }
    } else {
        let only = spec_compose_quadbez::<P, R>(curves.last(), move_start);
        assert(spec_compose_quadbez_chain::<P, R>(curves.drop_last(), move_start) =~= Seq::empty());
        assert(whole =~= only);
    }
}

/// Composing a chain in two parts: the second part continues the first one
/// and does not move to its start.
pub proof fn lemma_quadbez_chain_append<P, R>(
    first: Seq<QuadBezier<P>>,
    second: Seq<QuadBezier<P>>,
    move_start: bool,
)
    requires
        first.len() >= 1,
    ensures
        spec_compose_quadbez_chain::<P, R>(first + second, move_start)
            == spec_compose_quadbez_chain::<P, R>(first, move_start)
                + spec_compose_quadbez_chain::<P, R>(second, false),
    decreases second.len(),
{
    if second.len() == 0 {
        assert(first + second =~= first);
        assert(spec_compose_quadbez_chain::<P, R>(first, move_start)
            + spec_compose_quadbez_chain::<P, R>(second, false)
            =~= spec_compose_quadbez_chain::<P, R>(first, move_start));
    } else {
        lemma_quadbez_chain_append::<P, R>(first, second.drop_last(), move_start);
        assert((first + second).drop_last() =~= first + second.drop_last());
        assert((first + second).last() == second.last());
        let a = spec_compose_quadbez_chain::<P, R>(first, move_start);
        let b = spec_compose_quadbez_chain::<P, R>(second.drop_last(), false);
        let c = spec_compose_quadbez::<P, R>(second.last(), false);
        assert(a + b + c =~= a + (b + c));
    }
}

/// A variable-width outline whose sides are single subpaths and whose joins
/// never lift the pen is itself a single subpath: it lifts the pen only at its
/// start, when the forward side does.
pub proof fn lemma_outline_single_subpath<P, R>(
    forward: Seq<PathCommand<P, R>>,
    end_join: Seq<PathCommand<P, R>>,
    backward: Seq<PathCommand<P, R>>,
    start_join: Seq<PathCommand<P, R>>,
    move_start: bool,
)
    requires
        single_subpath(forward, move_start),
        forall|i: int| 0 <= i < end_join.len() ==> !is_move(#[trigger] end_join[i]),
        single_subpath(backward, false),
        forall|i: int| 0 <= i < start_join.len() ==> !is_move(#[trigger] start_join[i]),
    ensures
        single_subpath(spec_compose_outline(forward, end_join, backward, start_join), move_start),
{
    let whole = spec_compose_outline(forward, end_join, backward, start_join);
    let a = forward.len();
    let b = a + end_join.len();
    let c = b + backward.len();
    assert forall|i: int| 0 <= i < whole.len() implies (is_move(#[trigger] whole[i]) <==> (i == 0 && move_start)) by {
        if i < a {
            assert(whole[i] == forward[i]);
        } else if i < b {
            assert(whole[i] == end_join[i - a]);
        } else if i < c {
            assert(whole[i] == backward[i - b]);
        } else {
            assert(whole[i] == start_join[i - c]);
        }
    }
}

/// A round join: an arc of the given radius to `point`, then a line to the same point.
pub open spec fn spec_round_join<P, R>(radius: R, point: P) -> Seq<PathCommand<P, R>> {
    seq![PathCommand::EllipticalArc(radius, radius, point), PathCommand::Line(point)]
}

/// The outline of a stroked line: the forward side, a round join at the end,
/// the backward side without a move, and a round join back at the start.
pub open spec fn spec_compose_round_capped_outline<P, R>(
    forward: Line<P>,
    end_radius: R,
    end_point: P,
    backward: Line<P>,
    start_radius: R,
    start_point: P,
    move_start: bool,
) -> Seq<PathCommand<P, R>> {
    spec_compose_outline(
        spec_compose_line::<P, R>(forward, move_start),
        spec_round_join(end_radius, end_point),
        spec_compose_line::<P, R>(backward, false),
        spec_round_join(start_radius, start_point),
    )
}

/// Composes the closed outline of a stroked line from its two offset sides and
/// the round joins between them.
pub fn compose_round_capped_outline<P: Copy, R: Copy>(
    forward: Line<P>,
    end_radius: R,
    end_point: P,
    backward: Line<P>,
    start_radius: R,
    start_point: P,
    move_start: bool,
) -> (commands: Vec<PathCommand<P, R>>)
    ensures
        commands@ == spec_compose_round_capped_outline(
            forward,
            end_radius,
            end_point,
            backward,
            start_radius,
            start_point,
            move_start,
        ),
{
    let mut commands: Vec<PathCommand<P, R>> = compose_line(forward, move_start);
    commands.push(PathCommand::EllipticalArc(end_radius, end_radius, end_point));
    commands.push(PathCommand::Line(end_point));
    let mut back: Vec<PathCommand<P, R>> = compose_line(backward, false);
    commands.append(&mut back);
    commands.push(PathCommand::EllipticalArc(start_radius, start_radius, start_point));
    commands.push(PathCommand::Line(start_point));
    assert(commands@ =~= spec_compose_round_capped_outline(
        forward,
        end_radius,
        end_point,
        backward,
        start_radius,
        start_point,
        move_start,
    ));
    commands
}

/// The outline of a stroked curve made of quadratic pieces: the forward chain,
/// a line to `end_point`, the backward chain without a move, and a line to
/// `start_point`.
pub open spec fn spec_compose_line_joined_outline<P, R>(
    forward: Seq<QuadBezier<P>>,
    end_point: P,
    backward: Seq<QuadBezier<P>>,
    start_point: P,
    move_start: bool,
) -> Seq<PathCommand<P, R>> {
    spec_compose_outline(
        spec_compose_quadbez_chain::<P, R>(forward, move_start),
        seq![PathCommand::Line(end_point)],
        spec_compose_quadbez_chain::<P, R>(backward, false),
        seq![PathCommand::Line(start_point)],
    )
}

/// Composes the closed outline of a stroked curve from the offset quadratic
/// pieces of its two sides, joined by straight lines.
pub fn compose_line_joined_outline<P: Copy, R>(
    forward: &Vec<QuadBezier<P>>,
    end_point: P,
    backward: &Vec<QuadBezier<P>>,
    start_point: P,
    move_start: bool,
) -> (commands: Vec<PathCommand<P, R>>)
    ensures
        commands@ == spec_compose_line_joined_outline::<P, R>(
            forward@,
            end_point,
            backward@,
            start_point,
            move_start,
        ),
{
    let mut commands: Vec<PathCommand<P, R>> = compose_quadbez_chain(forward, move_start);
    commands.push(PathCommand::Line(end_point));
    let mut back: Vec<PathCommand<P, R>> = compose_quadbez_chain(backward, false);
    commands.append(&mut back);
    commands.push(PathCommand::Line(start_point));
    assert(commands@ =~= spec_compose_line_joined_outline::<P, R>(
        forward@,
        end_point,
        backward@,
        start_point,
        move_start,
    ));
    commands
}

/// The outline of a stroked line is a single subpath: it lifts the pen only at
/// its start, when `move_start` holds.
pub proof fn lemma_round_capped_outline_single_subpath<P, R>(
    forward: Line<P>,
    end_radius: R,
    end_point: P,
    backward: Line<P>,
    start_radius: R,
    start_point: P,
    move_start: bool,
)
    ensures
        single_subpath(
            spec_compose_round_capped_outline(
                forward,
                end_radius,
                end_point,
                backward,
                start_radius,
                start_point,
                move_start,
            ),
            move_start,
        ),
{
    lemma_composed_curve_single_subpath::<P, R>(forward, arbitrary(), arbitrary(), move_start);
    lemma_composed_curve_single_subpath::<P, R>(backward, arbitrary(), arbitrary(), false);
    lemma_outline_single_subpath(
        spec_compose_line::<P, R>(forward, move_start),
        spec_round_join(end_radius, end_point),
        spec_compose_line::<P, R>(backward, false),
        spec_round_join(start_radius, start_point),
        move_start,
    );
}

/// The outline of a stroked curve whose two sides have at least one piece each
/// is a single subpath: it lifts the pen only at its start, when `move_start` holds.
pub proof fn lemma_line_joined_outline_single_subpath<P, R>(
    forward: Seq<QuadBezier<P>>,
    end_point: P,
    backward: Seq<QuadBezier<P>>,
    start_point: P,
    move_start: bool,
)
    requires
        forward.len() >= 1,
        backward.len() >= 1,
    ensures
        single_subpath(
            spec_compose_line_joined_outline::<P, R>(forward, end_point, backward, start_point, move_start),
            move_start,
        ),
{
    lemma_quadbez_chain_single_subpath::<P, R>(forward, move_start);
    lemma_quadbez_chain_single_subpath::<P, R>(backward, false);
    let end_join = seq![PathCommand::<P, R>::Line(end_point)];
    let start_join = seq![PathCommand::<P, R>::Line(start_point)];
    assert forall|i: int| 0 <= i < end_join.len() implies !is_move(#[trigger] end_join[i]) by {}
    assert forall|i: int| 0 <= i < start_join.len() implies !is_move(#[trigger] start_join[i]) by {}
    lemma_outline_single_subpath(
        spec_compose_quadbez_chain::<P, R>(forward, move_start),
        end_join,
        spec_compose_quadbez_chain::<P, R>(backward, false),
        start_join,
        move_start,
    );
}

/// Composing a chain with a move puts one move to the start of the first curve
/// in front of the chain composed without one.
pub proof fn lemma_quadbez_chain_move_start<P, R>(curves: Seq<QuadBezier<P>>)
    requires
        curves.len() >= 1,
    ensures
        spec_compose_quadbez_chain::<P, R>(curves, true)
            == seq![PathCommand::<P, R>::Move(curves[0].start)] + spec_compose_quadbez_chain::<P, R>(curves, false),
    decreases curves.len(),
{
    let mv = seq![PathCommand::<P, R>::Move(curves[0].start)];
    if curves.len() == 1 {
        assert(spec_compose_quadbez_chain::<P, R>(curves.drop_last(), true) =~= Seq::empty());
        assert(spec_compose_quadbez_chain::<P, R>(curves.drop_last(), false) =~= Seq::empty());
        assert(curves.last() == curves[0]);
        assert(spec_compose_quadbez_chain::<P, R>(curves, true)
            =~= mv + spec_compose_quadbez_chain::<P, R>(curves, false));
    } else {
        lemma_quadbez_chain_move_start::<P, R>(curves.drop_last());
        assert(curves.drop_last()[0] == curves[0]);
        let tail = spec_compose_quadbez::<P, R>(curves.last(), false);
        let rest = spec_compose_quadbez_chain::<P, R>(curves.drop_last(), false);
        assert(mv + rest + tail =~= mv + (rest + tail));
    }
}

/// A chain consists of moves and quadratic curves only.
pub proof fn lemma_quadbez_chain_commands<P, R>(curves: Seq<QuadBezier<P>>, move_start: bool)
    ensures
        forall|i: int|
            0 <= i < spec_compose_quadbez_chain::<P, R>(curves, move_start).len() ==> {
                let c = #[trigger] spec_compose_quadbez_chain::<P, R>(curves, move_start)[i];
                c is Move || c is QuadraticCurve
            },
    decreases curves.len(),
{
    if curves.len() > 0 {
        lemma_quadbez_chain_commands::<P, R>(curves.drop_last(), move_start);
        let whole = spec_compose_quadbez_chain::<P, R>(curves, move_start);
        let prefix = spec_compose_quadbez_chain::<P, R>(curves.drop_last(), move_start);
        let tail = spec_compose_quadbez::<P, R>(curves.last(), move_start && curves.len() == 1);
        assert forall|i: int| 0 <= i < whole.len() implies ({
            let c = #[trigger] whole[i];
            c is Move || c is QuadraticCurve
        }) by {
            if i < prefix.len() {
                assert(whole[i] == prefix[i]);
            } else {
                assert(whole[i] == tail[i - prefix.len()]);
            }
        }
    }
}

/// The layout of a chain: a move to the first curve's start when `move_start`
/// holds and there is a curve, then one quadratic curve command per curve, in
/// order, to the curve's control point and end.
pub proof fn lemma_quadbez_chain_layout<P, R>(curves: Seq<QuadBezier<P>>, move_start: bool)
    ensures
        ({
            let c = spec_compose_quadbez_chain::<P, R>(curves, move_start);
            let off: int = if move_start && curves.len() > 0 { 1 } else { 0 };
            &&& c.len() == curves.len() + off
            &&& (move_start && curves.len() > 0) ==> c[0] == PathCommand::<P, R>::Move(curves[0].start)
            &&& forall|i: int|
                #![trigger curves[i]]
                0 <= i < curves.len() ==> c[off + i] == PathCommand::<P, R>::QuadraticCurve(curves[i].cp, curves[i].end)
        }),
    decreases curves.len(),
{
    if curves.len() > 0 {
        let init = curves.drop_last();
        lemma_quadbez_chain_layout::<P, R>(init, move_start);
        let c = spec_compose_quadbez_chain::<P, R>(curves, move_start);
        let prefix = spec_compose_quadbez_chain::<P, R>(init, move_start);
        let tail = spec_compose_quadbez::<P, R>(curves.last(), move_start && curves.len() == 1);
        assert(c == prefix + tail);
        let off: int = if move_start { 1 } else { 0 };
        if curves.len() == 1 {
            assert(prefix =~= Seq::empty());
        } else {
            assert(init[0] == curves[0]);
        }
        assert forall|i: int|
            #![trigger curves[i]]
            0 <= i < curves.len() implies c[off + i] == PathCommand::<P, R>::QuadraticCurve(curves[i].cp, curves[i].end) by {
            if i < curves.len() - 1 {
                assert(init[i] == curves[i]);
                assert(c[off + i] == prefix[off + i]);
            } else {
                assert(c[off + i] == tail[tail.len() - 1]);
            }
        }
    }
}

/// The layout of the outline of a stroked curve: the forward chain (after a
/// move to its first piece's start when `move_start` holds), a line to
/// `end_point`, the backward pieces in order without a move, and finally a
/// line to `start_point`. Composing with a move only puts one move in front.
pub proof fn lemma_line_joined_outline_layout<P, R>(
    forward: Seq<QuadBezier<P>>,
    end_point: P,
    backward: Seq<QuadBezier<P>>,
    start_point: P,
    move_start: bool,
)
    requires
        forward.len() >= 1,
    ensures
        ({
            let o = spec_compose_line_joined_outline::<P, R>(forward, end_point, backward, start_point, move_start);
            let off: int = if move_start { 1 } else { 0 };
            let n = forward.len() as int;
            let m = backward.len() as int;
            &&& o.len() == off + n + m + 2
            &&& move_start ==> o[0] == PathCommand::<P, R>::Move(forward[0].start)
            &&& forall|i: int|
                #![trigger forward[i]]
                0 <= i < n ==> o[off + i] == PathCommand::<P, R>::QuadraticCurve(forward[i].cp, forward[i].end)
            &&& o[off + n] == PathCommand::<P, R>::Line(end_point)
            &&& forall|j: int|
                #![trigger backward[j]]
                0 <= j < m ==> o[off + n + 1 + j] == PathCommand::<P, R>::QuadraticCurve(backward[j].cp, backward[j].end)
            &&& o[o.len() - 1] == PathCommand::<P, R>::Line(start_point)
        }),
        spec_compose_line_joined_outline::<P, R>(forward, end_point, backward, start_point, true)
            == seq![PathCommand::<P, R>::Move(forward[0].start)]
                + spec_compose_line_joined_outline::<P, R>(forward, end_point, backward, start_point, false),
{
    lemma_quadbez_chain_layout::<P, R>(forward, move_start);
    lemma_quadbez_chain_layout::<P, R>(backward, false);
    lemma_quadbez_chain_move_start::<P, R>(forward);
    let o = spec_compose_line_joined_outline::<P, R>(forward, end_point, backward, start_point, move_start);
    let f = spec_compose_quadbez_chain::<P, R>(forward, move_start);
    let b = spec_compose_quadbez_chain::<P, R>(backward, false);
    let ej = seq![PathCommand::<P, R>::Line(end_point)];
    let sj = seq![PathCommand::<P, R>::Line(start_point)];
    assert(o == f + ej + b + sj);
    let off: int = if move_start { 1 } else { 0 };
    let n = forward.len() as int;
    assert forall|i: int|
        #![trigger forward[i]]
        0 <= i < n implies o[off + i] == PathCommand::<P, R>::QuadraticCurve(forward[i].cp, forward[i].end) by {
        assert(o[off + i] == f[off + i]);
    }
    assert(o[off + n] == ej[0]);
    assert forall|j: int|
        #![trigger backward[j]]
        0 <= j < backward.len() implies o[off + n + 1 + j] == PathCommand::<P, R>::QuadraticCurve(backward[j].cp, backward[j].end) by {
        assert(o[off + n + 1 + j] == b[j]);
    }
    let mv = seq![PathCommand::<P, R>::Move(forward[0].start)];
    let f0 = spec_compose_quadbez_chain::<P, R>(forward, false);
    let t = spec_compose_quadbez_chain::<P, R>(forward, true);
    assert(t + ej + b + sj =~= mv + (f0 + ej + b + sj));
}

/// The outline of a stroked line: after a move to the forward side's start
/// when `move_start` holds, a line along the forward side, an arc of the end
/// radius to `end_point` and a line to it, a line along the backward side, an
/// arc of the start radius to `start_point` and a line to it.
pub proof fn lemma_round_capped_outline_layout<P, R>(
    forward: Line<P>,
    end_radius: R,
    end_point: P,
    backward: Line<P>,
    start_radius: R,
    start_point: P,
    move_start: bool,
)
    ensures
        ({
            let body = seq![
                PathCommand::<P, R>::Line(forward.end),
                PathCommand::<P, R>::EllipticalArc(end_radius, end_radius, end_point),
                PathCommand::<P, R>::Line(end_point),
                PathCommand::<P, R>::Line(backward.end),
                PathCommand::<P, R>::EllipticalArc(start_radius, start_radius, start_point),
                PathCommand::<P, R>::Line(start_point),
            ];
            spec_compose_round_capped_outline(
                forward,
                end_radius,
                end_point,
                backward,
                start_radius,
                start_point,
                move_start,
            ) == if move_start { seq![PathCommand::<P, R>::Move(forward.start)] + body } else { body }
        }),
{
    let body = seq![
        PathCommand::<P, R>::Line(forward.end),
        PathCommand::<P, R>::EllipticalArc(end_radius, end_radius, end_point),
        PathCommand::<P, R>::Line(end_point),
        PathCommand::<P, R>::Line(backward.end),
        PathCommand::<P, R>::EllipticalArc(start_radius, start_radius, start_point),
        PathCommand::<P, R>::Line(start_point),
    ];
    let o = spec_compose_round_capped_outline(
        forward,
        end_radius,
        end_point,
        backward,
        start_radius,
        start_point,
        move_start,
    );
    if move_start {
        assert(o =~= seq![PathCommand::<P, R>::Move(forward.start)] + body);
    } else {
        assert(o =~= body);
    }
}

/// The commands of a single curve: a move to its start when `move_start`
/// holds, then one command through its control points to its end.
pub proof fn lemma_composed_curve_layout<P, R>(
    line: Line<P>,
    quadbez: QuadBezier<P>,
    cubbez: CubicBezier<P>,
    move_start: bool,
)
    ensures
        spec_compose_line::<P, R>(line, move_start) == if move_start {
            seq![PathCommand::<P, R>::Move(line.start), PathCommand::<P, R>::Line(line.end)]
        } else {
            seq![PathCommand::<P, R>::Line(line.end)]
        },
        spec_compose_quadbez::<P, R>(quadbez, move_start) == if move_start {
            seq![
                PathCommand::<P, R>::Move(quadbez.start),
                PathCommand::<P, R>::QuadraticCurve(quadbez.cp, quadbez.end),
            ]
        } else {
            seq![PathCommand::<P, R>::QuadraticCurve(quadbez.cp, quadbez.end)]
        },
        spec_compose_cubbez::<P, R>(cubbez, move_start) == if move_start {
            seq![
                PathCommand::<P, R>::Move(cubbez.start),
                PathCommand::<P, R>::CubicCurve(cubbez.cp1, cubbez.cp2, cubbez.end),
            ]
        } else {
            seq![PathCommand::<P, R>::CubicCurve(cubbez.cp1, cubbez.cp2, cubbez.end)]
        },
{
    assert(spec_compose_line::<P, R>(line, move_start) =~= if move_start {
        seq![PathCommand::<P, R>::Move(line.start), PathCommand::<P, R>::Line(line.end)]
    } else {
        seq![PathCommand::<P, R>::Line(line.end)]
    });
    assert(spec_compose_quadbez::<P, R>(quadbez, move_start) =~= if move_start {
        seq![
            PathCommand::<P, R>::Move(quadbez.start),
            PathCommand::<P, R>::QuadraticCurve(quadbez.cp, quadbez.end),
        ]
    } else {
        seq![PathCommand::<P, R>::QuadraticCurve(quadbez.cp, quadbez.end)]
    });
    assert(spec_compose_cubbez::<P, R>(cubbez, move_start) =~= if move_start {
        seq![
            PathCommand::<P, R>::Move(cubbez.start),
            PathCommand::<P, R>::CubicCurve(cubbez.cp1, cubbez.cp2, cubbez.end),
        ]
    } else {
        seq![PathCommand::<P, R>::CubicCurve(cubbez.cp1, cubbez.cp2, cubbez.end)]
    });
}

} // verus!
