use compose_solid::curves::{CubicBezier, Line, QuadBezier};
use compose_solid::paint::css_paint;
use compose_solid::path::{
    compose_cubbez, compose_line, compose_line_joined_outline, compose_quadbez,
    compose_quadbez_chain, compose_round_capped_outline, PathCommand,
};
use compose_solid::subdivision::{offset_halves, offset_subdivision_segments, OffsetSegment};

type P = (i32, i32);
type Cmd = PathCommand<P, u32>;

fn line() -> Line<P> {
    Line { start: (0, 0), end: (4, 2) }
}

fn quad() -> QuadBezier<P> {
    QuadBezier { start: (0, 0), cp: (1, 3), end: (2, 0) }
}

fn cubic() -> CubicBezier<P> {
    CubicBezier { start: (0, 0), cp1: (1, 2), cp2: (3, 2), end: (4, 0) }
}

#[test]
fn line_with_move() {
    let cmds: Vec<Cmd> = compose_line(line(), true);
    assert_eq!(cmds, vec![PathCommand::Move((0, 0)), PathCommand::Line((4, 2))]);
}

#[test]
fn line_without_move() {
    let cmds: Vec<Cmd> = compose_line(line(), false);
    assert_eq!(cmds, vec![PathCommand::Line((4, 2))]);
}

#[test]
fn quadbez_with_and_without_move() {
    let with: Vec<Cmd> = compose_quadbez(quad(), true);
    assert_eq!(
        with,
        vec![PathCommand::Move((0, 0)), PathCommand::QuadraticCurve((1, 3), (2, 0))]
    );
    let without: Vec<Cmd> = compose_quadbez(quad(), false);
    assert_eq!(without, vec![PathCommand::QuadraticCurve((1, 3), (2, 0))]);
}

#[test]
fn cubbez_with_and_without_move() {
    let with: Vec<Cmd> = compose_cubbez(cubic(), true);
    assert_eq!(
        with,
        vec![
            PathCommand::Move((0, 0)),
            PathCommand::CubicCurve((1, 2), (3, 2), (4, 0))
        ]
    );
    let without: Vec<Cmd> = compose_cubbez(cubic(), false);
    assert_eq!(without, vec![PathCommand::CubicCurve((1, 2), (3, 2), (4, 0))]);
}

#[test]
fn move_start_prepends_a_move() {
    let with: Vec<Cmd> = compose_cubbez(cubic(), true);
    let without: Vec<Cmd> = compose_cubbez(cubic(), false);
    assert_eq!(with[0], PathCommand::Move(cubic().start));
    assert_eq!(&with[1..], &without[..]);
}

#[test]
fn float_points_compose() {
    let l = Line { start: [0.5f64, 1.5], end: [2.25, -1.0] };
    let cmds: Vec<PathCommand<[f64; 2], f64>> = compose_line(l, true);
    assert_eq!(
        cmds,
        vec![PathCommand::Move([0.5, 1.5]), PathCommand::Line([2.25, -1.0])]
    );
}

#[test]
fn reversed_curves() {
    assert_eq!(line().reversed(), Line { start: (4, 2), end: (0, 0) });
    assert_eq!(
        quad().reversed(),
        QuadBezier { start: (2, 0), cp: (1, 3), end: (0, 0) }
    );
    assert_eq!(
        cubic().reversed(),
        CubicBezier { start: (4, 0), cp1: (3, 2), cp2: (1, 2), end: (0, 0) }
    );
}

#[test]
fn reversed_twice_is_identity() {
    assert_eq!(line().reversed().reversed(), line());
    assert_eq!(quad().reversed().reversed(), quad());
    assert_eq!(cubic().reversed().reversed(), cubic());
}

#[test]
fn reversed_path_ends_at_start() {
    let cmds: Vec<Cmd> = compose_quadbez(quad().reversed(), false);
    assert_eq!(cmds, vec![PathCommand::QuadraticCurve((1, 3), (0, 0))]);
}

fn seg(curve: char, s: i32, e: i32, mv: bool) -> OffsetSegment<char, i32> {
    OffsetSegment { curve, start_offset_dist: s, end_offset_dist: e, move_start: mv }
}

#[test]
fn subdivision_two_splits() {
    let pieces = vec!['a', 'b', 'c'];
    let segs = offset_subdivision_segments(&pieces, 10, Some(20), Some(30), 40, true);
    assert_eq!(
        segs,
        vec![seg('a', 10, 20, true), seg('b', 20, 30, false), seg('c', 30, 40, false)]
    );
}

#[test]
fn subdivision_first_split_only() {
    let pieces = vec!['a', 'b', 'c'];
    let segs = offset_subdivision_segments(&pieces, 10, Some(20), None, 40, true);
    assert_eq!(segs, vec![seg('a', 10, 20, true), seg('b', 20, 40, false)]);
}

#[test]
fn subdivision_second_split_only() {
    let pieces = vec!['a', 'b'];
    let segs = offset_subdivision_segments(&pieces, 10, None, Some(30), 40, false);
    assert_eq!(segs, vec![seg('a', 10, 30, false), seg('b', 30, 40, false)]);
}

#[test]
fn subdivision_no_split() {
    let pieces = vec!['a'];
    let segs = offset_subdivision_segments(&pieces, 10, None, None, 40, true);
    assert_eq!(segs, vec![seg('a', 10, 40, true)]);
}

#[test]
fn subdivision_segments_chain() {
    let pieces = vec!['a', 'b', 'c', 'd'];
    let segs = offset_subdivision_segments(&pieces, 1, Some(2), Some(3), 4, true);
    assert_eq!(segs[0].start_offset_dist, 1);
    assert_eq!(segs[segs.len() - 1].end_offset_dist, 4);
    for i in 0..segs.len() - 1 {
        assert_eq!(segs[i].end_offset_dist, segs[i + 1].start_offset_dist);
        assert!(!segs[i + 1].move_start);
        assert_eq!(segs[i].curve, pieces[i]);
    }
}

fn quads() -> Vec<QuadBezier<P>> {
    vec![
        QuadBezier { start: (0, 0), cp: (1, 1), end: (2, 0) },
        QuadBezier { start: (2, 0), cp: (3, -1), end: (4, 0) },
        QuadBezier { start: (4, 0), cp: (5, 1), end: (6, 0) },
    ]
}

#[test]
fn chain_with_move() {
    let cmds: Vec<Cmd> = compose_quadbez_chain(&quads(), true);
    assert_eq!(
        cmds,
        vec![
            PathCommand::Move((0, 0)),
            PathCommand::QuadraticCurve((1, 1), (2, 0)),
            PathCommand::QuadraticCurve((3, -1), (4, 0)),
            PathCommand::QuadraticCurve((5, 1), (6, 0)),
        ]
    );
}

#[test]
fn chain_without_move_and_empty() {
    let cmds: Vec<Cmd> = compose_quadbez_chain(&quads(), false);
    assert_eq!(cmds.len(), 3);
    assert!(cmds.iter().all(|c| !matches!(c, PathCommand::Move(_))));
    let empty: Vec<Cmd> = compose_quadbez_chain(&Vec::new(), true);
    assert!(empty.is_empty());
}

#[test]
fn chain_in_two_parts() {
    let all = quads();
    let whole: Vec<Cmd> = compose_quadbez_chain(&all, true);
    let mut first: Vec<Cmd> = compose_quadbez_chain(&all[..1].to_vec(), true);
    let mut second: Vec<Cmd> = compose_quadbez_chain(&all[1..].to_vec(), false);
    first.append(&mut second);
    assert_eq!(whole, first);
}

fn count_moves(cmds: &[Cmd]) -> usize {
    cmds.iter().filter(|c| matches!(c, PathCommand::Move(_))).count()
}

#[test]
fn round_capped_outline() {
    let outline: Vec<Cmd> =
        compose_round_capped_outline(line(), 1, (4, 1), line().reversed(), 2, (0, 1), true);
    assert_eq!(
        outline,
        vec![
            PathCommand::Move((0, 0)),
            PathCommand::Line((4, 2)),
            PathCommand::EllipticalArc(1, 1, (4, 1)),
            PathCommand::Line((4, 1)),
            PathCommand::Line((0, 0)),
            PathCommand::EllipticalArc(2, 2, (0, 1)),
            PathCommand::Line((0, 1)),
        ]
    );
    assert_eq!(count_moves(&outline), 1);
    let unmoved: Vec<Cmd> =
        compose_round_capped_outline(line(), 1, (4, 1), line().reversed(), 2, (0, 1), false);
    assert_eq!(count_moves(&unmoved), 0);
    assert_eq!(&outline[1..], &unmoved[..]);
}

#[test]
fn line_joined_outline() {
    let forward = quads();
    let backward: Vec<QuadBezier<P>> = quads().iter().rev().map(|q| q.reversed()).collect();
    let outline: Vec<Cmd> = compose_line_joined_outline(&forward, (6, -1), &backward, (0, -1), true);
    assert_eq!(
        outline,
        vec![
            PathCommand::Move((0, 0)),
            PathCommand::QuadraticCurve((1, 1), (2, 0)),
            PathCommand::QuadraticCurve((3, -1), (4, 0)),
            PathCommand::QuadraticCurve((5, 1), (6, 0)),
            PathCommand::Line((6, -1)),
            PathCommand::QuadraticCurve((5, 1), (4, 0)),
            PathCommand::QuadraticCurve((3, -1), (2, 0)),
            PathCommand::QuadraticCurve((1, 1), (0, 0)),
            PathCommand::Line((0, -1)),
        ]
    );
    assert_eq!(count_moves(&outline), 1);
}

#[test]
fn chain_move_is_one_move_in_front() {
    let with: Vec<Cmd> = compose_quadbez_chain(&quads(), true);
    let without: Vec<Cmd> = compose_quadbez_chain(&quads(), false);
    assert_eq!(with[0], PathCommand::Move(quads()[0].start));
    assert_eq!(&with[1..], &without[..]);
    assert!(with
        .iter()
        .all(|c| matches!(c, PathCommand::Move(_) | PathCommand::QuadraticCurve(_, _))));
}

#[test]
fn halves_meet_in_the_middle() {
    let halves = offset_halves('a', 'b', 10, 25, 40, true);
    assert_eq!(halves, vec![seg('a', 10, 25, true), seg('b', 25, 40, false)]);
    let unmoved = offset_halves('a', 'b', 10, 25, 40, false);
    assert!(!unmoved[0].move_start && !unmoved[1].move_start);
}

#[test]
fn paint_present_and_absent() {
    assert_eq!(css_paint(Some(String::from("rgba(255,0,0,1)"))), "rgba(255,0,0,1)");
    assert_eq!(css_paint(None), "none");
}
