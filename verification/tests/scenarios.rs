use intersection_polygon::borders::is_consistent;
use intersection_polygon::geometry::{Angle, Hit, PolylineId, Pt};
use intersection_polygon::intersections::initial_intersection_polygon;
use intersection_polygon::network::{
    Diagnostic, Dimensions, Intersection, IntersectionId, Road, RoadId, Severity,
};
use intersection_polygon::resolution::Resolution;
use intersection_polygon::survey::{Answer, Query, Survey};

// A small measurer for the tests: polylines of floating-point points, a
// thousand units of length to the metre.

const UNITS: f64 = 1000.0;

type P = (f64, f64);

struct World {
    lines: Vec<Vec<P>>,
    asked: Vec<Query>,
}

fn units(x: f64) -> i64 {
    (x * UNITS).round() as i64
}

fn pt(p: P) -> Pt {
    Pt { x: units(p.0), y: units(p.1) }
}

fn unpt(p: Pt) -> P {
    (p.x as f64 / UNITS, p.y as f64 / UNITS)
}

fn dist(a: P, b: P) -> f64 {
    ((a.0 - b.0).powi(2) + (a.1 - b.1).powi(2)).sqrt()
}

fn degrees(a: P, b: P) -> f64 {
    let d = (b.1 - a.1).atan2(b.0 - a.0).to_degrees();
    if d < 0.0 {
        d + 360.0
    } else {
        d
    }
}

fn angle(degs: f64) -> Angle {
    Angle { millidegrees: ((degs * 1000.0).round() as i64).rem_euclid(360_000) as u32 }
}

fn length(line: &[P]) -> f64 {
    line.windows(2).map(|w| dist(w[0], w[1])).sum()
}

fn along(line: &[P], d: f64) -> Option<P> {
    if d < 0.0 || d > length(line) + 1e-9 {
        return None;
    }
    let mut left = d;
    for w in line.windows(2) {
        let l = dist(w[0], w[1]);
        if left <= l + 1e-9 {
            let t = if l == 0.0 { 0.0 } else { left / l };
            return Some((w[0].0 + t * (w[1].0 - w[0].0), w[0].1 + t * (w[1].1 - w[0].1)));
        }
        left -= l;
    }
    None
}

fn slice(line: &[P], start: f64, end: f64) -> Vec<P> {
    assert!(0.0 <= start && start < end && end <= length(line) + 1e-9);
    let mut out = vec![along(line, start).unwrap()];
    let mut walked = 0.0;
    for w in line.windows(2) {
        walked += dist(w[0], w[1]);
        if walked > start + 1e-9 && walked < end - 1e-9 {
            out.push(w[1]);
        }
    }
    out.push(along(line, end).unwrap());
    out
}

fn shift(line: &[P], width: f64) -> Vec<P> {
    let n = line.len();
    let mut out = Vec::new();
    for k in 0..n {
        let (a, b) = if k + 1 < n { (line[k], line[k + 1]) } else { (line[k - 1], line[k]) };
        let l = dist(a, b);
        let normal = (-(b.1 - a.1) / l, (b.0 - a.0) / l);
        out.push((line[k].0 + width * normal.0, line[k].1 + width * normal.1));
    }
    out
}

// Where the segment from a to b meets the line through p and q: within the
// segment always, within p..q only where `bounded`.
fn meet(a: P, b: P, p: P, q: P, bounded: bool) -> Option<P> {
    let r = (b.0 - a.0, b.1 - a.1);
    let s = (q.0 - p.0, q.1 - p.1);
    let cross = r.0 * s.1 - r.1 * s.0;
    if cross.abs() < 1e-12 {
        return None;
    }
    let t = ((p.0 - a.0) * s.1 - (p.1 - a.1) * s.0) / cross;
    let u = ((p.0 - a.0) * r.1 - (p.1 - a.1) * r.0) / cross;
    if t < -1e-9 || t > 1.0 + 1e-9 {
        return None;
    }
    if bounded && (u < -1e-9 || u > 1.0 + 1e-9) {
        return None;
    }
    Some((a.0 + t * r.0, a.1 + t * r.1))
}

fn crossing(one: &[P], other: &[P]) -> Option<(P, f64)> {
    for w in one.windows(2) {
        for v in other.windows(2) {
            if let Some(p) = meet(w[0], w[1], v[0], v[1], true) {
                return Some((p, degrees(w[0], w[1])));
            }
        }
    }
    None
}

fn meets_line(line: &[P], p: P, q: P) -> Option<P> {
    for w in line.windows(2) {
        if let Some(hit) = meet(w[0], w[1], p, q, false) {
            return Some(hit);
        }
    }
    None
}

fn trimmed_to(line: &[P], at: P) -> Vec<P> {
    let mut out = Vec::new();
    for w in line.windows(2) {
        out.push(w[0]);
        if (dist(w[0], at) + dist(at, w[1]) - dist(w[0], w[1])).abs() < 1e-2 {
            out.push(at);
            return out;
        }
    }
    panic!("the point is not on the polyline");
}

impl World {
    fn new() -> World {
        World { lines: Vec::new(), asked: Vec::new() }
    }

    fn add(&mut self, line: Vec<P>) -> PolylineId {
        self.lines.push(line);
        PolylineId(self.lines.len() - 1)
    }

    fn line(&self, id: PolylineId) -> Vec<P> {
        self.lines[id.0].clone()
    }

    fn answer(&mut self, q: Query) -> Answer {
        self.asked.push(q);
        match q {
            Query::Reversed { of } => {
                let mut l = self.line(of);
                l.reverse();
                Answer::Polyline(self.add(l))
            }
            Query::Shifted { of, width } => {
                let l = shift(&self.line(of), width as f64 / UNITS);
                Answer::Polyline(self.add(l))
            }
            Query::WithoutStart { of, by } => {
                let l = self.line(of);
                let cut = slice(&l, by as f64 / UNITS, length(&l));
                Answer::Polyline(self.add(cut))
            }
            Query::WithoutEnd { of, by } => {
                let l = self.line(of);
                let cut = slice(&l, 0.0, length(&l) - by as f64 / UNITS);
                Answer::Polyline(self.add(cut))
            }
            Query::TrimmedTo { of, at } => {
                let cut = trimmed_to(&self.line(of), unpt(at));
                Answer::Polyline(self.add(cut))
            }
            Query::LastPt { of } => Answer::Point(pt(*self.line(of).last().unwrap())),
            Query::DistAlong { of, dist } => {
                Answer::Point(pt(along(&self.line(of), dist as f64 / UNITS).unwrap()))
            }
            Query::SafeDistAlong { of, dist } => {
                Answer::MaybePoint(along(&self.line(of), dist as f64 / UNITS).map(pt))
            }
            Query::InfiniteHit { of, through, heading } => {
                let p = unpt(through);
                let rad = (heading.millidegrees as f64 / 1000.0).to_radians();
                let q = (p.0 + rad.cos(), p.1 + rad.sin());
                Answer::MaybePoint(meets_line(&self.line(of), p, q).map(pt))
            }
            Query::ExtensionHit { of, other } => {
                let o = self.line(other);
                let (p, q) = (o[o.len() - 2], o[o.len() - 1]);
                Answer::MaybePoint(meets_line(&self.line(of), p, q).map(pt))
            }
            Query::Length { of } => Answer::Length(units(length(&self.line(of))) as u64),
            Query::LastAngle { of } => {
                let l = self.line(of);
                Answer::Angle(angle(degrees(l[l.len() - 2], l[l.len() - 1])))
            }
            Query::Intersection { a, b } => Answer::MaybeHit(
                crossing(&self.line(a), &self.line(b)).map(|(p, d)| Hit { at: pt(p), angle: angle(d) }),
            ),
        }
    }
}

const DIMS: Dimensions = Dimensions { lane_thickness: 2_500, degenerate_half_length: 5_000 };

// Asks the builder again and again, each time with one more measurement.
fn build(world: &mut World, i: &Intersection, roads: &mut Vec<Road>) -> Resolution {
    assert!(is_consistent(i, roads));
    let mut survey = Survey::new();
    loop {
        let before = roads.clone();
        match initial_intersection_polygon(i, roads, &survey, &DIMS) {
            Ok(built) => return built,
            Err(q) => {
                assert_eq!(*roads, before);
                assert!(survey.answer(q).is_none());
                let a = world.answer(q);
                survey.record(q, a);
            }
        }
    }
}

fn road(world: &mut World, id: usize, src: usize, dst: usize, from: P, to: P, lanes: (u32, u32)) -> Road {
    Road {
        id: RoadId(id),
        src_i: IntersectionId(src),
        dst_i: IntersectionId(dst),
        center_pts: world.add(vec![from, to]),
        lanes_forward: lanes.0,
        lanes_backward: lanes.1,
    }
}

fn spoke(degs: f64, len: f64) -> P {
    (len * degs.to_radians().cos(), len * degs.to_radians().sin())
}

#[test]
fn dead_end_with_long_borders_has_four_corners() {
    let mut world = World::new();
    // The road runs east into the intersection at the origin.
    let mut roads = vec![road(&mut world, 0, 7, 3, (-50.0, 0.0), (0.0, 0.0), (1, 2))];
    let i = Intersection { id: IntersectionId(3), roads: vec![RoadId(0)] };
    let old_center = roads[0].center_pts;
    let built = build(&mut world, &i, &mut roads);
    assert_eq!(
        built.points,
        vec![
            Pt { x: -10_000, y: 2_500 },
            Pt { x: -10_000, y: -5_000 },
            Pt { x: 0, y: -5_000 },
            Pt { x: 0, y: 2_500 },
            Pt { x: -10_000, y: 2_500 },
        ]
    );
    assert!(built.notes.is_empty());
    assert_eq!(built.trims.len(), 1);
    assert_eq!(built.trims[0].road, RoadId(0));
    assert_eq!(roads[0].center_pts, built.trims[0].center_pts);
    assert_ne!(roads[0].center_pts, old_center);
    // The centerline is shorter by exactly twice the half-length, at its end.
    assert_eq!(world.line(roads[0].center_pts), vec![(-50.0, 0.0), (-10.0, 0.0)]);
    assert_eq!(units(length(&world.line(old_center)) - length(&world.line(roads[0].center_pts))), 10_000);
}

#[test]
fn dead_end_at_the_start_of_a_road_cuts_the_start() {
    let mut world = World::new();
    // The road leaves the intersection at the origin and runs east.
    let mut roads = vec![road(&mut world, 0, 3, 7, (0.0, 0.0), (50.0, 0.0), (1, 2))];
    let i = Intersection { id: IntersectionId(3), roads: vec![RoadId(0)] };
    let built = build(&mut world, &i, &mut roads);
    // Toward the intersection the road runs west: its normal side carries the
    // backward lanes and lies to the south.
    assert_eq!(
        built.points,
        vec![
            Pt { x: 10_000, y: -5_000 },
            Pt { x: 10_000, y: 2_500 },
            Pt { x: 0, y: 2_500 },
            Pt { x: 0, y: -5_000 },
            Pt { x: 10_000, y: -5_000 },
        ]
    );
    assert_eq!(world.line(roads[0].center_pts), vec![(10.0, 0.0), (50.0, 0.0)]);
    assert!(world.asked.contains(&Query::WithoutStart { of: PolylineId(0), by: 10_000 }));
}

#[test]
fn dead_end_with_short_borders_keeps_the_road() {
    let mut world = World::new();
    let mut roads = vec![road(&mut world, 0, 7, 3, (-8.0, 0.0), (0.0, 0.0), (1, 1))];
    let i = Intersection { id: IntersectionId(3), roads: vec![RoadId(0)] };
    let before = roads.clone();
    let built = build(&mut world, &i, &mut roads);
    assert_eq!(
        built.points,
        vec![Pt { x: 0, y: 2_500 }, Pt { x: 0, y: -2_500 }, Pt { x: 0, y: 2_500 }]
    );
    assert!(built.trims.is_empty());
    assert_eq!(roads, before);
    assert_eq!(
        built.notes,
        vec![Diagnostic::DeadEndTooShort { intersection: IntersectionId(3), road: RoadId(0) }]
    );
    assert_eq!(built.notes[0].severity(), Severity::Warning);
}

#[test]
fn dead_end_without_lanes_has_no_width() {
    let mut world = World::new();
    let mut roads = vec![road(&mut world, 0, 7, 3, (-50.0, 0.0), (0.0, 0.0), (0, 0))];
    let i = Intersection { id: IntersectionId(3), roads: vec![RoadId(0)] };
    let built = build(&mut world, &i, &mut roads);
    assert_eq!(roads[0].widths_toward(i.id, &DIMS), (0, 0));
    // Both borders lie on the centerline: the ring is closed, but holds only
    // two different points.
    assert_eq!(
        built.points,
        vec![
            Pt { x: -10_000, y: 0 },
            Pt { x: -10_000, y: 0 },
            Pt { x: 0, y: 0 },
            Pt { x: 0, y: 0 },
            Pt { x: -10_000, y: 0 },
        ]
    );
}

#[test]
fn two_roads_with_long_borders_are_both_cut_by_the_half_length() {
    let mut world = World::new();
    // A through road: one part comes from the west, the other leaves east.
    let mut roads = vec![
        road(&mut world, 0, 8, 3, (-50.0, 0.0), (0.0, 0.0), (1, 1)),
        road(&mut world, 1, 3, 9, (0.0, 0.0), (40.0, 0.0), (1, 1)),
    ];
    let i = Intersection { id: IntersectionId(3), roads: vec![RoadId(0), RoadId(1)] };
    let built = build(&mut world, &i, &mut roads);
    assert_eq!(
        built.points,
        vec![
            Pt { x: -5_000, y: 2_500 },
            Pt { x: 5_000, y: 2_500 },
            Pt { x: 5_000, y: -2_500 },
            Pt { x: -5_000, y: -2_500 },
            Pt { x: -5_000, y: 2_500 },
        ]
    );
    assert!(built.notes.is_empty());
    assert_eq!(built.trims.len(), 2);
    assert_eq!(world.line(roads[0].center_pts), vec![(-50.0, 0.0), (-5.0, 0.0)]);
    assert_eq!(world.line(roads[1].center_pts), vec![(5.0, 0.0), (40.0, 0.0)]);
}

#[test]
fn two_roads_without_width_give_two_points() {
    let mut world = World::new();
    let mut roads = vec![
        road(&mut world, 0, 8, 3, (-50.0, 0.0), (0.0, 0.0), (0, 0)),
        road(&mut world, 1, 3, 9, (0.0, 0.0), (40.0, 0.0), (0, 0)),
    ];
    let i = Intersection { id: IntersectionId(3), roads: vec![RoadId(0), RoadId(1)] };
    let built = build(&mut world, &i, &mut roads);
    // Of the four points walked to, neighbours that are equal are kept once.
    assert_eq!(
        built.points,
        vec![Pt { x: -5_000, y: 0 }, Pt { x: 5_000, y: 0 }, Pt { x: -5_000, y: 0 }, Pt { x: -5_000, y: 0 }]
    );
}

#[test]
fn two_roads_with_a_short_border_keep_their_length() {
    let mut world = World::new();
    let mut roads = vec![
        road(&mut world, 0, 8, 3, (-50.0, 0.0), (0.0, 0.0), (1, 1)),
        road(&mut world, 1, 3, 9, (0.0, 0.0), (0.0, 4.0), (1, 1)),
    ];
    let i = Intersection { id: IntersectionId(3), roads: vec![RoadId(0), RoadId(1)] };
    let before = roads.clone();
    let built = build(&mut world, &i, &mut roads);
    // In angular order the road from the west (0 degrees) comes before the
    // road that runs in from the north side (270 degrees).
    assert_eq!(
        built.points,
        vec![
            Pt { x: 0, y: 2_500 },
            Pt { x: 0, y: -2_500 },
            Pt { x: 2_500, y: 0 },
            Pt { x: -2_500, y: 0 },
            Pt { x: 0, y: 2_500 },
        ]
    );
    assert_eq!(roads, before);
    assert_eq!(
        built.notes,
        vec![Diagnostic::PairTooShort {
            intersection: IntersectionId(3),
            first: RoadId(0),
            second: RoadId(1),
        }]
    );
    assert_eq!(built.notes[0].severity(), Severity::Warning);
}

#[test]
fn three_roads_at_120_degrees() {
    let mut world = World::new();
    let i = Intersection { id: IntersectionId(0), roads: vec![RoadId(0), RoadId(1), RoadId(2)] };
    // Each road runs from 60 metres out into the origin.
    let mut roads = vec![
        road(&mut world, 0, 1, 0, spoke(180.0, 60.0), (0.0, 0.0), (1, 1)),
        road(&mut world, 1, 2, 0, spoke(300.0, 60.0), (0.0, 0.0), (1, 1)),
        road(&mut world, 2, 3, 0, spoke(60.0, 60.0), (0.0, 0.0), (1, 1)),
    ];
    let old: Vec<f64> = roads.iter().map(|r| length(&world.line(r.center_pts))).collect();
    let built = build(&mut world, &i, &mut roads);
    assert!(built.notes.is_empty());

    // Every road has a forward and a backward corner.
    let crossings: Vec<&Query> =
        world.asked.iter().filter(|q| matches!(q, Query::Intersection { .. })).collect();
    assert_eq!(crossings.len(), 6);
    for q in crossings {
        let mut probe = World { lines: world.lines.clone(), asked: Vec::new() };
        assert!(matches!(probe.answer(*q), Answer::MaybeHit(Some(_))));
    }

    // Every road is cut back by the same amount: the corner lies
    // 2.5 / tan(60 degrees) back from the meeting point.
    assert_eq!(built.trims.len(), 3);
    for (k, r) in roads.iter().enumerate() {
        let cut = old[k] - length(&world.line(r.center_pts));
        assert!(cut.is_finite() && cut > 0.0);
        assert!((cut - 2.5 / 60f64.to_radians().tan()).abs() < 0.002);
    }

    // The ring is closed; its corners are the three points at which the
    // borders of neighbours cross.
    assert_eq!(built.points.first(), built.points.last());
    let mut corners: Vec<Pt> = Vec::new();
    for p in &built.points {
        if !corners.contains(p) {
            corners.push(*p);
        }
    }
    assert!(built.points.len() - 1 <= 6);
    assert_eq!(corners.len(), 3);
    // Turned by 120 degrees the corners are the same three points.
    for c in &corners {
        let (x, y) = unpt(*c);
        let (cos, sin) = (120f64.to_radians().cos(), 120f64.to_radians().sin());
        let turned = (x * cos - y * sin, x * sin + y * cos);
        assert!(corners.iter().any(|d| dist(unpt(*d), turned) < 0.002));
        assert!((dist((0.0, 0.0), (x, y)) - 2.5 / 60f64.to_radians().sin()).abs() < 0.002);
    }
}

#[test]
fn a_side_road_meets_a_through_road() {
    let mut world = World::new();
    let i = Intersection { id: IntersectionId(0), roads: vec![RoadId(0), RoadId(1), RoadId(2)] };
    // The through road comes from the west and leaves to the east; the
    // side road comes up from the south.
    let mut roads = vec![
        road(&mut world, 0, 1, 0, (-40.0, 0.0), (0.0, 0.0), (1, 1)),
        road(&mut world, 1, 0, 2, (0.0, 0.0), (40.0, 0.0), (1, 1)),
        road(&mut world, 2, 3, 0, (0.0, -40.0), (0.0, 0.0), (1, 1)),
    ];
    let built = build(&mut world, &i, &mut roads);
    assert!(built.notes.is_empty());
    // On the far side the borders of the through road lie in one line and
    // do not cross: each part of it has one corner only, with the side road.
    assert_eq!(
        built.points,
        vec![
            Pt { x: -2_500, y: 2_500 },
            Pt { x: -2_500, y: -2_500 },
            Pt { x: 2_500, y: -2_500 },
            Pt { x: 2_500, y: 2_500 },
            Pt { x: -2_500, y: 2_500 },
        ]
    );
    // Every road is cut back by the half width of the road it meets.
    assert_eq!(built.trims.len(), 3);
    assert_eq!(world.line(roads[0].center_pts), vec![(-40.0, 0.0), (-2.5, 0.0)]);
    assert_eq!(world.line(roads[1].center_pts), vec![(2.5, 0.0), (40.0, 0.0)]);
    assert_eq!(world.line(roads[2].center_pts), vec![(0.0, -40.0), (0.0, -2.5)]);
}

#[test]
fn four_roads_of_different_width_cross() {
    let mut world = World::new();
    let i = Intersection {
        id: IntersectionId(0),
        roads: vec![RoadId(3), RoadId(1), RoadId(0), RoadId(2)],
    };
    // A wide road from west to east crosses a narrow one from south to north.
    let mut roads = vec![
        road(&mut world, 0, 1, 0, (-40.0, 0.0), (0.0, 0.0), (2, 2)),
        road(&mut world, 1, 0, 2, (0.0, 0.0), (40.0, 0.0), (2, 2)),
        road(&mut world, 2, 3, 0, (0.0, -40.0), (0.0, 0.0), (1, 1)),
        road(&mut world, 3, 0, 4, (0.0, 0.0), (0.0, 40.0), (1, 1)),
    ];
    let built = build(&mut world, &i, &mut roads);
    assert!(built.notes.is_empty());
    assert_eq!(built.points.first(), built.points.last());
    let mut corners: Vec<Pt> = Vec::new();
    for p in &built.points {
        if !corners.contains(p) {
            corners.push(*p);
        }
    }
    corners.sort_by_key(|p| (p.x, p.y));
    assert_eq!(
        corners,
        vec![
            Pt { x: -2_500, y: -5_000 },
            Pt { x: -2_500, y: 5_000 },
            Pt { x: 2_500, y: -5_000 },
            Pt { x: 2_500, y: 5_000 },
        ]
    );
    // In angular order: the road from the west (0 degrees), the road from
    // the south (90), the road to the east (180), the road to the north (270).
    let order: Vec<usize> = built.trims.iter().map(|t| t.road.0).collect();
    assert_eq!(order, vec![0, 2, 1, 3]);
    assert_eq!(world.line(roads[0].center_pts), vec![(-40.0, 0.0), (-2.5, 0.0)]);
    assert_eq!(world.line(roads[1].center_pts), vec![(2.5, 0.0), (40.0, 0.0)]);
    assert_eq!(world.line(roads[2].center_pts), vec![(0.0, -40.0), (0.0, -5.0)]);
    assert_eq!(world.line(roads[3].center_pts), vec![(0.0, 5.0), (0.0, 40.0)]);
}

// A measurer that follows a script. It names each polyline after the one it
// was made from: a digit is added for turning round (1), moving sideways (2)
// or cutting (3). The road with centerline c then has the normal border
// c2 and the reverse border c121.
fn scripted(q: Query, road_angles: &[u32], crossing: Option<(usize, usize)>, misses: &[usize]) -> Answer {
    let leading = |id: usize| id.to_string()[..1].parse::<usize>().unwrap();
    match q {
        Query::Reversed { of } => Answer::Polyline(PolylineId(of.0 * 10 + 1)),
        Query::Shifted { of, .. } => Answer::Polyline(PolylineId(of.0 * 10 + 2)),
        Query::WithoutStart { of, .. } | Query::WithoutEnd { of, .. } | Query::TrimmedTo { of, .. } => {
            Answer::Polyline(PolylineId(of.0 * 10 + 3))
        }
        Query::LastPt { of } => Answer::Point(Pt { x: of.0 as i64, y: -1 }),
        Query::DistAlong { of, .. } => Answer::Point(Pt { x: of.0 as i64, y: -2 }),
        Query::SafeDistAlong { .. } => Answer::MaybePoint(None),
        Query::InfiniteHit { .. } => Answer::MaybePoint(None),
        Query::ExtensionHit { of, other } => {
            if misses.contains(&of.0) {
                Answer::MaybePoint(None)
            } else {
                Answer::MaybePoint(Some(Pt { x: of.0 as i64, y: other.0 as i64 }))
            }
        }
        Query::Length { .. } => Answer::Length(100_000),
        Query::LastAngle { of } => Answer::Angle(Angle { millidegrees: road_angles[leading(of.0) - 1] }),
        Query::Intersection { a, b } => {
            if crossing == Some((a.0, b.0)) {
                Answer::MaybeHit(Some(Hit { at: Pt { x: a.0 as i64, y: b.0 as i64 }, angle: Angle { millidegrees: 0 } }))
            } else {
                Answer::MaybeHit(None)
            }
        }
    }
}

#[test]
fn nearly_parallel_roads_fall_back_to_pairs() {
    // Road 0 runs in at 0 degrees, road 1 at 90 degrees, road 2 at 190
    // degrees: seen from the intersection, roads 2 and 0 lie nearly in one
    // line. Their centerlines are the polylines 1, 2 and 3.
    let mut roads: Vec<Road> = (0..3)
        .map(|k| Road {
            id: RoadId(k),
            src_i: IntersectionId(10 + k),
            dst_i: IntersectionId(5),
            center_pts: PolylineId(k + 1),
            lanes_forward: 1,
            lanes_backward: 1,
        })
        .collect();
    let i = Intersection { id: IntersectionId(5), roads: vec![RoadId(0), RoadId(1), RoadId(2)] };
    assert!(is_consistent(&i, &roads));
    let before = roads.clone();
    let road_angles = [0, 90_000, 190_000];
    // Only the reverse border of road 1 and the normal border of road 2
    // cross; the normal border of road 0 misses the line it is met with.
    let crossing = Some((2121, 32));
    let misses = [12];
    let mut survey = Survey::new();
    let mut asked: Vec<Query> = Vec::new();
    let built = loop {
        match initial_intersection_polygon(&i, &mut roads, &survey, &DIMS) {
            Ok(built) => break built,
            Err(q) => {
                assert!(!asked.contains(&q));
                asked.push(q);
                survey.record(q, scripted(q, &road_angles, crossing, &misses));
            }
        }
    };
    // Road 0 has no corner, so the pass over the corners gives up with no
    // road cut back, and the outline is made pair by pair.
    assert!(built.trims.is_empty());
    assert_eq!(roads, before);
    assert_eq!(
        built.points,
        vec![
            // Roads 0 and 1 do not cross: each border is met with the line
            // of the road beyond.
            Pt { x: 1121, y: 3121 },
            Pt { x: 22, y: 32 },
            // Roads 1 and 2 cross.
            Pt { x: 2121, y: 32 },
            // Roads 2 and 0 are too close in direction to be crossed.
            Pt { x: 3121, y: 2121 },
            Pt { x: 12, y: -1 },
            Pt { x: 1121, y: 3121 },
        ]
    );
    assert!(!asked.contains(&Query::Intersection { a: PolylineId(3121), b: PolylineId(12) }));
    assert!(asked.contains(&Query::Intersection { a: PolylineId(1121), b: PolylineId(22) }));
    assert_eq!(
        built.notes,
        vec![
            Diagnostic::CornersUnsolved { intersection: IntersectionId(5), degree: 3 },
            Diagnostic::NoCorner {
                intersection: IntersectionId(5),
                first: RoadId(2),
                second: RoadId(0),
                degree: 3,
            },
        ]
    );
    assert_eq!(built.notes[0].severity(), Severity::Note);
    assert_eq!(built.notes[1].severity(), Severity::Warning);
}

#[test]
fn a_pass_that_gives_up_cuts_no_road() {
    // As above, but the normal border of road 0 crosses the border that
    // faces it, and the perpendicular from there meets the centerline of
    // road 0: road 0 has a corner. Road 1 has none, so the pass gives up,
    // and road 0 is not cut back either.
    let mut roads: Vec<Road> = (0..3)
        .map(|k| Road {
            id: RoadId(k),
            src_i: IntersectionId(10 + k),
            dst_i: IntersectionId(5),
            center_pts: PolylineId(k + 1),
            lanes_forward: 1,
            lanes_backward: 1,
        })
        .collect();
    let i = Intersection { id: IntersectionId(5), roads: vec![RoadId(0), RoadId(1), RoadId(2)] };
    let road_angles = [0, 90_000, 190_000];
    let mut survey = Survey::new();
    let mut cut_of_road_0 = false;
    let built = loop {
        match initial_intersection_polygon(&i, &mut roads, &survey, &DIMS) {
            Ok(built) => break built,
            Err(q) => {
                cut_of_road_0 |= q == Query::TrimmedTo { of: PolylineId(1), at: Pt { x: 7, y: 7 } };
                let a = match q {
                    Query::InfiniteHit { of: PolylineId(1), through, heading } => {
                        assert_eq!(through, Pt { x: 12, y: 3121 });
                        assert_eq!(heading, Angle { millidegrees: 135_000 });
                        Answer::MaybePoint(Some(Pt { x: 7, y: 7 }))
                    }
                    Query::Intersection { a: PolylineId(12), b: PolylineId(3121) } => {
                        Answer::MaybeHit(Some(Hit {
                            at: Pt { x: 12, y: 3121 },
                            angle: Angle { millidegrees: 45_000 },
                        }))
                    }
                    _ => scripted(q, &road_angles, None, &[]),
                };
                survey.record(q, a);
            }
        }
    };
    assert!(built.trims.is_empty());
    assert_eq!(roads[0].center_pts, PolylineId(1));
    assert_eq!(roads[1].center_pts, PolylineId(2));
    assert_eq!(roads[2].center_pts, PolylineId(3));
    assert!(cut_of_road_0);
    assert_eq!(
        built.notes[0],
        Diagnostic::CornersUnsolved { intersection: IntersectionId(5), degree: 3 }
    );
    assert_eq!(built.points.first(), built.points.last());
}

#[test]
fn more_measurements_change_nothing() {
    let roads: Vec<Road> = (0..4)
        .map(|k| Road {
            id: RoadId(k),
            src_i: IntersectionId(5),
            dst_i: IntersectionId(10 + k),
            center_pts: PolylineId(k + 1),
            lanes_forward: 2,
            lanes_backward: 0,
        })
        .collect();
    let i = Intersection {
        id: IntersectionId(5),
        roads: vec![RoadId(2), RoadId(0), RoadId(3), RoadId(1)],
    };
    let road_angles = [300_000, 20_000, 100_000, 200_000];
    let mut survey = Survey::new();
    let mut first_roads = roads.clone();
    let mut questions = 0;
    let first = loop {
        match initial_intersection_polygon(&i, &mut first_roads, &survey, &DIMS) {
            Ok(built) => break built,
            Err(q) => {
                questions += 1;
                survey.record(q, scripted(q, &road_angles, Some((42121, 112)), &[]));
            }
        }
    };
    assert!(questions > 20);
    // The same survey gives the same again.
    let mut again_roads = roads.clone();
    assert_eq!(initial_intersection_polygon(&i, &mut again_roads, &survey, &DIMS), Ok(first.clone()));
    assert_eq!(again_roads, first_roads);
    // So does a survey that holds other measurements besides.
    survey.record(Query::Length { of: PolylineId(77) }, Answer::Length(1));
    survey.record(Query::LastPt { of: PolylineId(78) }, Answer::Point(Pt { x: 1, y: 1 }));
    survey.record(
        Query::Intersection { a: PolylineId(78), b: PolylineId(77) },
        Answer::MaybeHit(None),
    );
    let mut more_roads = roads.clone();
    assert_eq!(initial_intersection_polygon(&i, &mut more_roads, &survey, &DIMS), Ok(first));
    assert_eq!(more_roads, first_roads);
}

// A measurer that answers at random, but the same question always in the
// same way.
fn random_answer(q: Query, seed: u64, next: &mut usize) -> Answer {
    let mut h: u64 = seed ^ 0x9e37_79b9_7f4a_7c15;
    for b in format!("{:?}", q).bytes() {
        h = (h ^ u64::from(b)).wrapping_mul(0x0000_0100_0000_01b3);
    }
    let roll = (h >> 17) % 100;
    let some_pt = Pt { x: (h % 7) as i64 - 3, y: ((h >> 8) % 5) as i64 - 2 };
    match q {
        Query::Reversed { .. }
        | Query::Shifted { .. }
        | Query::WithoutStart { .. }
        | Query::WithoutEnd { .. }
        | Query::TrimmedTo { .. } => {
            *next += 1;
            Answer::Polyline(PolylineId(*next))
        }
        Query::LastPt { .. } | Query::DistAlong { .. } => Answer::Point(some_pt),
        Query::SafeDistAlong { .. } | Query::InfiniteHit { .. } | Query::ExtensionHit { .. } => {
            Answer::MaybePoint(if roll < 70 { Some(some_pt) } else { None })
        }
        Query::Length { .. } => Answer::Length(h % 12_000),
        Query::LastAngle { .. } => Answer::Angle(Angle { millidegrees: (h % 360_000) as u32 }),
        Query::Intersection { .. } => Answer::MaybeHit(if roll < 60 {
            Some(Hit { at: some_pt, angle: Angle { millidegrees: (h % 360_000) as u32 } })
        } else {
            None
        }),
    }
}

#[test]
fn whatever_is_measured_the_ring_is_closed() {
    let mut kinds = [0usize; 4];
    for seed in 0..400u64 {
        let degree = 1 + (seed % 6) as usize;
        let roads: Vec<Road> = (0..degree + 2)
            .map(|k| Road {
                id: RoadId(k),
                src_i: IntersectionId(if (seed >> k) & 1 == 0 { 5 } else { 10 + k }),
                dst_i: IntersectionId(if (seed >> k) & 1 == 0 { 10 + k } else { 5 }),
                center_pts: PolylineId(k + 1),
                lanes_forward: (seed % 3) as u32,
                lanes_backward: ((seed + k as u64) % 4) as u32,
            })
            .collect();
        let i = Intersection {
            id: IntersectionId(5),
            roads: (0..degree).rev().map(RoadId).collect(),
        };
        assert!(is_consistent(&i, &roads));
        let mut survey = Survey::new();
        let mut next = 1000;
        let mut cut = roads.clone();
        let mut questions = 0;
        let built = loop {
            match initial_intersection_polygon(&i, &mut cut, &survey, &DIMS) {
                Ok(built) => break built,
                Err(q) => {
                    assert!(!survey.knows(q));
                    assert_eq!(cut, roads);
                    // The questions come to an end: there are no more than
                    // twenty-eight for each road.
                    questions += 1;
                    assert!(questions <= 28 * degree);
                    survey.record(q, random_answer(q, seed, &mut next));
                }
            }
        };
        // A closed ring, of no more than four points for each road.
        assert!(built.points.len() >= 2);
        assert_eq!(built.points.first(), built.points.last());
        assert!(built.points.len() - 1 <= 4 * degree);
        if degree <= 2 {
            assert!(built.points.len() - 1 <= 4);
        }
        // Only roads of the intersection are cut, and only their centerlines.
        for t in &built.trims {
            assert!(i.roads.contains(&t.road));
        }
        for (k, r) in cut.iter().enumerate() {
            let last = built.trims.iter().rev().find(|t| t.road.0 == k);
            let center_pts = last.map(|t| t.center_pts).unwrap_or(roads[k].center_pts);
            assert_eq!(*r, Road { center_pts, ..roads[k] });
        }
        // Either every road is cut and nothing is reported, or no road is
        // cut and the report says why.
        if built.notes.is_empty() {
            assert_eq!(built.trims.len(), degree);
            kinds[0] += 1;
        } else {
            assert!(built.trims.is_empty());
            match built.notes[0] {
                Diagnostic::DeadEndTooShort { road, .. } => {
                    assert_eq!((degree, road), (1, i.roads[0]));
                    assert_eq!(built.points.len(), 3);
                    kinds[1] += 1;
                }
                Diagnostic::PairTooShort { .. } => {
                    assert_eq!(degree, 2);
                    assert_eq!(built.points.len(), 5);
                    kinds[2] += 1;
                }
                Diagnostic::CornersUnsolved { degree: d, .. } => {
                    assert!(degree >= 3 && d == degree);
                    assert!(degree <= built.points.len() - 1 && built.points.len() - 1 <= 2 * degree);
                    assert!(built.notes.len() <= 1 + degree);
                    assert!(built.notes[1..].iter().all(|d| matches!(d, Diagnostic::NoCorner { .. })));
                    kinds[3] += 1;
                }
                other => panic!("{:?} is not a report of the builder", other),
            }
        }
        // The same survey gives the same again.
        let mut again = roads.clone();
        assert_eq!(initial_intersection_polygon(&i, &mut again, &survey, &DIMS), Ok(built));
        assert_eq!(again, cut);
    }
    // Every way of building was taken.
    assert!(kinds.iter().all(|n| *n > 0), "{:?}", kinds);
}
