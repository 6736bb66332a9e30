use blood_geometry::bentley_ottman::algorithm::edge::{x_for_y, BoEdge, Edges, PartialTrapezoid};
use blood_geometry::bentley_ottman::algorithm::intersection_event;
use blood_geometry::bentley_ottman::algorithm::linked_list::LinkedList;
use blood_geometry::bentley_ottman::algorithm::priority_queue::PriorityQueue;
use blood_geometry::bentley_ottman::algorithm::sweep_line::{approx_cmp, SweepLine};
use blood_geometry::bentley_ottman::algorithm::Algorithm;
use blood_geometry::bentley_ottman::{
    bentley_ottmann, bentley_ottmann_events, event, trapezoids, Event, EventType,
};
use blood_geometry::line::{Line, LineSegment, NhLineSegment};
use blood_geometry::point::Vector;
use blood_geometry::trapezoid::Trapezoid;
use std::cmp::Ordering;
use blood_geometry::num::sat_int::SatInt;
use blood_geometry::num::{One, Real, Zero};
use blood_geometry::point::Point;
use blood_geometry::{ApproxEq, FillRule};
use std::ops::{Add, Div, Mul, Neg, Sub};

/// A single-precision scalar for the sweep.
#[derive(Clone, Copy, Debug, PartialEq, PartialOrd)]
struct F(f32);

impl Add for F {
    type Output = F;
    fn add(self, rhs: F) -> F {
        F(self.0 + rhs.0)
    }
}

impl Sub for F {
    type Output = F;
    fn sub(self, rhs: F) -> F {
        F(self.0 - rhs.0)
    }
}

impl Mul for F {
    type Output = F;
    fn mul(self, rhs: F) -> F {
        F(self.0 * rhs.0)
    }
}

impl Div for F {
    type Output = F;
    fn div(self, rhs: F) -> F {
        F(self.0 / rhs.0)
    }
}

impl Neg for F {
    type Output = F;
    fn neg(self) -> F {
        F(-self.0)
    }
}

impl Zero for F {
    fn zero_spec() -> F {
        F(0.0)
    }
    fn zero() -> F {
        F(0.0)
    }
}

impl One for F {
    fn one_spec() -> F {
        F(1.0)
    }
    fn one() -> F {
        F(1.0)
    }
}

impl ApproxEq for F {
    fn approx_eq_spec(&self, other: &F) -> bool {
        (self.0 - other.0).abs() < f32::EPSILON
    }
    fn approx_eq(&self, other: &F) -> bool {
        (self.0 - other.0).abs() < f32::EPSILON
    }
}

impl Real for F {
    fn epsilon_spec() -> F {
        F(f32::EPSILON)
    }
    fn min_value_spec() -> F {
        F(f32::MIN)
    }
    fn max_value_spec() -> F {
        F(f32::MAX)
    }
    fn abs_spec(self) -> F {
        F(self.0.abs())
    }
    fn sqrt_spec(self) -> F {
        F(self.0.sqrt())
    }
    fn epsilon() -> F {
        F(f32::EPSILON)
    }
    fn min_value() -> F {
        F(f32::MIN)
    }
    fn max_value() -> F {
        F(f32::MAX)
    }
    fn abs(self) -> F {
        F(self.0.abs())
    }
    fn sqrt(self) -> F {
        F(self.0.sqrt())
    }
    fn lemma_laws() {}
}

fn pt(x: f32, y: f32) -> Point<F> {
    Point::new(F(x), F(y))
}

fn seg(x1: f32, y1: f32, x2: f32, y2: f32) -> LineSegment<F> {
    LineSegment::new(pt(x1, y1), pt(x2, y2))
}

fn testing_edges() -> Vec<BoEdge<F>> {
    vec![
        BoEdge::from_points(pt(1.0, 0.0), pt(1.0, 1.0), 1),
        BoEdge::from_points(pt(2.0, 0.0), pt(1.0, 1.0), 2),
        BoEdge::from_points(pt(3.0, 1.0), pt(0.0, 2.0), 3),
        BoEdge::from_points(pt(4.0, 1.0), pt(0.0, 2.0), 4),
    ]
}

fn assert_ids_eq(left: Option<usize>, right: Option<&BoEdge<F>>) {
    assert_eq!(left, right.map(|r| r.id()))
}

#[test]
fn linked_list() {
    let mut edges: Edges<F> = Edges::from_vec(testing_edges());
    let mut linked_list = LinkedList::default();

    // push to the linked list
    for edge in edges.ids() {
        linked_list.push(edge, &mut edges);
    }

    let mut iter = linked_list.iter(&edges).into_iter();
    assert_ids_eq(iter.next(), Some(edges.get(1)));
    assert_ids_eq(iter.next(), Some(edges.get(2)));
    assert_ids_eq(iter.next(), Some(edges.get(3)));
    assert_ids_eq(iter.next(), Some(edges.get(4)));
    assert_ids_eq(iter.next(), None);
}

#[test]
fn sorted_linked_list() {
    let mut edges: Edges<F> = Edges::from_vec(testing_edges());
    let mut linked_list = LinkedList::default();

    // push to the linked list, but sort in reverse by the first X
    // coordinate of the edge's start point
    for edge in edges.ids() {
        linked_list.insert(edge, &mut edges, |edge: &BoEdge<F>, next: &BoEdge<F>| {
            edge.lowest_y().x() >= next.lowest_y().x()
        });
    }

    let mut iter = linked_list.iter(&edges).into_iter();
    assert_ids_eq(iter.next(), Some(edges.get(4)));
    assert_ids_eq(iter.next(), Some(edges.get(3)));
    assert_ids_eq(iter.next(), Some(edges.get(2)));
    assert_ids_eq(iter.next(), Some(edges.get(1)));
    assert_ids_eq(iter.next(), None);

    // remove the element with id 3 from the list
    linked_list.remove(3, &mut edges);

    let mut iter = linked_list.iter(&edges).into_iter();
    assert_ids_eq(iter.next(), Some(edges.get(4)));
    assert_ids_eq(iter.next(), Some(edges.get(2)));
    assert_ids_eq(iter.next(), Some(edges.get(1)));
    assert_ids_eq(iter.next(), None);

    // swap the elements at indices 4 and 2
    linked_list.swap(4, &mut edges);

    let mut iter = linked_list.iter(&edges).into_iter();
    assert_ids_eq(iter.next(), Some(edges.get(2)));
    assert_ids_eq(iter.next(), Some(edges.get(4)));
    assert_ids_eq(iter.next(), Some(edges.get(1)));

    // swap the elements at indices 4 and 1
    linked_list.swap(4, &mut edges);
    let mut iter = linked_list.iter(&edges).into_iter();
    assert_ids_eq(iter.next(), Some(edges.get(2)));
    assert_ids_eq(iter.next(), Some(edges.get(1)));
    assert_ids_eq(iter.next(), Some(edges.get(4)));
    assert_ids_eq(iter.next(), None);

    // remove the elements at indices 2 and 4
    linked_list.remove(2, &mut edges);
    linked_list.remove(4, &mut edges);
    let mut iter = linked_list.iter(&edges).into_iter();
    assert_ids_eq(iter.next(), Some(edges.get(1)));
    assert_ids_eq(iter.next(), None);
}

fn intersections_of(segments: Vec<LineSegment<F>>) -> Vec<(f32, f32)> {
    let mut sweep = bentley_ottmann(segments);
    let mut out = Vec::new();
    while let Some(p) = sweep.next() {
        out.push((p.x().0, p.y().0));
    }
    out
}

fn events_of(segments: Vec<LineSegment<F>>) -> Vec<(EventType, usize, f32, f32)> {
    let mut sweep = bentley_ottmann_events(segments);
    let mut out = Vec::new();
    while let Some(ev) = sweep.next() {
        out.push((ev.event_type, ev.edge_id, ev.point.x().0, ev.point.y().0));
    }
    out
}

fn trapezoids_of(segments: Vec<LineSegment<F>>) -> Vec<Trapezoid<F>> {
    let mut sweep = trapezoids(segments, FillRule::Winding);
    let mut out = Vec::new();
    while let Some(t) = sweep.next() {
        out.push(t);
    }
    out
}

fn line(ox: f32, oy: f32, dx: f32, dy: f32) -> Line<F> {
    Line::new(pt(ox, oy), Vector::new(F(dx), F(dy)))
}

fn assert_line(actual: Line<F>, ox: f32, oy: f32, dx: f32, dy: f32) {
    assert_eq!(actual.origin(), pt(ox, oy));
    assert_eq!(actual.direction().x(), F(dx));
    assert_eq!(actual.direction().y(), F(dy));
}

#[test]
fn test_approx_eq() {
    assert!(F(0.0).approx_eq(&F(0.0)));
    assert!(F(1.0).approx_eq(&F(1.0)));
    assert!(!F(0.0).approx_eq(&F(1.0)));
}

#[test]
fn test_x_for_y() {
    let line = line(0.0, 0.0, 1.0, 2.0);

    assert_eq!(x_for_y(&line, F(0.0)), F(0.0));
    assert_eq!(x_for_y(&line, F(2.0)), F(1.0));
    assert_eq!(x_for_y(&line, F(4.0)), F(2.0));
    assert_eq!(x_for_y(&line, F(0.5)), F(0.25));
}

#[test]
fn test_points_of_edge() {
    let edge = NhLineSegment::from_line_and_y(line(0.0, 0.0, 1.0, 2.0), F(0.0), F(2.0)).unwrap();

    let (p1, p2) = edge.points();
    assert_eq!(p1.x(), F(0.0));
    assert_eq!(p1.y(), F(0.0));
    assert_eq!(p2.x(), F(1.0));
    assert_eq!(p2.y(), F(2.0));
}

#[test]
fn test_collinear() {
    let edge = |l: Line<F>, id: usize| {
        BoEdge::from_edge(NhLineSegment::from_line_and_y(l, F(0.0), F(2.0)).unwrap(), id)
    };
    let base = edge(line(0.0, 0.0, 1.0, 2.0), 1);
    let collinear = edge(line(-1.0, -2.0, 3.0, 6.0), 2);
    let not_collinear = edge(line(-1.0, -1.9, 3.0, 6.0), 3);
    assert!(base.colinear(&collinear));
    assert!(!base.colinear(&not_collinear));
}

#[test]
fn crossing_diagonals_meet_once() {
    let found = intersections_of(vec![seg(0.0, 0.0, 10.0, 10.0), seg(0.0, 10.0, 10.0, 0.0)]);
    assert_eq!(found, vec![(5.0, 5.0)]);
}

#[test]
fn crossing_diagonals_events_in_order() {
    let found = events_of(vec![seg(0.0, 0.0, 10.0, 10.0), seg(0.0, 10.0, 10.0, 0.0)]);
    assert_eq!(
        found,
        vec![
            (EventType::Start, 1, 0.0, 0.0),
            (EventType::Start, 2, 10.0, 0.0),
            (EventType::Intersection { other_edge_id: 2 }, 1, 5.0, 5.0),
            (EventType::Stop, 2, 0.0, 10.0),
            (EventType::Stop, 1, 10.0, 10.0),
        ]
    );
}

#[test]
fn square_has_no_intersections_and_drops_horizontals() {
    let square = vec![
        seg(0.0, 0.0, 1.0, 0.0),
        seg(1.0, 0.0, 1.0, 1.0),
        seg(1.0, 1.0, 0.0, 1.0),
        seg(0.0, 1.0, 0.0, 0.0),
    ];
    assert_eq!(intersections_of(square.clone()), vec![]);
    let sweep = Algorithm::new(square.clone(), None);
    assert_eq!(sweep.edges.len(), 2);
    assert_eq!(sweep.queue_len(), 2);
    assert_eq!(sweep.edges.get(1).id(), 1);
    assert_eq!(sweep.edges.get(1).lowest_y(), pt(1.0, 0.0));
    assert_eq!(sweep.edges.get(1).highest_y(), pt(1.0, 1.0));
    assert_eq!(sweep.edges.get(2).lowest_y(), pt(0.0, 0.0));
    assert_eq!(sweep.edges.get(2).highest_y(), pt(0.0, 1.0));
    assert_eq!(
        events_of(square),
        vec![
            (EventType::Start, 2, 0.0, 0.0),
            (EventType::Start, 1, 1.0, 0.0),
            (EventType::Stop, 2, 0.0, 1.0),
            (EventType::Stop, 1, 1.0, 1.0),
        ]
    );
}

#[test]
fn triangle_has_no_interior_intersections() {
    let triangle =
        vec![seg(0.0, 0.0, 4.0, 0.0), seg(0.0, 0.0, 2.0, 4.0), seg(4.0, 0.0, 2.0, 4.0)];
    assert_eq!(intersections_of(triangle), vec![]);
}

#[test]
fn bowtie_meets_in_the_middle() {
    let found = intersections_of(vec![seg(0.0, 0.0, 4.0, 4.0), seg(4.0, 0.0, 0.0, 4.0)]);
    assert_eq!(found, vec![(2.0, 2.0)]);
}

#[test]
fn touch_at_endpoint_is_no_intersection() {
    let found = intersections_of(vec![seg(0.0, 0.0, 2.0, 2.0), seg(2.0, 2.0, 4.0, 0.0)]);
    assert_eq!(found, vec![]);
}

#[test]
fn intersections_come_sorted() {
    // three lines that cross pairwise at (2, 2), (3, 3) and (4, 2)
    let found = intersections_of(vec![
        seg(0.0, 0.0, 6.0, 6.0),
        seg(0.0, 4.0, 6.0, -2.0),
        seg(0.0, 6.0, 6.0, 0.0),
    ]);
    let mut sorted = found.clone();
    sorted.sort_by(|a, b| (a.1, a.0).partial_cmp(&(b.1, b.0)).unwrap());
    assert_eq!(found, sorted);
}

#[test]
fn reported_intersections_lie_on_both_segments() {
    let segments = vec![seg(0.0, 0.0, 10.0, 10.0), seg(0.0, 10.0, 10.0, 0.0)];
    let mut sweep = bentley_ottmann_events(segments);
    let mut seen = 0;
    while let Some(ev) = sweep.next() {
        if let EventType::Intersection { other_edge_id } = ev.event_type {
            seen += 1;
            let a = sweep.inner.edges.get(ev.edge_id).edge();
            let b = sweep.inner.edges.get(other_edge_id).edge();
            assert!(a.top() <= ev.point.y() && ev.point.y() <= a.bottom());
            assert!(b.top() <= ev.point.y() && ev.point.y() <= b.bottom());
            assert!(a.line().distance(ev.point).0 <= f32::EPSILON);
            assert!(b.line().distance(ev.point).0 <= f32::EPSILON);
        }
    }
    assert_eq!(seen, 1);
}

#[test]
fn edge_ids_are_handles_into_the_store() {
    let segments = vec![
        seg(0.0, 0.0, 10.0, 10.0),
        seg(3.0, 3.0, 7.0, 3.0),
        seg(0.0, 10.0, 10.0, 0.0),
    ];
    let mut sweep = bentley_ottmann_events(segments);
    let count = sweep.inner.edges.len();
    assert_eq!(count, 2);
    while let Some(ev) = sweep.next() {
        assert!(1 <= ev.edge_id && ev.edge_id <= count);
        assert_eq!(sweep.inner.edges.get(ev.edge_id).id(), ev.edge_id);
        if let EventType::Intersection { other_edge_id } = ev.event_type {
            assert!(1 <= other_edge_id && other_edge_id <= count);
        }
        assert_eq!(sweep.inner.edges.len(), count);
    }
}

#[test]
fn active_list_is_linked_both_ways_after_every_event() {
    let segments = vec![
        seg(0.0, 0.0, 6.0, 6.0),
        seg(0.0, 4.0, 6.0, -2.0),
        seg(0.0, 6.0, 6.0, 0.0),
        seg(1.0, 1.0, 1.0, 5.0),
    ];
    let mut sweep = bentley_ottmann_events(segments);
    while let Some(_) = sweep.next() {
        let edges = &sweep.inner.edges;
        let ids = sweep.inner.sweep_line.active.iter(edges);
        assert_eq!(sweep.inner.sweep_line.active.root, ids.first().copied());
        for (i, id) in ids.iter().enumerate() {
            let prev = if i == 0 { None } else { Some(ids[i - 1]) };
            let next = ids.get(i + 1).copied();
            assert_eq!(edges.get(*id).prev(), prev);
            assert_eq!(edges.get(*id).next(), next);
            assert!(!ids[..i].contains(id));
        }
    }
}

#[test]
fn colinear_continuation_builds_trapezoid_under_the_join() {
    let found = trapezoids_of(vec![
        seg(0.0, 0.0, 0.0, 5.0),
        seg(0.0, 5.0, 0.0, 10.0),
        seg(1.0, 0.0, 1.0, 10.0),
    ]);
    assert_eq!(found.len(), 1);
    assert_eq!(found[0].top(), F(5.0));
    assert_eq!(found[0].bottom(), F(10.0));
    assert_line(found[0].left(), 0.0, 5.0, 0.0, 5.0);
    assert_line(found[0].right(), 0.0, 0.0, 0.0, 5.0);
}

#[test]
fn trapezoids_between_edges_that_start_together() {
    // four verticals that start and stop together
    let found = trapezoids_of(vec![
        seg(0.0, 0.0, 0.0, 4.0),
        seg(2.0, 0.0, 2.0, 4.0),
        seg(4.0, 0.0, 4.0, 4.0),
        seg(6.0, 0.0, 6.0, 4.0),
    ]);
    assert_eq!(found.len(), 3);
    assert_eq!((found[0].top(), found[0].bottom()), (F(0.0), F(4.0)));
    assert_line(found[0].left(), 0.0, 0.0, 0.0, 4.0);
    assert_line(found[0].right(), 2.0, 0.0, 0.0, 4.0);
    assert_eq!((found[1].top(), found[1].bottom()), (F(4.0), F(4.0)));
    assert_line(found[1].left(), 2.0, 0.0, 0.0, 4.0);
    assert_line(found[1].right(), 4.0, 0.0, 0.0, 4.0);
    assert_eq!((found[2].top(), found[2].bottom()), (F(4.0), F(4.0)));
    assert_line(found[2].left(), 4.0, 0.0, 0.0, 4.0);
    assert_line(found[2].right(), 6.0, 0.0, 0.0, 4.0);
}

#[test]
fn emitted_trapezoids_are_valid() {
    let found = trapezoids_of(vec![
        seg(0.0, 0.0, 0.0, 4.0),
        seg(2.0, 0.0, 3.0, 4.0),
        seg(4.0, 0.0, 4.0, 4.0),
        seg(6.0, 0.0, 5.0, 4.0),
        seg(1.0, 1.0, 1.0, 3.0),
    ]);
    assert!(!found.is_empty());
    for t in found {
        assert!(t.bottom() >= t.top());
        assert!(!t.left().is_horizontal());
        assert!(!t.right().is_horizontal());
    }
}

#[test]
fn exhausted_tessellation_stays_exhausted() {
    let mut sweep = trapezoids(
        vec![seg(0.0, 0.0, 0.0, 5.0), seg(0.0, 5.0, 0.0, 10.0), seg(1.0, 0.0, 1.0, 10.0)],
        FillRule::EvenOdd,
    );
    assert!(sweep.next().is_some());
    assert!(sweep.next().is_none());
    assert!(sweep.next().is_none());
    assert!(sweep.next().is_none());
    assert_eq!(sweep.size_hint(), (0, Some(0)));
}

#[test]
fn size_hints_follow_the_queue() {
    let segments = vec![seg(0.0, 0.0, 10.0, 10.0), seg(0.0, 10.0, 10.0, 0.0)];
    let mut events = bentley_ottmann_events(segments.clone());
    assert_eq!(events.size_hint(), (2, Some(6)));
    events.next();
    assert_eq!(events.size_hint(), (2, Some(6)));
    let traps = trapezoids(segments, FillRule::Winding);
    assert_eq!(traps.size_hint(), (0, Some(4)));
}

#[test]
fn empty_input_ends_at_once() {
    assert_eq!(intersections_of(vec![]), vec![]);
    assert_eq!(events_of(vec![seg(0.0, 1.0, 5.0, 1.0)]), vec![]);
    assert!(trapezoids_of(vec![]).is_empty());
}

#[test]
fn queue_pops_by_height_then_by_x_then_by_age() {
    let mut queue: PriorityQueue<F> = PriorityQueue::new();
    queue.push(event(1, EventType::Start, pt(3.0, 2.0)));
    queue.push(event(2, EventType::Start, pt(5.0, 1.0)));
    queue.push(event(3, EventType::Stop, pt(1.0, 2.0)));
    queue.push(event(4, EventType::Stop, pt(5.0, 1.0)));
    queue.extend(vec![]);
    queue.extend(vec![event(5, EventType::Start, pt(-1.0, 7.0))]);
    assert_eq!(queue.len(), 5);
    let order: Vec<usize> = std::iter::from_fn(|| queue.pop()).map(|e: Event<F>| e.edge_id).collect();
    assert_eq!(order, vec![2, 4, 3, 1, 5]);
    assert_eq!(queue.len(), 0);
    assert!(queue.pop().is_none());
}

#[test]
fn approx_cmp_takes_near_values_for_equal() {
    assert_eq!(approx_cmp(F(1.0), F(1.0 + f32::EPSILON / 2.0)), Some(Ordering::Equal));
    assert_eq!(approx_cmp(F(1.0), F(2.0)), Some(Ordering::Less));
    assert_eq!(approx_cmp(F(2.0), F(1.0)), Some(Ordering::Greater));
    assert_eq!(approx_cmp(F(f32::NAN), F(1.0)), None);
}

#[test]
fn sweep_line_orders_by_x_then_start_then_end() {
    // at y = 0 the edges 1 and 2 stand at x = 2, edge 3 at x = 0
    let mut edges = Edges::from_vec(vec![
        BoEdge::from_points(pt(2.0, 0.0), pt(4.0, 4.0), 1),
        BoEdge::from_points(pt(2.0, 0.0), pt(1.0, 4.0), 2),
        BoEdge::from_points(pt(0.0, 0.0), pt(0.0, 4.0), 3),
    ]);
    let mut sweep: SweepLine<F> = SweepLine::new();
    assert_eq!(sweep.current_y(), F(f32::MIN));
    sweep.set_current_y(F(0.0));
    assert_eq!(
        sweep.compare_edges(edges.get(1), edges.get(2)),
        Some(Ordering::Greater)
    );
    assert_eq!(sweep.compare_edges(edges.get(2), edges.get(1)), Some(Ordering::Less));
    assert_eq!(sweep.compare_edges(edges.get(3), edges.get(1)), Some(Ordering::Less));
    assert_eq!(sweep.compare_edges(edges.get(1), edges.get(1)), Some(Ordering::Equal));
    sweep.add_edge(1, &mut edges);
    sweep.add_edge(2, &mut edges);
    sweep.add_edge(3, &mut edges);
    assert_eq!(sweep.active.iter(&edges), vec![3, 2, 1]);
    assert_eq!(sweep.active.pairs(&edges), vec![(3, 2)]);

    // the last edge has no successor
    sweep.swap_edge(1, &mut edges);
    assert_eq!(sweep.active.iter(&edges), vec![3, 2, 1]);
    sweep.swap_edge(3, &mut edges);
    assert_eq!(sweep.active.iter(&edges), vec![2, 3, 1]);

    // an edge without a partial trapezoid leaves no leftover
    sweep.remove_edge(3, &mut edges);
    assert_eq!(sweep.active.iter(&edges), vec![2, 1]);
    assert_eq!(sweep.leftovers(&edges), vec![]);
    assert_eq!(edges.get(3).prev(), None);
    assert_eq!(edges.get(3).next(), None);

    // pairing gives the left edge a partial trapezoid, and removing it
    // then leaves it over
    assert!(sweep.trapezoids(FillRule::Winding, &mut edges).is_empty());
    assert!(edges.get(2).pending_trapezoid());
    assert!(!edges.get(1).pending_trapezoid());
    sweep.remove_edge(2, &mut edges);
    assert_eq!(sweep.leftovers(&edges), vec![2]);
    // an edge that is not active is not swapped
    sweep.swap_edge(2, &mut edges);
    assert_eq!(sweep.active.iter(&edges), vec![1]);
    assert_eq!(sweep.leftovers(&edges), vec![2]);
    let done = sweep.complete_leftovers(&mut edges);
    assert_eq!(done.len(), 1);
    assert_eq!((done[0].top(), done[0].bottom()), (F(0.0), F(4.0)));
    assert_line(done[0].left(), 2.0, 0.0, -1.0, 4.0);
    assert_line(done[0].right(), 2.0, 0.0, 2.0, 4.0);
    assert_eq!(sweep.leftovers(&edges), vec![]);
    assert_eq!(sweep.take_leftovers(&mut edges), vec![]);
    assert_eq!((edges.get(2).prev(), edges.get(2).next()), (None, None));
}

#[test]
fn partial_trapezoid_protocol() {
    let edges = Edges::from_vec(vec![
        BoEdge::from_points(pt(0.0, 0.0), pt(0.0, 8.0), 1),
        BoEdge::from_points(pt(2.0, 0.0), pt(2.0, 4.0), 2),
        BoEdge::from_points(pt(2.0, 4.0), pt(2.0, 8.0), 3),
        BoEdge::from_points(pt(5.0, 0.0), pt(6.0, 8.0), 4),
    ]);
    let mut left = *edges.get(1);
    // no partial yet: one is started, nothing is emitted
    assert!(left.start_trapezoid(edges.get(2), F(0.0), &edges).is_none());
    assert!(left.pending_trapezoid());
    // the same right edge again: nothing changes
    assert!(left.start_trapezoid(edges.get(2), F(1.0), &edges).is_none());
    // a colinear right edge extends the partial and keeps its top
    assert!(left.start_trapezoid(edges.get(3), F(4.0), &edges).is_none());
    // another right edge completes it and starts a new one
    let done = left.start_trapezoid(edges.get(4), F(6.0), &edges).unwrap();
    assert_eq!((done.top(), done.bottom()), (F(0.0), F(6.0)));
    assert_line(done.left(), 0.0, 0.0, 0.0, 8.0);
    assert_line(done.right(), 2.0, 4.0, 0.0, 4.0);
    // the new partial is closed at the given bottom
    let last = left.complete_trapezoid(F(8.0), &edges).unwrap();
    assert_eq!((last.top(), last.bottom()), (F(6.0), F(8.0)));
    assert_line(last.right(), 5.0, 0.0, 1.0, 8.0);
    assert!(!left.pending_trapezoid());
    assert!(left.complete_trapezoid(F(9.0), &edges).is_none());

    // a bottom above the top gives no trapezoid
    let upside_down = PartialTrapezoid { right_edge: 2, top: F(3.0) };
    assert!(upside_down.complete(1, F(2.0), &edges).is_none());
    assert!(upside_down.complete(1, F(3.0), &edges).is_some());

    // a partial moves from one edge to another
    let mut giver = *edges.get(1);
    let mut taker = *edges.get(4);
    giver.start_trapezoid(edges.get(2), F(0.0), &edges);
    taker.take_trapezoid(&mut giver);
    assert!(taker.pending_trapezoid());
    assert!(!giver.pending_trapezoid());
}

#[test]
fn intersection_events_are_filtered() {
    let a = BoEdge::from_points(pt(0.0, 0.0), pt(10.0, 10.0), 1);
    let b = BoEdge::from_points(pt(0.0, 10.0), pt(10.0, 0.0), 2);
    let found = intersection_event(&a, &b).unwrap();
    assert_eq!(found.edge_id, 1);
    assert_eq!(found.event_type, EventType::Intersection { other_edge_id: 2 });
    assert_eq!(found.point, pt(5.0, 5.0));
    // the right edge must start further right
    assert!(intersection_event(&b, &a).is_none());
    assert!(a.intersection_event(&b).is_some());
    assert!(b.intersection_event(&a).is_some());
    // parallel edges do not cross
    let c = BoEdge::from_points(pt(1.0, 0.0), pt(11.0, 10.0), 3);
    assert!(intersection_event(&a, &c).is_none());
    // a crossing beyond the end of a segment is none
    let d = BoEdge::from_points(pt(20.0, 0.0), pt(14.0, 6.0), 4);
    assert!(intersection_event(&a, &d).is_none());
    // edges that share an end point keep only the crossing in that point
    let e = BoEdge::from_points(pt(10.0, 10.0), pt(20.0, 0.0), 5);
    assert_eq!(intersection_event(&a, &e).unwrap().point, pt(10.0, 10.0));
    assert_eq!(a.start_event(), event(1, EventType::Start, pt(0.0, 0.0)));
    assert_eq!(a.stop_event(), event(1, EventType::Stop, pt(10.0, 10.0)));
    assert_eq!(b.start_event().point, pt(10.0, 0.0));
    assert_eq!(a.x_at_y(F(2.5)), F(2.5));
}

#[test]
fn line_intersection_is_the_common_point() {
    let a = line(0.0, 0.0, 10.0, 10.0);
    let b = line(0.0, 10.0, 10.0, -10.0);
    assert_eq!(a.intersection(&b), Some(pt(5.0, 5.0)));
    assert_eq!(b.intersection(&a), Some(pt(5.0, 5.0)));
    assert_eq!(a.intersection(&a.parallel(pt(1.0, 0.0))), None);
    assert!(a.intersects(&b));
    assert!(!a.intersects(&a));
    assert_eq!(a.point_at_y(F(4.0)), Some(pt(4.0, 4.0)));
    assert_eq!(a.point_at_x(F(3.0)), Some(pt(3.0, 3.0)));
    assert_eq!(line(0.0, 1.0, 3.0, 0.0).point_at_y(F(1.0)), None);
    assert_eq!(line(1.0, 0.0, 0.0, 3.0).point_at_x(F(1.0)), None);
    assert_eq!(line(0.0, 0.0, 3.0, 4.0).distance(pt(4.0, -3.0)), F(5.0));
    assert_eq!(line(0.0, 0.0, 3.0, 4.0).distance(pt(6.0, 8.0)), F(0.0));
}

#[test]
fn non_horizontal_segments_order_their_heights() {
    assert!(NhLineSegment::new(pt(0.0, 1.0), pt(5.0, 1.0)).is_none());
    let up = NhLineSegment::new(pt(3.0, 7.0), pt(1.0, 2.0)).unwrap();
    assert_eq!(up.top(), F(2.0));
    assert_eq!(up.bottom(), F(7.0));
    assert_eq!(up.line().origin(), pt(3.0, 7.0));
    assert_eq!(up.points(), (pt(1.0, 2.0), pt(3.0, 7.0)));
    let a = NhLineSegment::new(pt(0.0, 0.0), pt(4.0, 4.0)).unwrap();
    let b = NhLineSegment::new(pt(4.0, 0.0), pt(0.0, 4.0)).unwrap();
    assert_eq!(a.intersection(&b), Some(pt(2.0, 2.0)));
    let short = NhLineSegment::new(pt(4.0, 0.0), pt(3.0, 1.0)).unwrap();
    assert_eq!(a.intersection(&short), None);
    assert!(seg(0.0, 1.0, 5.0, 1.0).try_into_nh().is_err());
    assert!(seg(0.0, 1.0, 5.0, 2.0).try_into_nh().is_ok());
}

#[test]
fn saturating_scalar_sweeps_too() {
    let p = |x: i64, y: i64| Point::new(SatInt::new(x), SatInt::new(y));
    let mut sweep = bentley_ottmann(vec![
        LineSegment::new(p(0, 0), p(10, 10)),
        LineSegment::new(p(0, 10), p(10, 0)),
    ]);
    let found = sweep.next().unwrap();
    assert_eq!((found.x().value(), found.y().value()), (5, 5));
    assert!(sweep.next().is_none());
}

#[test]
fn swap_moves_the_edge_past_whatever_follows_it() {
    // the edges 1 and 2 cross at (1, 1), and the edges 2 and 3 at (1, 3);
    // by then the edge 1 follows the edge 2, so the second crossing swaps
    // those two back and finds their crossing again
    let found = events_of(vec![
        seg(0.0, 0.0, 10.0, 10.0),
        seg(1.0, 0.0, 1.0, 10.0),
        seg(4.0, 0.0, -6.0, 10.0),
    ]);
    assert_eq!(
        found,
        vec![
            (EventType::Start, 1, 0.0, 0.0),
            (EventType::Start, 2, 1.0, 0.0),
            (EventType::Start, 3, 4.0, 0.0),
            (EventType::Intersection { other_edge_id: 2 }, 1, 1.0, 1.0),
            (EventType::Intersection { other_edge_id: 3 }, 2, 1.0, 3.0),
            (EventType::Intersection { other_edge_id: 2 }, 1, 1.0, 1.0),
            (EventType::Stop, 3, -6.0, 10.0),
            (EventType::Stop, 2, 1.0, 10.0),
            (EventType::Stop, 1, 10.0, 10.0),
        ]
    );
}

#[test]
fn swapping_a_pair_twice_restores_the_order() {
    let mut edges: Edges<F> = Edges::from_vec(testing_edges());
    let mut list = LinkedList::default();
    for edge in edges.ids() {
        list.push(edge, &mut edges);
    }
    list.swap(2, &mut edges);
    assert_eq!(list.iter(&edges), vec![1, 3, 2, 4]);
    assert_eq!(list.pairs(&edges), vec![(1, 3), (2, 4)]);
    list.swap(3, &mut edges);
    assert_eq!(list.iter(&edges), vec![1, 2, 3, 4]);
    // the last edge has no successor
    list.swap(4, &mut edges);
    assert_eq!(list.iter(&edges), vec![1, 2, 3, 4]);
    assert!(list.contains(3, &edges));
    list.remove(3, &mut edges);
    assert!(!list.contains(3, &edges));
    assert_eq!(edges.get(2).next(), Some(4));
    assert_eq!(edges.get(4).prev(), Some(2));
    list.remove(1, &mut edges);
    assert_eq!(list.root, Some(2));
    assert_eq!(edges.get(2).prev(), None);
    list.remove(4, &mut edges);
    assert_eq!(edges.get(2).next(), None);
    assert_eq!(list.pairs(&edges), vec![]);
}

#[test]
fn pairing_emits_where_a_partial_changes_hands() {
    // the edge 1 holds a partial trapezoid with the edge 2, which ends; at
    // the next pairing the edge 1 stands beside the edge 3
    let mut edges = Edges::from_vec(vec![
        BoEdge::from_points(pt(0.0, 0.0), pt(0.0, 8.0), 1),
        BoEdge::from_points(pt(2.0, 0.0), pt(2.0, 4.0), 2),
        BoEdge::from_points(pt(5.0, 0.0), pt(5.0, 8.0), 3),
        BoEdge::from_points(pt(7.0, 0.0), pt(7.0, 8.0), 4),
    ]);
    let mut sweep: SweepLine<F> = SweepLine::new();
    sweep.set_current_y(F(0.0));
    for edge in edges.ids() {
        sweep.add_edge(edge, &mut edges);
    }
    assert_eq!(sweep.active.iter(&edges), vec![1, 2, 3, 4]);
    // the first pairing starts partial trapezoids and emits nothing
    assert!(sweep.trapezoids(FillRule::Winding, &mut edges).is_empty());
    sweep.set_current_y(F(4.0));
    sweep.remove_edge(2, &mut edges);
    sweep.remove_edge(4, &mut edges);
    assert_eq!(sweep.leftovers(&edges), vec![]);
    let emitted = sweep.trapezoids(FillRule::Winding, &mut edges);
    assert_eq!(emitted.len(), 1);
    assert_eq!((emitted[0].top(), emitted[0].bottom()), (F(0.0), F(4.0)));
    assert_line(emitted[0].left(), 0.0, 0.0, 0.0, 8.0);
    assert_line(emitted[0].right(), 2.0, 0.0, 0.0, 4.0);
    // the same pairing again changes nothing and emits nothing
    assert!(sweep.trapezoids(FillRule::Winding, &mut edges).is_empty());
}

#[test]
fn leftovers_are_completed_once_they_have_ended() {
    let mut edges = Edges::from_vec(vec![
        BoEdge::from_points(pt(0.0, 0.0), pt(0.0, 2.0), 1),
        BoEdge::from_points(pt(2.0, 0.0), pt(2.0, 9.0), 2),
        BoEdge::from_points(pt(4.0, 0.0), pt(4.0, 4.0), 3),
        BoEdge::from_points(pt(6.0, 0.0), pt(6.0, 9.0), 4),
    ]);
    let mut sweep: SweepLine<F> = SweepLine::new();
    sweep.set_current_y(F(0.0));
    for edge in edges.ids() {
        sweep.add_edge(edge, &mut edges);
    }
    assert!(sweep.trapezoids(FillRule::Winding, &mut edges).is_empty());
    sweep.remove_edge(1, &mut edges);
    sweep.remove_edge(3, &mut edges);
    assert_eq!(sweep.leftovers(&edges), vec![1, 3]);
    // at the height 3 the edge 1 has ended, and the edge 3 has not
    sweep.set_current_y(F(3.0));
    let done = sweep.complete_ended_leftovers(&mut edges);
    assert_eq!(done.len(), 1);
    assert_eq!((done[0].top(), done[0].bottom()), (F(0.0), F(2.0)));
    assert_line(done[0].left(), 0.0, 0.0, 0.0, 2.0);
    assert_line(done[0].right(), 2.0, 0.0, 0.0, 9.0);
    assert_eq!(sweep.leftovers(&edges), vec![3]);
    assert!(!edges.get(1).pending_trapezoid());
    assert!(edges.get(3).pending_trapezoid());
    // an edge that is in no list has no links
    assert_eq!((edges.get(1).prev(), edges.get(1).next()), (None, None));
    assert_eq!(sweep.active.iter(&edges), vec![2, 4]);
    // at its own bottom the edge 3 has ended too
    sweep.set_current_y(F(4.0));
    let done = sweep.complete_ended_leftovers(&mut edges);
    assert_eq!(done.len(), 1);
    assert_eq!((done[0].top(), done[0].bottom()), (F(0.0), F(4.0)));
    assert_line(done[0].right(), 6.0, 0.0, 0.0, 9.0);
    assert_eq!(sweep.leftovers(&edges), vec![]);
}

#[test]
fn intersections_hint_at_the_queue() {
    let sweep = bentley_ottmann(vec![seg(0.0, 0.0, 10.0, 10.0), seg(0.0, 10.0, 10.0, 0.0)]);
    assert_eq!(sweep.size_hint(), (0, Some(6)));
}

#[test]
fn edges_outside_the_lists_have_no_links() {
    let mut sweep = trapezoids(
        vec![
            seg(0.0, 0.0, 0.0, 4.0),
            seg(2.0, 0.0, 2.0, 4.0),
            seg(4.0, 0.0, 4.0, 4.0),
            seg(6.0, 0.0, 6.0, 4.0),
            seg(1.0, 1.0, 5.0, 3.0),
        ],
        FillRule::Winding,
    );
    loop {
        let done = sweep.next().is_none();
        let edges = &sweep.inner.edges;
        let active = sweep.inner.sweep_line.active.iter(edges);
        let leftovers = sweep.inner.sweep_line.leftovers(edges);
        for id in edges.ids() {
            if !active.contains(&id) && !leftovers.contains(&id) {
                assert_eq!((edges.get(id).prev(), edges.get(id).next()), (None, None));
            }
            assert!(!(active.contains(&id) && leftovers.contains(&id)));
        }
        if done {
            break;
        }
    }
}

#[test]
fn swap_of_an_edge_in_no_list_changes_nothing() {
    let mut edges: Edges<F> = Edges::from_vec(testing_edges());
    let mut list = LinkedList::default();
    for edge in [1, 2, 3] {
        list.push(edge, &mut edges);
    }
    // the edge 4 is in no list and has no successor
    list.swap(4, &mut edges);
    assert_eq!(list.root, Some(1));
    assert_eq!(list.iter(&edges), vec![1, 2, 3]);
    assert_eq!((edges.get(4).prev(), edges.get(4).next()), (None, None));
    assert_eq!((edges.get(1).prev(), edges.get(1).next()), (None, Some(2)));
    assert_eq!((edges.get(2).prev(), edges.get(2).next()), (Some(1), Some(3)));
    assert_eq!((edges.get(3).prev(), edges.get(3).next()), (Some(2), None));
    // the same holds of the empty list
    let mut none = LinkedList::default();
    none.swap(4, &mut edges);
    assert_eq!(none.root, None);
    assert_eq!(none.iter(&edges), vec![]);
    assert_eq!(list.iter(&edges), vec![1, 2, 3]);
}

#[test]
fn every_step_of_the_search_is_paid_for() {
    let mut sweep = bentley_ottmann(vec![seg(0.0, 0.0, 10.0, 10.0), seg(0.0, 10.0, 10.0, 0.0)]);
    assert_eq!(sweep.budget, usize::MAX);
    // two start events are passed over, the third step finds the crossing
    let found = sweep.next().unwrap();
    assert!(found.approx_eq(&pt(5.0, 5.0)));
    assert_eq!(sweep.budget, usize::MAX - 3);
    // two stop events are passed over, the third step finds the queue empty
    assert!(sweep.next().is_none());
    assert_eq!(sweep.budget, usize::MAX - 6);
    assert!(sweep.next().is_none());
    assert_eq!(sweep.budget, usize::MAX - 7);
    // with too small a budget the search ends before the crossing
    let mut short = bentley_ottmann(vec![seg(0.0, 0.0, 10.0, 10.0), seg(0.0, 10.0, 10.0, 0.0)]);
    short.budget = 2;
    assert!(short.next().is_none());
    assert_eq!(short.budget, 0);
    assert_eq!(short.inner.queue_len(), 3);
    short.budget = 1;
    assert!(short.next().unwrap().approx_eq(&pt(5.0, 5.0)));
    assert_eq!(short.budget, 0);
}

#[test]
fn queue_takes_a_series_of_events_in_their_order() {
    let mut queue: PriorityQueue<F> = PriorityQueue::new();
    queue.push(event(1, EventType::Start, pt(0.0, 3.0)));
    queue.extend(vec![
        event(2, EventType::Start, pt(0.0, 1.0)),
        event(3, EventType::Stop, pt(0.0, 1.0)),
        event(4, EventType::Stop, pt(-1.0, 1.0)),
    ]);
    assert_eq!(queue.len(), 4);
    let order: Vec<usize> = std::iter::from_fn(|| queue.pop()).map(|e: Event<F>| e.edge_id).collect();
    assert_eq!(order, vec![4, 2, 3, 1]);
}

#[test]
fn removed_edge_without_a_partial_trapezoid_has_no_links() {
    let mut edges: Edges<F> = Edges::from_vec(vec![
        BoEdge::from_points(pt(0.0, 0.0), pt(0.0, 4.0), 1),
        BoEdge::from_points(pt(2.0, 0.0), pt(2.0, 4.0), 2),
        BoEdge::from_points(pt(4.0, 0.0), pt(4.0, 4.0), 3),
    ]);
    let mut sweep_line: SweepLine<F> = SweepLine::new();
    sweep_line.set_current_y(F(0.0));
    for edge in edges.ids() {
        sweep_line.add_edge(edge, &mut edges);
    }
    assert_eq!((edges.get(2).prev(), edges.get(2).next()), (Some(1), Some(3)));
    sweep_line.remove_edge(2, &mut edges);
    assert_eq!((edges.get(2).prev(), edges.get(2).next()), (None, None));
    assert_eq!(sweep_line.active.iter(&edges), vec![1, 3]);
    assert_eq!(sweep_line.leftovers.iter(&edges), vec![]);
    assert_eq!((edges.get(1).prev(), edges.get(1).next()), (None, Some(3)));
}

#[test]
fn collected_trapezoids_are_those_that_come_one_by_one() {
    let segments = vec![
        seg(0.0, 0.0, 0.0, 4.0),
        seg(2.0, 0.0, 2.0, 4.0),
        seg(4.0, 0.0, 4.0, 4.0),
        seg(6.0, 0.0, 6.0, 4.0),
    ];
    let one_by_one = trapezoids_of(segments.clone());
    let all = trapezoids(segments, FillRule::Winding).collect();
    assert_eq!(all.len(), 3);
    assert_eq!(format!("{:?}", all), format!("{:?}", one_by_one));
    // a tessellation that has given a trapezoid gives the rest
    let mut sweep = trapezoids(
        vec![
            seg(0.0, 0.0, 0.0, 4.0),
            seg(2.0, 0.0, 2.0, 4.0),
            seg(4.0, 0.0, 4.0, 4.0),
            seg(6.0, 0.0, 6.0, 4.0),
        ],
        FillRule::Winding,
    );
    assert!(sweep.next().is_some());
    assert_eq!(sweep.collect().len(), 2);
}
