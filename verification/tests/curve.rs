use timbre_tweak::curve::{Curve, Segment};

fn curve(points: &[f32]) -> Curve {
    let bits: Vec<u32> = points.iter().map(|p| p.to_bits()).collect();
    Curve::new(&bits).expect("a curve needs a point")
}

fn levels(curve: &Curve) -> Vec<f32> {
    curve.to_points().into_iter().map(f32::from_bits).collect()
}

/// Evaluates a curve at normalized time `t`, as a caller of the library does.
fn at(curve: &Curve, t: f32) -> f32 {
    let i = t * curve.last_index() as f32;
    let (fract, k) = (i.fract(), i as usize);
    assert!(k <= curve.last_index());
    match curve.segment(k) {
        Segment::Knot(p) => f32::from_bits(p),
        Segment::Span(p, q) => (1.0 - fract) * f32::from_bits(p) + fract * f32::from_bits(q),
    }
}

#[test]
fn curve_new_keeps_the_points() {
    let c = Curve::new(&[1, 2, 3]).unwrap();
    assert_eq!(c.to_points(), vec![1, 2, 3]);
    assert_eq!(c.last_index(), 2);
    assert_eq!(c.point(0), 1);
    assert_eq!(c.point(1), 2);
    assert_eq!(c.point(2), 3);
}

#[test]
fn curve_new_refuses_no_points() {
    assert_eq!(Curve::new(&[]), None);
    let empty: Vec<u32> = Vec::new();
    assert!(Curve::new(&empty).is_none());
}

#[test]
fn curve_constant_has_one_point() {
    let c = Curve::constant(0.5f32.to_bits());
    assert_eq!(c.to_points(), vec![0x3F00_0000]);
    assert_eq!(c.last_index(), 0);
    assert_eq!(c, Curve::new(&[0x3F00_0000]).unwrap());
}

#[test]
fn curve_set_point_changes_one_point() {
    let mut c = curve(&[0.0, 0.25, 0.5]);
    c.set_point(1, 0.75f32.to_bits());
    assert_eq!(levels(&c), vec![0.0, 0.75, 0.5]);
    c.set_point(0, 1.0f32.to_bits());
    assert_eq!(levels(&c), vec![1.0, 0.75, 0.5]);
    c.set_point(2, 0.125f32.to_bits());
    assert_eq!(levels(&c), vec![1.0, 0.75, 0.125]);
}

#[test]
fn curve_extend_duplicates_the_last_point() {
    let mut c = curve(&[0.5]);
    c.extend();
    assert_eq!(levels(&c), vec![0.5, 0.5]);
    c.set_point(1, 0.25f32.to_bits());
    c.extend();
    assert_eq!(levels(&c), vec![0.5, 0.25, 0.25]);
    assert_eq!(c.last_index(), 2);
}

#[test]
fn curve_extend_keeps_the_end_values() {
    let before = curve(&[0.0, 1.0]);
    let mut after = curve(&[0.0, 1.0]);
    after.extend();
    assert_eq!(at(&after, 1.0), at(&before, 1.0));
    assert_eq!(at(&after, 0.0), at(&before, 0.0));
}

#[test]
fn curve_shorten_removes_the_last_point() {
    let mut c = curve(&[0.1, 0.2, 0.3]);
    c.shorten();
    assert_eq!(levels(&c), vec![0.1, 0.2]);
    c.shorten();
    assert_eq!(levels(&c), vec![0.1]);
}

#[test]
fn curve_shorten_ignores_a_single_point() {
    let mut c = curve(&[0.7]);
    c.shorten();
    assert_eq!(levels(&c), vec![0.7]);
    c.shorten();
    c.shorten();
    assert_eq!(levels(&c), vec![0.7]);
    assert_eq!(c.last_index(), 0);
}

#[test]
fn curve_extend_then_shorten_is_the_identity() {
    let mut c = curve(&[0.3, 0.9]);
    let before = c.clone();
    c.extend();
    assert_ne!(c, before);
    c.shorten();
    assert_eq!(c, before);
}

#[test]
fn segment_at_the_last_index_is_the_last_point() {
    let c = Curve::new(&[10, 20, 30]).unwrap();
    assert_eq!(c.segment(2), Segment::Knot(30));
    let single = Curve::constant(7);
    assert_eq!(single.segment(0), Segment::Knot(7));
}

#[test]
fn segment_before_the_last_index_spans_two_points() {
    let c = Curve::new(&[10, 20, 30]).unwrap();
    assert_eq!(c.segment(0), Segment::Span(10, 20));
    assert_eq!(c.segment(1), Segment::Span(20, 30));
}

#[test]
fn curve_at_one_is_the_last_point_exactly() {
    for points in [
        vec![0.5f32],
        vec![0.0, 1.0],
        vec![0.1, 0.2, 0.3],
        vec![1.0, 0.0, 0.25, 0.123_456_7],
        vec![3.5, -2.0, 7.25, 0.0, 9.0, 1e-7, 12345.678],
    ] {
        let c = curve(&points);
        assert_eq!(at(&c, 1.0).to_bits(), points.last().unwrap().to_bits());
    }
}

#[test]
fn curve_of_one_point_is_constant() {
    let c = curve(&[0.8]);
    for k in 0..=1000 {
        let t = k as f32 / 1000.0;
        assert_eq!(at(&c, t).to_bits(), 0.8f32.to_bits());
    }
}

#[test]
fn curve_interpolates_between_neighbours() {
    let c = curve(&[0.0, 1.0, 0.0]);
    assert_eq!(at(&c, 0.0), 0.0);
    assert_eq!(at(&c, 0.25), 0.5);
    assert_eq!(at(&c, 0.5), 1.0);
    assert_eq!(at(&c, 0.75), 0.5);
    assert_eq!(at(&c, 1.0), 0.0);
    let ramp = curve(&[2.0, 4.0]);
    assert_eq!(at(&ramp, 0.5), 3.0);
    assert_eq!(at(&ramp, 0.125), 2.25);
}
