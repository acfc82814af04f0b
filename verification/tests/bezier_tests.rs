use svg_core::bezier::{cubic_interpolate_bezier, isqrt, BezierControlPoint, SampledBezierCurve};

fn p(x: i64, y: i64) -> BezierControlPoint {
    BezierControlPoint { x, y }
}

/// A straight-line "curve": control points collinear and evenly spaced, so
/// the sampled positions are linear in the parameter.
fn straight_curve() -> [BezierControlPoint; 4] {
    [p(0, 0), p(1000, 0), p(2000, 0), p(3000, 0)]
}

#[test]
fn isqrt_exact_values() {
    assert_eq!(isqrt(0), 0);
    assert_eq!(isqrt(1), 1);
    assert_eq!(isqrt(24), 4);
    assert_eq!(isqrt(25), 5);
    assert_eq!(isqrt(26), 5);
    assert_eq!(isqrt(u64::MAX), 4_294_967_295);
}

#[test]
fn distance_of_three_four_five_triangle() {
    assert_eq!(p(0, 0).distance(&p(3000, 4000)), 5000);
    assert_eq!(p(-1000, 0).distance(&p(1000, 0)), 2000);
    assert_eq!(p(5, 5).distance(&p(5, 5)), 0);
}

#[test]
fn cubic_interpolation_endpoints_and_midpoint() {
    let curve = straight_curve();
    assert_eq!(cubic_interpolate_bezier(&curve, 0), p(0, 0));
    assert_eq!(cubic_interpolate_bezier(&curve, 1000), p(3000, 0));
    assert_eq!(cubic_interpolate_bezier(&curve, 500), p(1500, 0));
}

#[test]
fn from_curve_samples_eleven_points_with_cumulative_lengths() {
    let sampled = SampledBezierCurve::from_curve(&straight_curve());
    assert_eq!(sampled.sampled_bezier_points.len(), 11);
    assert_eq!(sampled.arc_length_parametrization.len(), 11);
    assert_eq!(sampled.sampled_bezier_points[0], p(0, 0));
    assert_eq!(sampled.sampled_bezier_points[10], p(3000, 0));
    assert_eq!(sampled.arc_length_parametrization[0], 0);
    for i in 0..10 {
        assert!(
            sampled.arc_length_parametrization[i] <= sampled.arc_length_parametrization[i + 1]
        );
        assert_eq!(sampled.arc_length_parametrization[i], 300 * i as u64);
    }
    assert_eq!(sampled.arc_length, 3000);
}

#[test]
fn percentage_is_zero_at_offset_zero_and_one_at_arc_length() {
    let sampled = SampledBezierCurve::from_curve(&straight_curve());
    assert_eq!(sampled.get_bezier_percentage_from_offset(0), 0);
    assert_eq!(
        sampled.get_bezier_percentage_from_offset(sampled.arc_length),
        1000
    );

    let bent = SampledBezierCurve::from_curve(&[
        p(0, 0),
        p(0, 2000),
        p(4000, 2000),
        p(4000, 0),
    ]);
    assert_eq!(bent.get_bezier_percentage_from_offset(0), 0);
    assert_eq!(bent.get_bezier_percentage_from_offset(bent.arc_length), 1000);
}

#[test]
fn percentage_is_linear_for_a_straight_line() {
    let sampled = SampledBezierCurve::from_curve(&straight_curve());
    // arc length 3000, each sampled arc 300: percentage == offset * 100 / 300.
    assert_eq!(sampled.get_bezier_percentage_from_offset(1500), 500);
    assert_eq!(sampled.get_bezier_percentage_from_offset(750), 250);
    assert_eq!(sampled.get_bezier_percentage_from_offset(300), 100);
    assert_eq!(sampled.get_bezier_percentage_from_offset(299), 99);
    assert_eq!(sampled.get_bezier_percentage_from_offset(2999), 999);
    for off in (0..=3000).step_by(25) {
        assert_eq!(
            sampled.get_bezier_percentage_from_offset(off) as u64,
            off * 100 / 300
        );
    }
}

#[test]
fn offsets_beyond_the_end_extrapolate() {
    let sampled = SampledBezierCurve::from_curve(&straight_curve());
    assert!(sampled.get_bezier_percentage_from_offset(4500) > 1000);
}

#[test]
fn sample_helpers_follow_the_sampled_points() {
    let sampled = SampledBezierCurve::from_curve(&straight_curve());
    let circles = sampled.sample_circles();
    assert_eq!(circles.len(), 11);
    assert_eq!(circles[3].center_x, 900);
    assert_eq!(circles[3].radius, 1000);
    let line = sampled.sample_line();
    assert_eq!(line.len(), 11);
    assert_eq!(line[10].x, 3000);
}
