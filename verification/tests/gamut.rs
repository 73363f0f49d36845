use hueble_rs::fraction::Fraction;
use hueble_rs::gamut::{
    closest_point_on_segment, dist, philips_gamut_a, philips_gamut_b, philips_gamut_c, Edge,
    PhilipsGamut,
};

fn grid(v: f64) -> u16 {
    (v * 65535.0).round() as u16
}

fn right_triangle() -> PhilipsGamut {
    PhilipsGamut { red: (0, 0), green: (0, 100), blue: (100, 0) }
}

fn wide_gamut() -> PhilipsGamut {
    PhilipsGamut {
        red: (grid(0.7), grid(0.3)),
        green: (grid(0.2), grid(0.7)),
        blue: (grid(0.15), grid(0.05)),
    }
}

/// `q - a`, times 65535 and the denominator of `q`.
fn offset(q: (Fraction, Fraction), a: (u16, u16)) -> (i128, i128) {
    (
        65535 * q.0.num as i128 - a.0 as i128 * q.0.den as i128,
        65535 * q.1.num as i128 - a.1 as i128 * q.1.den as i128,
    )
}

fn lies_on_segment(q: (Fraction, Fraction), a: (u16, u16), b: (u16, u16)) -> bool {
    let ab = (b.0 as i128 - a.0 as i128, b.1 as i128 - a.1 as i128);
    let w = offset(q, a);
    let along = ab.0 * w.0 + ab.1 * w.1;
    q.0.den == q.1.den
        && q.0.den > 0
        && ab.0 * w.1 - ab.1 * w.0 == 0
        && 0 <= along
        && along <= q.0.den as i128 * (ab.0 * ab.0 + ab.1 * ab.1)
}

fn no_farther_than(q: (Fraction, Fraction), p: (u16, u16), v: (u16, u16)) -> bool {
    let w = offset(q, p);
    let pv = (v.0 as i128 - p.0 as i128, v.1 as i128 - p.1 as i128);
    // the squared distances are compared as unsigned 256-bit products would
    // be: divide the common factor out first
    let den = q.0.den as i128;
    let lhs = (w.0 / 65535) * (w.0 / 65535) + (w.1 / 65535) * (w.1 / 65535);
    let unit = den / 65535;
    w.0 % 65535 == 0 && w.1 % 65535 == 0 && den % 65535 == 0
        && lhs <= unit * unit * (pv.0 * pv.0 + pv.1 * pv.1)
}

fn same_number(a: Fraction, num: i128, den: i128) -> bool {
    a.den > 0 && a.num as i128 * den == num * a.den as i128
}

#[test]
fn outside_point_goes_to_red_blue_edge() {
    let gamut = wide_gamut();
    let p = (grid(0.9), grid(0.1));
    assert!(!gamut.is_inside(p));
    let q = gamut.closest_point(p);
    assert!(lies_on_segment(q, gamut.blue, gamut.red));
    // the nearest point is the red vertex, where two edges meet
    assert!(same_number(q.0, gamut.red.0 as i128, 65535));
    assert!(same_number(q.1, gamut.red.1 as i128, 65535));
    assert_eq!(q.0.num, 80782004067500);
    assert_eq!(q.1.num, 34621362004820);
    assert_eq!(q.0.den, 1760915620 * 65535);
    assert_eq!(q.1.den, 1760915620 * 65535);
}

#[test]
fn inside_is_decided_by_the_barycentric_coefficients() {
    let gamut = right_triangle();
    assert!(gamut.is_inside((10, 10)));
    assert!(gamut.is_inside((1, 98)));
    assert!(gamut.is_inside((99, 0)));
    assert!(!gamut.is_inside((60, 60)));
    assert!(!gamut.is_inside((200, 200)));
    assert!(!gamut.is_inside((0, 101)));
    assert!(!gamut.is_inside((101, 0)));
}

#[test]
fn edge_opposite_red_is_outside() {
    let gamut = right_triangle();
    // u + v == 1
    assert!(!gamut.is_inside((50, 50)));
    assert!(!gamut.is_inside((1, 99)));
    assert!(!gamut.is_inside((100, 0)));
    assert!(!gamut.is_inside((0, 100)));
}

#[test]
fn edges_at_red_are_inside() {
    let gamut = right_triangle();
    assert!(gamut.is_inside((0, 0)));
    assert!(gamut.is_inside((50, 0)));
    assert!(gamut.is_inside((0, 50)));
}

#[test]
fn collinear_primaries_hold_no_point() {
    let gamut = PhilipsGamut { red: (0, 0), green: (10, 10), blue: (20, 20) };
    assert!(!gamut.is_inside((5, 5)));
    assert!(!gamut.is_inside((0, 0)));
    assert!(!gamut.is_inside((7, 3)));
    let point = PhilipsGamut { red: (4, 4), green: (4, 4), blue: (4, 4) };
    assert!(!point.is_inside((4, 4)));
}

#[test]
fn inside_does_not_depend_on_orientation() {
    let gamut = PhilipsGamut { red: (0, 0), green: (100, 0), blue: (0, 100) };
    assert!(gamut.is_inside((10, 10)));
    assert!(!gamut.is_inside((50, 50)));
    assert!(!gamut.is_inside((60, 60)));
}

#[test]
fn closest_point_projects_onto_the_nearest_edge() {
    let gamut = right_triangle();
    let q = gamut.closest_point((60, 60));
    assert_eq!(gamut.closest_edge((60, 60)), Edge::GreenBlue);
    assert_eq!((q.0.num, q.0.den), (1_000_000, 20_000 * 65535));
    assert_eq!((q.1.num, q.1.den), (1_000_000, 20_000 * 65535));
    let q = gamut.closest_point((10, 10));
    assert_eq!(gamut.closest_edge((10, 10)), Edge::GreenRed);
    assert_eq!((q.0.num, q.0.den), (0, 10_000 * 65535));
    assert_eq!((q.1.num, q.1.den), (100_000, 10_000 * 65535));
    let q = gamut.closest_point((99, 0));
    assert_eq!(gamut.closest_edge((99, 0)), Edge::BlueRed);
    assert_eq!((q.0.num, q.1.num, q.0.den), (990_000, 0, 10_000 * 65535));
}

#[test]
fn equal_distances_take_the_first_edge() {
    let gamut = right_triangle();
    // beyond the green vertex: green-blue and green-red both end there
    assert_eq!(gamut.closest_edge((0, 150)), Edge::GreenBlue);
    let q = gamut.closest_point((0, 150));
    assert!(same_number(q.0, 0, 65535));
    assert!(same_number(q.1, 100, 65535));
    // beyond the blue vertex: green-blue and blue-red both end there
    assert_eq!(gamut.closest_edge((150, 0)), Edge::GreenBlue);
    // beyond the red vertex: green-red and blue-red both end there
    let gamut = wide_gamut();
    assert_eq!(gamut.closest_edge((grid(0.9), grid(0.1))), Edge::GreenRed);
}

#[test]
fn closest_point_is_on_the_boundary_and_no_farther_than_any_vertex() {
    let gamuts = [right_triangle(), wide_gamut()];
    let points: [(u16, u16); 8] = [
        (0, 0),
        (65535, 65535),
        (65535, 0),
        (0, 65535),
        (30000, 30000),
        (200, 200),
        (60, 60),
        (58982, 6554),
    ];
    for gamut in gamuts {
        for p in points {
            let q = gamut.closest_point(p);
            assert!(
                lies_on_segment(q, gamut.green, gamut.blue)
                    || lies_on_segment(q, gamut.green, gamut.red)
                    || lies_on_segment(q, gamut.blue, gamut.red)
            );
            assert!(no_farther_than(q, p, gamut.red));
            assert!(no_farther_than(q, p, gamut.green));
            assert!(no_farther_than(q, p, gamut.blue));
        }
    }
}

#[test]
fn segment_of_one_point_gives_that_point() {
    let q = closest_point_on_segment((9, 9), (3, 4), (3, 4));
    assert_eq!((q.0.num, q.0.den), (3, 65535));
    assert_eq!((q.1.num, q.1.den), (4, 65535));
    assert_eq!(dist((9, 9), (3, 4), (3, 4)), (61, 1));
}

#[test]
fn projection_is_clamped_to_the_segment() {
    // before the first end
    let q = closest_point_on_segment((0, 5), (10, 0), (20, 0));
    assert_eq!((q.0.num, q.1.num, q.0.den), (1000, 0, 100 * 65535));
    assert_eq!(dist((0, 5), (10, 0), (20, 0)), (12500, 100));
    // past the second end
    let q = closest_point_on_segment((30, 5), (10, 0), (20, 0));
    assert_eq!((q.0.num, q.1.num, q.0.den), (2000, 0, 100 * 65535));
    assert_eq!(dist((30, 5), (10, 0), (20, 0)), (12500, 100));
    // between the ends
    let q = closest_point_on_segment((13, 5), (10, 0), (20, 0));
    assert_eq!((q.0.num, q.1.num, q.0.den), (1300, 0, 100 * 65535));
    assert_eq!(dist((13, 5), (10, 0), (20, 0)), (2500, 100));
}

#[test]
fn projection_onto_a_slanted_segment() {
    let q = closest_point_on_segment((200, 200), (0, 100), (100, 0));
    assert_eq!((q.0.num, q.1.num, q.0.den), (1_000_000, 1_000_000, 20_000 * 65535));
    assert_eq!(dist((200, 200), (0, 100), (100, 0)), (900_000_000, 20_000));
}

#[test]
fn extreme_grid_points_do_not_overflow() {
    let gamut = PhilipsGamut { red: (65535, 0), green: (0, 65535), blue: (0, 0) };
    assert!(!gamut.is_inside((65535, 65535)));
    assert!(gamut.is_inside((30000, 30000)));
    let q = gamut.closest_point((65535, 65535));
    assert_eq!(gamut.closest_edge((65535, 65535)), Edge::GreenRed);
    assert!(same_number(q.0, 65535, 2 * 65535));
    assert!(same_number(q.1, 65535, 2 * 65535));
}

#[test]
fn named_gamuts() {
    let a = philips_gamut_a();
    assert_eq!((a.red, a.green, a.blue), ((46137, 19398), (14097, 46569), (9044, 5243)));
    let b = philips_gamut_b();
    assert_eq!((b.red, b.green, b.blue), ((44236, 21102), (26810, 33947), (10944, 2621)));
    let c = philips_gamut_c();
    assert_eq!((c.red, c.green, c.blue), ((45350, 20185), (11141, 45875), (10027, 3146)));
    for g in [a, b, c] {
        assert!(g.is_triangle());
        // (0.45, 0.3) is inside, the corners of the square are not
        assert!(g.is_inside((29491, 19661)));
        assert!(!g.is_inside((0, 0)));
        assert!(!g.is_inside((65535, 0)));
        assert!(!g.is_inside((0, 65535)));
    }
}

#[test]
fn white_point_and_the_named_gamuts() {
    // D65 lies inside gamuts A and C, and just beyond the blue-green edge of gamut B
    assert!(philips_gamut_a().is_inside((20493, 21564)));
    assert!(!philips_gamut_b().is_inside((20493, 21564)));
    assert!(philips_gamut_c().is_inside((20493, 21564)));
}
