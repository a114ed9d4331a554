use glam::vec4;
use particle_dance::{GeneratorError, Rng, TransformationGenerator};

fn colors() -> Vec<glam::Vec4> {
    vec![vec4(0.9, 0.9, 0.6, 1.0), vec4(0.6, 0.9, 0.9, 1.0), vec4(0.9, 0.6, 0.9, 1.0)]
}

#[test]
fn seeds_are_successive_draws() {
    let mut rng = Rng::with_seed(5);
    let g = TransformationGenerator::from_rng(colors(), &mut rng).unwrap();
    assert_eq!(g.len(), 3);
    assert_eq!(g.color(1), vec4(0.6, 0.9, 0.9, 1.0));
    let mut expected = Rng::with_seed(5);
    expected.random_u32();
    expected.random_u32();
    expected.random_u32();
    assert_eq!(rng.random_u32(), expected.random_u32());
}

#[test]
fn empty_colors_are_refused() {
    let mut rng = Rng::with_seed(5);
    let r = TransformationGenerator::from_rng(vec![], &mut rng);
    assert_eq!(r.unwrap_err(), GeneratorError::NoTransformations);
    assert_eq!(rng.random_u32(), Rng::with_seed(5).random_u32());
    assert_eq!(
        TransformationGenerator::new(vec![]).unwrap_err(),
        GeneratorError::NoTransformations
    );
}

#[test]
fn clock_seeded_generator_keeps_colors() {
    let g = TransformationGenerator::new(colors()).unwrap();
    assert_eq!(g.len(), 3);
    assert_eq!(g.color(2), vec4(0.9, 0.6, 0.9, 1.0));
}

#[test]
fn total_scale_knots() {
    let got: Vec<u16> = (0..4).map(TransformationGenerator::total_scale_knot).collect();
    assert_eq!(got, vec![23_144, 37_192, 60_584, 9_096]);
    assert_eq!(TransformationGenerator::total_scale_knot(-1), 58_337);
}

#[test]
fn element_knots() {
    // The first seed is the first draw from state 0, the second the draw after it.
    let mut rng = Rng::with_seed(0);
    let g = TransformationGenerator::from_rng(colors(), &mut rng).unwrap();
    assert_eq!(g.center_knot(0, 2), (16_570, 14_467));
    assert_eq!(g.center_knot(0, 2), g.center_knot(0, 2));
    assert_eq!(g.scale_knot(0, 2), 49_380);
    assert_eq!(g.angle_knot(0, 2), 27_383);
    assert_eq!(g.scale_knot(1, -4), 32_033);
}
