use vstd::prelude::*;

use crate::random::{extract, low16, low16_exec, mix, Rng};

verus! {

/// A four-component colour, carried through unchanged.
#[verifier::external_type_specification]
#[verifier::external_body]
pub struct ExVec4(glam::Vec4);

/// The state of a generator that started in `state` after `i` draws.
pub open spec fn after_draws(state: u32, i: nat) -> u32
    decreases i,
{
    if i == 0 {
        state
    } else {
        extract(after_draws(state, (i - 1) as nat))
    }
}

/// The state from which the knot at `index` of one animated quantity is drawn:
/// the element's seed, mixed with the index and then with the quantity's salt.
pub open spec fn knot_state(seed: u32, index: i32, salt: u32) -> u32 {
    mix(mix(seed, index as u32), salt)
}

/// Salt of the centre's knots.
pub const CENTER_SALT: u32 = 1;

/// Salt of the scale's knots.
pub const SCALE_SALT: u32 = 2;

/// Salt of the angle's knots.
pub const ANGLE_SALT: u32 = 3;

/// A configuration that the generator refuses.
#[derive(Debug, Clone, Copy, PartialEq, Eq, Structural)]
pub enum GeneratorError {
    /// No colour was given, so there would be no transformation to normalise.
    NoTransformations,
}

/// The fixed table of one seed and one colour per transformation, from which
/// every knot of the animation is derived.
#[derive(Debug, Clone)]
pub struct TransformationGenerator {
    elts: Vec<(u32, glam::Vec4)>,
}

impl View for TransformationGenerator {
    type V = Seq<(u32, glam::Vec4)>;

    closed spec fn view(&self) -> Seq<(u32, glam::Vec4)> {
        self.elts@
    }
}

impl TransformationGenerator {
    /// One transformation per colour, in order, each with a seed drawn from a
    /// generator seeded by the clock. An empty list of colours is refused.
    pub fn new(colors: Vec<glam::Vec4>) -> (r: Result<Self, GeneratorError>)
        ensures
            colors@.len() == 0 ==> r == Err::<Self, GeneratorError>(GeneratorError::NoTransformations),
            colors@.len() > 0 ==> (r matches Ok(g) && exists|s: u32|
                #[trigger] g.drawn_from(colors@, s)),
    {
        let mut rng = Rng::new();
        Self::from_rng(colors, &mut rng)
    }

    /// Whether the table holds `colors` in order, the seed of element `i`
    /// being the `i + 1`-th draw from a generator in `state`.
    pub open spec fn drawn_from(&self, colors: Seq<glam::Vec4>, state: u32) -> bool {
        &&& self@.len() == colors.len()
        &&& forall|i: int|
            0 <= i < colors.len() ==> #[trigger] self@[i] == (
                after_draws(state, (i + 1) as nat),
                colors[i],
            )
    }

    /// One transformation per colour, in order, the seeds being successive
    /// draws from `rng`. An empty list of colours is refused and leaves `rng` as it was.
    pub fn from_rng(colors: Vec<glam::Vec4>, rng: &mut Rng) -> (r: Result<Self, GeneratorError>)
        ensures
            colors@.len() == 0 ==> r == Err::<Self, GeneratorError>(GeneratorError::NoTransformations)
                && final(rng)@ == old(rng)@,
            colors@.len() > 0 ==> (r matches Ok(g) && g.drawn_from(colors@, old(rng)@)
                && final(rng)@ == after_draws(old(rng)@, colors@.len())),
    {
        if colors.len() == 0 {
            return Err(GeneratorError::NoTransformations);
        }
        let mut elts: Vec<(u32, glam::Vec4)> = Vec::new();
        let mut i: usize = 0;
        while i < colors.len()
            invariant
                i <= colors@.len(),
                elts@.len() == i,
                rng@ == after_draws(old(rng)@, i as nat),
                forall|k: int|
                    0 <= k < i ==> #[trigger] elts@[k] == (
                        after_draws(old(rng)@, (k + 1) as nat),
                        colors@[k],
                    ),
            decreases colors@.len() - i,
        {
            let seed: u32 = rng.random_u32();
            elts.push((seed, colors[i]));
            i = i + 1;
        }
        Ok(TransformationGenerator { elts })
    }

    /// Number of transformations.
    pub fn len(&self) -> (r: usize)
        ensures
            r == self@.len(),
    {
        self.elts.len()
    }

    /// Colour of transformation `j`.
    pub fn color(&self, j: usize) -> (r: glam::Vec4)
        requires
            j < self@.len(),
        ensures
            r == self@[j as int].1,
    {
        self.elts[j].1
    }

    /// Numerator over `65535` of the knot at `index` of the aggregate
    /// contraction: one draw from a generator seeded with the index.
    pub fn total_scale_knot(index: i32) -> (r: u16)
        ensures
            r == low16(extract(index as u32)),
    {
        let mut rng = Rng::with_seed(index as u32);
        low16_exec(rng.random_u32())
    }

    /// Numerators over `65535` of the knot at `index` of the centre of
    /// transformation `j`: two successive draws, `x` then `y`.
    pub fn center_knot(&self, j: usize, index: i32) -> (r: (u16, u16))
        requires
            j < self@.len(),
        ensures
            r == ({
                let s = knot_state(self@[j as int].0, index, CENTER_SALT);
                (low16(extract(s)), low16(extract(extract(s))))
            }),
    {
        let mut rng = Rng::with_seed(self.elts[j].0);
        rng.hash(index as u32).hash(CENTER_SALT);
        let x = rng.random_u32();
        let y = rng.random_u32();
        (low16_exec(x), low16_exec(y))
    }

    /// Numerator over `65535` of the knot at `index` of the scale of transformation `j`.
    pub fn scale_knot(&self, j: usize, index: i32) -> (r: u16)
        requires
            j < self@.len(),
        ensures
            r == low16(extract(knot_state(self@[j as int].0, index, SCALE_SALT))),
    {
        let mut rng = Rng::with_seed(self.elts[j].0);
        rng.hash(index as u32).hash(SCALE_SALT);
        low16_exec(rng.random_u32())
    }

    /// Numerator over `65535` of the knot at `index` of the angle of
    /// transformation `j`, as a fraction of a full turn.
    pub fn angle_knot(&self, j: usize, index: i32) -> (r: u16)
        requires
            j < self@.len(),
        ensures
            r == low16(extract(knot_state(self@[j as int].0, index, ANGLE_SALT))),
    {
        let mut rng = Rng::with_seed(self.elts[j].0);
        rng.hash(index as u32).hash(ANGLE_SALT);
        low16_exec(rng.random_u32())
    }
}

} // verus!
