//! Monotonicity facts about expressions, combined across arithmetic
//! operators. A fact is an optimizer hint: reporting "non-monotonic" is
//! always safe, reporting "monotonic" wrongly would be a correctness bug,
//! so the combination rules only claim monotonicity when it follows.

use vstd::prelude::*;

verus! {

/// What is known of an expression: whether it moves consistently with its
/// input, in which direction (`is_positive` = increasing), and whether it
/// is constant. The direction is meaningless when nothing is known.
#[derive(Clone, Copy, PartialEq, Eq, Structural, Debug)]
pub struct Monotonicity {
    pub is_monotonic: bool,
    pub is_positive: bool,
    pub is_constant: bool,
}

impl Monotonicity {
    pub fn create(is_monotonic: bool, is_positive: bool, is_constant: bool) -> (r: Monotonicity)
        ensures
            r == (Monotonicity { is_monotonic, is_positive, is_constant }),
    {
        Monotonicity { is_monotonic, is_positive, is_constant }
    }
}

impl Default for Monotonicity {
    /// The fact that claims nothing: not monotonic, not constant.
    fn default() -> (r: Monotonicity)
        ensures
            r == unknown_monotonicity(),
    {
        Monotonicity { is_monotonic: false, is_positive: true, is_constant: false }
    }
}

/// The fact that claims nothing.
pub open spec fn unknown_monotonicity() -> Monotonicity {
    Monotonicity { is_monotonic: false, is_positive: true, is_constant: false }
}

/// The combination rule for `f + g`: if either side is non-monotonic the
/// sum is non-monotonic; a constant side passes the other side through;
/// two non-constant monotonic sides combine only when their directions
/// agree.
pub open spec fn plus_monotonicity(f: Monotonicity, g: Monotonicity) -> Monotonicity {
    if !f.is_monotonic || !g.is_monotonic {
        unknown_monotonicity()
    } else if f.is_constant {
        Monotonicity {
            is_monotonic: g.is_monotonic,
            is_positive: g.is_positive,
            is_constant: g.is_constant,
        }
    } else if g.is_constant {
        Monotonicity {
            is_monotonic: f.is_monotonic,
            is_positive: f.is_positive,
            is_constant: f.is_constant,
        }
    } else if f.is_positive != g.is_positive {
        unknown_monotonicity()
    } else {
        Monotonicity { is_monotonic: true, is_positive: f.is_positive, is_constant: false }
    }
}

/// The combination rule for `f - g`: as for `+`, with the right side's
/// direction negated before the agreement check.
pub open spec fn minus_monotonicity(f: Monotonicity, g: Monotonicity) -> Monotonicity {
    if f.is_constant {
        Monotonicity {
            is_monotonic: g.is_monotonic || g.is_constant,
            is_positive: !g.is_positive,
            is_constant: g.is_constant,
        }
    } else if g.is_constant {
        Monotonicity {
            is_monotonic: f.is_monotonic,
            is_positive: f.is_positive,
            is_constant: f.is_constant,
        }
    } else if !f.is_monotonic || !g.is_monotonic {
        unknown_monotonicity()
    } else if f.is_positive == g.is_positive {
        unknown_monotonicity()
    } else {
        Monotonicity { is_monotonic: true, is_positive: f.is_positive, is_constant: false }
    }
}

/// A monotonic `f` plus a constant (hence monotonic) non-constant-free `g`
/// keeps exactly `f`'s fact.
pub proof fn lemma_plus_constant_inherits(f: Monotonicity, g: Monotonicity)
    requires
        f.is_monotonic,
        !f.is_constant,
        g.is_monotonic,
        g.is_constant,
    ensures
        plus_monotonicity(f, g) == f,
{
}

/// An increasing side plus a decreasing side (both non-constant) yields no
/// monotonicity claim.
pub proof fn lemma_plus_opposite_directions_unknown(f: Monotonicity, g: Monotonicity)
    requires
        f.is_monotonic,
        !f.is_constant,
        f.is_positive,
        g.is_monotonic,
        !g.is_constant,
        !g.is_positive,
    ensures
        !plus_monotonicity(f, g).is_monotonic,
        plus_monotonicity(f, g) == unknown_monotonicity(),
{
}

/// Outside the corner where both sides are constants, the `+` combination
/// does not depend on the order of its arguments.
pub proof fn lemma_plus_commutative(f: Monotonicity, g: Monotonicity)
    requires
        !(f.is_constant && g.is_constant),
    ensures
        plus_monotonicity(f, g) == plus_monotonicity(g, f),
{
}

/// A monotonic `f` minus a constant keeps exactly `f`'s fact, and a
/// constant minus a monotonic `g` flips `g`'s direction.
pub proof fn lemma_minus_constant_sides(f: Monotonicity, g: Monotonicity)
    requires
        f.is_monotonic,
        !f.is_constant,
        g.is_monotonic,
    ensures
        g.is_constant ==> minus_monotonicity(f, g) == f,
        g.is_constant ==> minus_monotonicity(g, f) == (Monotonicity {
            is_monotonic: true,
            is_positive: !f.is_positive,
            is_constant: false,
        }),
{
}

} // verus!
