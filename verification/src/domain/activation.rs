//! Activation kinds available for neurons.

use vstd::prelude::*;

verus! {

/// The transformation a neuron applies to its input during propagation.
#[derive(Debug, Clone, Copy, PartialEq, Eq, Structural)]
pub enum Activation {
    /// Returns the input unchanged.
    Identity,
    /// Logistic sigmoid.
    Sigmoid,
    /// Rectified linear unit.
    ReLU,
    /// Hyperbolic tangent.
    Tanh,
}

impl Default for Activation {
    fn default() -> (r: Self)
        ensures
            r == Activation::Identity,
    {
        Activation::Identity
    }
}

impl Activation {
    /// The four kinds, in declaration order.
    pub open spec fn all() -> Seq<Activation> {
        seq![Activation::Identity, Activation::Sigmoid, Activation::ReLU, Activation::Tanh]
    }

    /// The three kinds other than `self`, in declaration order.
    pub open spec fn others(self) -> Seq<Activation> {
        Self::all().filter(|a: Activation| a != self)
    }

    /// Returns the four kinds, in declaration order.
    pub fn kinds() -> (r: Vec<Activation>)
        ensures
            r@ == Self::all(),
    {
        let mut v: Vec<Activation> = Vec::new();
        v.push(Activation::Identity);
        v.push(Activation::Sigmoid);
        v.push(Activation::ReLU);
        v.push(Activation::Tanh);
        assert(v@ =~= Self::all());
        v
    }

    /// Returns the three kinds other than `self`, in declaration order.
    pub fn alternatives(self) -> (r: Vec<Activation>)
        ensures
            r@.len() == 3,
            !r@.contains(self),
            forall|a: Activation| a != self ==> r@.contains(a),
            r@.no_duplicates(),
    {
        let mut v: Vec<Activation> = Vec::new();
        if self != Activation::Identity {
            v.push(Activation::Identity);
        }
        if self != Activation::Sigmoid {
            v.push(Activation::Sigmoid);
        }
        if self != Activation::ReLU {
            v.push(Activation::ReLU);
        }
        if self != Activation::Tanh {
            v.push(Activation::Tanh);
        }
        proof {
            let s = v@;
            assert forall|a: Activation| a != self implies s.contains(a) by {
                match a {
                    Activation::Identity => {
                        assert(s[0] == a);
                    },
                    Activation::Sigmoid => {
                        assert(s[0] == a || s[1] == a);
                    },
                    Activation::ReLU => {
                        assert(s[1] == a || s[2] == a);
                    },
                    Activation::Tanh => {
                        assert(s[2] == a);
                    },
                }
            }
        }
        v
    }
}

} // verus!
