//! Triples: records of a subject, a predicate and an object.

use vstd::prelude::*;

pub mod stream;

verus! {

/// The three terms of a triple: subject, predicate, object.
pub type Spo<X> = (X, X, X);

/// A record of exactly three terms. What a term is, is left to `Term`: a
/// stream hands terms on and never looks into them.
pub trait Triple {
    /// The terms that the triple is made of.
    type Term;

    /// The subject, the predicate and the object, in this order.
    spec fn spo(&self) -> Spo<Self::Term>;

    /// The subject.
    fn s(&self) -> (term: &Self::Term)
        ensures
            *term == self.spo().0,
    ;

    /// The predicate.
    fn p(&self) -> (term: &Self::Term)
        ensures
            *term == self.spo().1,
    ;

    /// The object.
    fn o(&self) -> (term: &Self::Term)
        ensures
            *term == self.spo().2,
    ;
}

impl<X> Triple for [X; 3] {
    type Term = X;

    open spec fn spo(&self) -> Spo<X> {
        (self@[0], self@[1], self@[2])
    }

    fn s(&self) -> (term: &X) {
        let term = &self[0];
        assert(self.spo().0 == self@[0]);
        term
    }

    fn p(&self) -> (term: &X) {
        let term = &self[1];
        assert(self.spo().1 == self@[1]);
        term
    }

    fn o(&self) -> (term: &X) {
        let term = &self[2];
        assert(self.spo().2 == self@[2]);
        term
    }
}

impl<X> Triple for (X, X, X) {
    type Term = X;

    open spec fn spo(&self) -> Spo<X> {
        *self
    }

    fn s(&self) -> (term: &X) {
        &self.0
    }

    fn p(&self) -> (term: &X) {
        &self.1
    }

    fn o(&self) -> (term: &X) {
        &self.2
    }
}

} // verus!
