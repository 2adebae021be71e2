//! Small helpers on collections.
use vstd::prelude::*;

verus! {

/// Splits a sequence of pairs into the sequence of first and of second
/// components.
pub trait Unzip<T1, T2>: Sized {
    /// The pairs, in order.
    spec fn pairs(&self) -> Seq<(T1, T2)>;

    fn unzip(self) -> (r: (Vec<T1>, Vec<T2>))
        ensures
            r.0@ == self.pairs().map_values(|p: (T1, T2)| p.0),
            r.1@ == self.pairs().map_values(|p: (T1, T2)| p.1),
    ;
}

impl<T1, T2> Unzip<T1, T2> for Vec<(T1, T2)> {
    open spec fn pairs(&self) -> Seq<(T1, T2)> {
        self@
    }

    fn unzip(self) -> (r: (Vec<T1>, Vec<T2>)) {
        let ghost all = self@;
        let mut rest = self;
        let mut vec1: Vec<T1> = Vec::new();
        let mut vec2: Vec<T2> = Vec::new();
        while rest.len() > 0
            invariant
                rest@ == all.take(rest@.len() as int),
                rest@.len() <= all.len(),
                vec1@ == all.skip(rest@.len() as int).map_values(|p: (T1, T2)| p.0),
                vec2@ == all.skip(rest@.len() as int).map_values(|p: (T1, T2)| p.1),
            decreases rest.len(),
        {
            let ghost k = rest@.len() as int;
            let (a, b) = rest.pop().unwrap();
            assert(all[k - 1] == (a, b));
            vec1.insert(0, a);
            vec2.insert(0, b);
            assert(all.skip(k - 1) =~= seq![all[k - 1]] + all.skip(k));
            assert(vec1@ =~= all.skip(k - 1).map_values(|p: (T1, T2)| p.0));
            assert(vec2@ =~= all.skip(k - 1).map_values(|p: (T1, T2)| p.1));
            assert(rest@ =~= all.take(k - 1));
        }
        assert(all.skip(0) =~= all);
        (vec1, vec2)
    }
}

} // verus!
