//! Small sequence utilities: extracting the single element of a collection
//! and turning a collection of results inside out.

use vstd::prelude::*;

verus! {

/// Why a collection did not hold exactly one element.
#[derive(Debug, Copy, Clone, PartialEq, Eq, Structural)]
pub enum SingleError {
    /// The collection was empty.
    Empty,
    /// The collection held more than one element.
    Multiple,
}

/// Collections that can give up their single element.
pub trait IterExt {
    type Item;

    /// The single element of the collection, or which way it failed.
    fn expect_single(self) -> Result<Self::Item, SingleError>;
}

impl<T> IterExt for Vec<T> {
    type Item = T;

    /// The single element of the vector, [`SingleError::Empty`] when it is
    /// empty and [`SingleError::Multiple`] when more than one remains.
    fn expect_single(self) -> (r: Result<T, SingleError>)
        ensures
            self@.len() == 0 ==> r == Err::<T, SingleError>(SingleError::Empty),
            self@.len() == 1 ==> (r matches Ok(v) && v == self@[0]),
            self@.len() > 1 ==> r == Err::<T, SingleError>(SingleError::Multiple),
    {
        let mut s = self;
        if s.len() == 0 {
            return Err(SingleError::Empty);
        }
        if s.len() > 1 {
            return Err(SingleError::Multiple);
        }
        match s.pop() {
            Some(v) => Ok(v),
            None => Err(SingleError::Empty),
        }
    }
}

/// Result collections that can be turned inside out.
pub trait ResultVecExt {
    type T;

    type E;

    /// All the values when every entry succeeded, else the first failure.
    fn flatten_ok(self) -> Result<Vec<Self::T>, Self::E>;
}

/// The position of the first failure in `s`, or `s.len()` when every entry
/// succeeded.
pub open spec fn first_err_at<T, E>(s: Seq<Result<T, E>>) -> int
    decreases s.len(),
{
    if s.len() == 0 {
        0
    } else if s[0] is Err {
        0
    } else {
        1 + first_err_at(s.subrange(1, s.len() as int))
    }
}

impl<T, E> ResultVecExt for Vec<Result<T, E>> {
    type T = T;

    type E = E;

    /// All the values in order when every entry is `Ok`, else the first
    /// `Err` encountered.
    fn flatten_ok(self) -> (r: Result<Vec<T>, E>)
        ensures
            ({
                let k = first_err_at(self@);
                if k == self@.len() {
                    r matches Ok(vs) && vs@.len() == self@.len() && (forall|i: int|
                        0 <= i < self@.len() ==> ((#[trigger] self@[i]) matches Ok(v) && vs@[i]
                            == v))
                } else {
                    (r matches Err(e) && self@[k] matches Err(e0) && e == e0)
                }
            }),
    {
        let ghost all = self@;
        let n0 = self.len();
        let mut rest = self;
        let mut ok_vec: Vec<T> = Vec::new();
        let mut i: usize = 0;
        proof {
            assert(all.subrange(0, all.len() as int) =~= all);
            lemma_first_err_range(all);
        }
        while rest.len() > 0
            invariant
                all == self@,
                n0 == all.len(),
                i + rest@.len() == all.len(),
                rest@ == all.subrange(i as int, all.len() as int),
                ok_vec@.len() == i,
                forall|k: int|
                    0 <= k < i ==> ((#[trigger] all[k]) matches Ok(v) && ok_vec@[k] == v),
                first_err_at(all) >= i,
            decreases rest@.len(),
        {
            let head = rest.remove(0);
            proof {
                assert(head == all[i as int]);
                assert(rest@ =~= all.subrange(i as int + 1, all.len() as int));
            }
            match head {
                Ok(v) => {
                    ok_vec.push(v);
                    proof {
                        lemma_first_err_step(all, i as int);
                    }
                },
                Err(e) => {
                    proof {
                        lemma_first_err_hit(all, i as int);
                    }
                    return Err(e);
                },
            }
            i = i + 1;
        }
        proof {
            lemma_first_err_range(all);
        }
        Ok(ok_vec)
    }
}

proof fn lemma_first_err_bound<T, E>(s: Seq<Result<T, E>>, i: int)
    requires
        first_err_at(s) >= i,
        i == s.len(),
    ensures
        first_err_at(s) == s.len(),
    decreases s.len(),
{
    lemma_first_err_range(s);
}

proof fn lemma_first_err_range<T, E>(s: Seq<Result<T, E>>)
    ensures
        0 <= first_err_at(s) <= s.len(),
    decreases s.len(),
{
    if s.len() > 0 && !(s[0] is Err) {
        lemma_first_err_range(s.subrange(1, s.len() as int));
    }
}

proof fn lemma_first_err_step<T, E>(s: Seq<Result<T, E>>, i: int)
    requires
        0 <= i < s.len(),
        first_err_at(s) >= i,
        s[i] is Ok,
    ensures
        first_err_at(s) >= i + 1,
    decreases i,
{
    if s.len() > 0 && !(s[0] is Err) {
        let t = s.subrange(1, s.len() as int);
        if i > 0 {
            assert(t[i - 1] == s[i]);
            lemma_first_err_step(t, i - 1);
        } else {
            lemma_first_err_range(t);
        }
    }
}

proof fn lemma_first_err_hit<T, E>(s: Seq<Result<T, E>>, i: int)
    requires
        0 <= i < s.len(),
        first_err_at(s) >= i,
        s[i] is Err,
    ensures
        first_err_at(s) == i,
    decreases i,
{
    if s.len() > 0 && !(s[0] is Err) {
        let t = s.subrange(1, s.len() as int);
        assert(t[i - 1] == s[i]);
        lemma_first_err_hit(t, i - 1);
    }
}

} // verus!
