//! The arguments of a call, taken one by one from the front, each as the
//! type that the callee expects.
use vstd::prelude::*;
use std::collections::VecDeque;
use crate::error::{Error, ErrorModel};

verus! {

/// The arguments that are left of a call, the next one first.
pub struct Args<A>(VecDeque<A>);

impl<A> View for Args<A> {
    type V = Seq<A>;

    closed spec fn view(&self) -> Seq<A> {
        self.0@
    }
}

/// What taking an argument returns for each outcome of its conversion: the
/// value, or the error that the argument is of another type.
pub fn typed<T, E>(converted: Result<T, E>) -> (res: Result<T, Error>)
    ensures
        converted matches Ok(value) ==> res == Ok::<T, Error>(value),
        converted is Err ==> (res matches Err(e) && e@ == ErrorModel::InvalidArgument(
            "argument type mismatch"@,
        )),
{
    match converted {
        Ok(value) => Ok(value),
        Err(_) => Err(Error::invalid_argument("argument type mismatch")),
    }
}

impl<A> Args<A> {
    /// The arguments of a call, in their order.
    pub fn new(args: Vec<A>) -> (res: Self)
        ensures
            res@ == args@,
    {
        let mut queue: VecDeque<A> = VecDeque::new();
        let mut args = args;
        let ghost all = args@;
        while args.len() > 0
            invariant
                queue@.len() + args@.len() == all.len(),
                forall|i: int| 0 <= i < args@.len() ==> args@[i] == all[i],
                forall|i: int| 0 <= i < queue@.len() ==> queue@[i] == all[args@.len() + i],
            decreases args@.len(),
        {
            let last = args.pop().unwrap();
            queue.push_front(last);
        }
        assert(queue@ =~= all);
        Args(queue)
    }

    /// The number of arguments that are left.
    pub fn len(&self) -> (n: usize)
        ensures
            n == self@.len(),
    {
        self.0.len()
    }

    /// Takes the next argument as a `T`. Where none is left, nothing is
    /// taken and the call is refused for a missing argument. Else the
    /// argument is taken, and what is returned is what `typed` makes of its
    /// conversion to `T`: the value, or the error that the argument is of
    /// another type.
    pub fn take<T: TryFrom<A>>(&mut self) -> (res: Result<T, Error>)
        ensures
            old(self)@.len() == 0 ==> {
                &&& res matches Err(e) && e@ == ErrorModel::InvalidArgument("missing argument"@)
                &&& final(self)@ == old(self)@
            },
            old(self)@.len() > 0 ==> {
                &&& final(self)@ == old(self)@.drop_first()
                &&& exists|converted: Result<T, T::Error>|
                    {
                        &&& call_ensures(T::try_from, (old(self)@[0],), converted)
                        &&& call_ensures(typed::<T, T::Error>, (converted,), res)
                    }
            },
    {
        let v = match self.0.pop_front() {
            Some(v) => v,
            None => {
                return Err(Error::invalid_argument("missing argument"));
            },
        };
        let converted = T::try_from(v);
        typed(converted)
    }
}

} // verus!
