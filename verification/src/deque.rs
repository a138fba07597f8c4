//! Mutable access into a `VecDeque`, which vstd does not specify.
use std::collections::VecDeque;
use vstd::prelude::*;

verus! {

/// `VecDeque::back_mut`: a mutable reference to the last element, `None` when the
/// deque is empty. What is written through the reference becomes the last element.
#[verifier::external_body]
pub(crate) fn deque_back_mut<T>(v: &mut VecDeque<T>) -> (r: Option<&mut T>)
    ensures
        old(v)@.len() == 0 ==> r.is_none() && final(v)@ == old(v)@,
        old(v)@.len() > 0 ==> r.is_some() && *r.unwrap() == old(v)@.last() && final(v)@
            == old(v)@.update(old(v)@.len() - 1, *final(r.unwrap())),
{
    v.back_mut()
}

/// `VecDeque::get_mut`: a mutable reference to the element at `i`, `None` when `i`
/// is out of range. What is written through the reference becomes that element.
#[verifier::external_body]
pub(crate) fn deque_get_mut<T>(v: &mut VecDeque<T>, i: usize) -> (r: Option<&mut T>)
    ensures
        i >= old(v)@.len() ==> r.is_none() && final(v)@ == old(v)@,
        i < old(v)@.len() ==> r.is_some() && *r.unwrap() == old(v)@[i as int] && final(v)@
            == old(v)@.update(i as int, *final(r.unwrap())),
{
    v.get_mut(i)
}

} // verus!
