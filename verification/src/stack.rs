//! The stacks of names that expansion carries down the module tree, held in
//! persistent vectors so that each nested module gets its own at little cost.
use vstd::prelude::*;
use crate::text::strings_model;

verus! {

/// `im_rc::Vector`, taken as it is: what it holds is told by
/// [`vector_contents`] alone.
#[verifier::external_type_specification]
#[verifier::external_body]
#[verifier::reject_recursive_types(A)]
pub struct ExVector<A>(im_rc::Vector<A>);

/// The strings that a vector holds, front to back.
pub uninterp spec fn vector_contents(v: im_rc::Vector<String>) -> Seq<Seq<char>>;

/// `im_rc::Vector::new`: a vector that holds nothing.
#[verifier::external_body]
pub(crate) fn empty_stack() -> (r: im_rc::Vector<String>)
    ensures
        vector_contents(r) == Seq::<Seq<char>>::empty(),
{
    im_rc::Vector::new()
}

/// `im_rc::Vector::push_back`: the vector holds what it held, and `value`
/// behind it.
#[verifier::external_body]
pub(crate) fn push_back(v: &mut im_rc::Vector<String>, value: String)
    ensures
        vector_contents(*final(v)) == vector_contents(*old(v)).push(value@),
{
    v.push_back(value)
}

/// `im_rc::Vector::clone`: a vector that holds the same strings.
#[verifier::external_body]
pub(crate) fn clone_stack(v: &im_rc::Vector<String>) -> (r: im_rc::Vector<String>)
    ensures
        vector_contents(r) == vector_contents(*v),
{
    v.clone()
}

/// `im_rc::Vector::len`: how many strings the vector holds.
#[verifier::external_body]
pub(crate) fn stack_len(v: &im_rc::Vector<String>) -> (r: usize)
    ensures
        r == vector_contents(*v).len(),
{
    v.len()
}

/// `im_rc::Vector::iter`: copies of the strings that the vector holds, front
/// to back.
#[verifier::external_body]
pub(crate) fn stack_items(v: &im_rc::Vector<String>) -> (r: Vec<String>)
    ensures
        strings_model(r@) == vector_contents(*v),
{
    v.iter().cloned().collect()
}

} // verus!
