//! Small helpers on strings.
use vstd::prelude::*;
use vstd::string::*;

verus! {

/// The values of a run of strings, in order.
pub open spec fn strings_model(names: Seq<String>) -> Seq<Seq<char>> {
    names.map_values(|s: String| s@)
}

/// Whether two texts are the same.
pub fn same_text(a: &String, b: &str) -> (r: bool)
    ensures
        r == (a@ == b@),
{
    let other = String::from_str(b);
    *a == other
}

/// `a` followed by `b`.
pub fn followed_by(a: &String, b: &str) -> (r: String)
    ensures
        r@ == a@ + b@,
{
    let mut out = a.clone();
    out.append(b);
    out
}

/// A copy of a run of strings.
pub fn clone_strings(names: &Vec<String>) -> (r: Vec<String>)
    ensures
        strings_model(r@) == strings_model(names@),
{
    let mut out: Vec<String> = Vec::new();
    let mut i: usize = 0;
    while i < names.len()
        invariant
            i <= names.len(),
            out.len() == i,
            forall|j: int| 0 <= j < i ==> out@[j]@ == names@[j]@,
        decreases names.len() - i,
    {
        let s = names[i].clone();
        out.push(s);
        i = i + 1;
    }
    assert(strings_model(out@) =~= strings_model(names@));
    out
}

} // verus!
