//! `Patrons.xml`: the favor patrons. Only the name is used for now.

use vstd::prelude::*;

verus! {

#[derive(Debug, Clone, PartialEq, Eq)]
pub struct Patron {
    pub name: String,
}

/// The patrons of `Patrons.xml` from the `<Name>` of each `<Patron>`, in order.
pub fn parse(names: Vec<String>) -> (r: Vec<Patron>)
    ensures
        r@.len() == names@.len(),
        forall|i: int| 0 <= i < r@.len() ==> (#[trigger] r@[i]).name == names@[i],
{
    let mut out: Vec<Patron> = Vec::new();
    let mut rest = names;
    let ghost all = rest@;
    let n = rest.len();
    let mut k: usize = 0;
    while rest.len() > 0
        invariant
            k + rest@.len() == all.len(),
            n == all.len(),
            rest@ == all.subrange(k as int, all.len() as int),
            out@.len() == k,
            forall|i: int| 0 <= i < k ==> (#[trigger] out@[i]).name == all[i],
        decreases rest@.len(),
    {
        let name = rest.remove(0);
        assert(name == all[k as int]);
        out.push(Patron { name });
        k += 1;
        assert(rest@ =~= all.subrange(k as int, all.len() as int));
    }
    out
}

} // verus!
