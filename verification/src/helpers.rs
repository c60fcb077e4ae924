//! Small conversions shared by the layers around the engine.

use vstd::prelude::*;

use crate::database::Tenant;

verus! {

/// Whether some identifier in the list reads as `id`.
pub open spec fn has_name(s: Seq<String>, id: Seq<char>) -> bool {
    exists|i: int| 0 <= i < s.len() && s[i]@ == id
}

/// Linear search for an identifier.
pub fn contains_name(v: &Vec<String>, target: &String) -> (r: bool)
    ensures
        r == has_name(v@, target@),
{
    let mut i: usize = 0;
    while i < v.len()
        invariant
            i <= v@.len(),
            forall|k: int| 0 <= k < i ==> (#[trigger] v@[k])@ != target@,
        decreases v@.len() - i,
    {
        if v[i] == *target {
            return true;
        }
        i += 1;
    }
    false
}

/// An identifier occurs in the mapped view exactly when the list has
/// it.
pub proof fn lemma_has_name_iff_contains(s: Seq<String>, id: Seq<char>)
    ensures
        has_name(s, id) <==> s.map_values(|x: String| x@).contains(id),
{
    let mapped = s.map_values(|x: String| x@);
    if has_name(s, id) {
        let i = choose|i: int| 0 <= i < s.len() && s[i]@ == id;
        assert(mapped[i] == id);
    }
    if mapped.contains(id) {
        let i = choose|i: int| 0 <= i < mapped.len() && mapped[i] == id;
        assert(s[i]@ == id);
    }
}

/// Projects a list of tenants onto their names, keeping the order.
pub fn tenant_names_from_vec(tenants: Vec<Tenant>) -> (result: Vec<String>)
    ensures
        result@.len() == tenants@.len(),
        forall|i: int| 0 <= i < tenants@.len() ==> result@[i]@ == tenants@[i].name@,
{
    let mut result: Vec<String> = Vec::new();
    let mut k: usize = 0;
    while k < tenants.len()
        invariant
            k <= tenants@.len(),
            result@.len() == k,
            forall|i: int| 0 <= i < k ==> result@[i]@ == tenants@[i].name@,
        decreases tenants@.len() - k,
    {
        result.push(tenants[k].name.clone());
        k += 1;
    }
    result
}

} // verus!
