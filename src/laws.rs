use crate::guard::{restored, unbound_message};
use crate::registry::entry;
use std::any::TypeId;
use vstd::prelude::*;

verus! {

/// Before anything is bound, a lookup of any type finds nothing: a new
/// registry is empty, and the empty registry binds no key.
pub proof fn lemma_unbound_before_any_bind(key: TypeId)
    ensures
        entry(Map::<TypeId, usize>::empty(), key) == None::<usize>,
{
}

/// After binding `addr` for `key`, a lookup of `key` finds exactly `addr`.
pub proof fn lemma_bind_then_lookup(m: Map<TypeId, usize>, key: TypeId, addr: usize)
    ensures
        entry(m.insert(key, addr), key) == Some(addr),
{
}

/// Releasing the guard of a binding straight after making it leaves the
/// registry as it was before the binding.
pub proof fn lemma_release_undoes_bind(m: Map<TypeId, usize>, key: TypeId, addr: usize)
    ensures
        restored(m.insert(key, addr), key, entry(m, key)) == m,
{
    assert(restored(m.insert(key, addr), key, entry(m, key)) =~= m);
}

/// Nested bindings of one type, released in reverse order: releasing the inner
/// guard makes the outer value visible again, and releasing the outer guard
/// then restores the state before both; where nothing was bound before,
/// nothing is bound after.
pub proof fn lemma_nested_release(m: Map<TypeId, usize>, key: TypeId, a: usize, b: usize)
    ensures
        ({
            let outer = m.insert(key, a);
            let inner = outer.insert(key, b);
            let after_inner = restored(inner, key, entry(outer, key));
            let after_outer = restored(after_inner, key, entry(m, key));
            &&& entry(after_inner, key) == Some(a)
            &&& after_inner == outer
            &&& after_outer == m
            &&& entry(m, key) is None ==> entry(after_outer, key) is None
        }),
{
    let outer = m.insert(key, a);
    lemma_release_undoes_bind(outer, key, b);
    lemma_release_undoes_bind(m, key, a);
}

/// Releasing nested guards of one type in the wrong order is not detected and
/// corrupts the bindings: releasing the outer guard first puts back what was
/// bound before the outer binding, hiding the inner value while its guard is
/// still alive; releasing the inner guard afterwards binds the outer value
/// again, after both guards are gone.
pub proof fn lemma_out_of_order_release(m: Map<TypeId, usize>, key: TypeId, a: usize, b: usize)
    ensures
        ({
            let outer = m.insert(key, a);
            let inner = outer.insert(key, b);
            let outer_first = restored(inner, key, entry(m, key));
            let inner_last = restored(outer_first, key, entry(outer, key));
            &&& entry(outer_first, key) == entry(m, key)
            &&& entry(inner_last, key) == Some(a)
            &&& entry(m, key) != Some(a) ==> inner_last != m
        }),
{
    let outer = m.insert(key, a);
    let inner = outer.insert(key, b);
    let outer_first = restored(inner, key, entry(m, key));
    let inner_last = restored(outer_first, key, entry(outer, key));
    if entry(m, key) != Some(a) && inner_last == m {
        assert(entry(inner_last, key) == Some(a));
    }
}

/// The failure message of a lookup names the type: the name stands in it
/// whole, right after the opening text.
pub proof fn lemma_failure_names_type(name: Seq<char>)
    ensures
        ({
            let start = "No current `"@.len() as int;
            unbound_message(name).subrange(start, start + name.len()) == name
        }),
{
    let start = "No current `"@.len() as int;
    assert(unbound_message(name).subrange(start, start + name.len()) =~= name);
}

} // verus!
