use crate::registry::{entry, Registry};
use std::any::TypeId;
use vstd::prelude::*;
use vstd::string::StringExecFns;

verus! {

/// What releasing a guard leaves in `m`: the handle the guard found when it
/// was made is put back for `key`, or `key` is unbound if there was none.
/// What is bound for `key` at release time is not consulted.
pub open spec fn restored(m: Map<TypeId, usize>, key: TypeId, previous: Option<usize>) -> Map<
    TypeId,
    usize,
> {
    match previous {
        Some(addr) => m.insert(key, addr),
        None => m.remove(key),
    }
}

/// The failure message of a lookup for the type called `name` while
/// nothing is bound for it.
pub open spec fn unbound_message(name: Seq<char>) -> Seq<char> {
    "No current `"@ + name + "` is set"@
}

/// Puts back the previous binding of its type when released.
///
/// It borrows the bound value for as long as the binding lasts. Guards of one
/// type must be released in the reverse order of their making; the guard does
/// not check this.
pub struct CurrentGuard<'a, T> {
    _val: &'a T,
    key: TypeId,
    old_ptr: Option<usize>,
}

impl<'a, T> CurrentGuard<'a, T> {
    /// The type identity this guard binds.
    pub closed spec fn key(&self) -> TypeId {
        self.key
    }

    /// The handle that was bound for the key when the guard was made.
    pub closed spec fn previous(&self) -> Option<usize> {
        self.old_ptr
    }

    /// Ends the binding: restores the handle found at bind time, or removes
    /// the key if there was none, whatever is bound for it now.
    pub fn release(self, registry: &mut Registry)
        requires
            old(registry).wf(),
        ensures
            final(registry).wf(),
            final(registry)@ == restored(old(registry)@, self.key(), self.previous()),
    {
        match self.old_ptr {
            Some(addr) => {
                registry.set(self.key, addr);
            },
            None => {
                registry.remove(&self.key);
            },
        }
    }
}

impl Registry {
    /// Makes `addr`, the handle of `value`, the current one for `key`, and
    /// hands back the guard that undoes this.
    pub fn bind<'a, T>(&mut self, value: &'a T, key: TypeId, addr: usize) -> (g: CurrentGuard<'a, T>)
        requires
            old(self).wf(),
        ensures
            final(self).wf(),
            final(self)@ == old(self)@.insert(key, addr),
            g.key() == key,
            g.previous() == entry(old(self)@, key),
    {
        let old_ptr = self.set(key, addr);
        CurrentGuard { _val: value, key, old_ptr }
    }

    /// The handle bound for `key`, or, where none is, a failure whose message
    /// names the type `name`.
    pub fn lookup_or_fail(&self, key: &TypeId, name: &str) -> (r: Result<usize, String>)
        requires
            self.wf(),
        ensures
            match entry(self@, *key) {
                Some(addr) => r == Ok::<usize, String>(addr),
                None => r matches Err(msg) && msg@ == unbound_message(name@),
            },
    {
        match self.get(key) {
            Some(addr) => Ok(addr),
            None => {
                let mut msg = String::from_str("No current `");
                msg.append(name);
                msg.append("` is set");
                Err(msg)
            },
        }
    }
}

} // verus!
