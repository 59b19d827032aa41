//! Optional lists of components attached to an object (particle systems,
//! box colliders).

use vstd::prelude::*;

verus! {

/// Adds `item` to the list, starting the list when there is none yet.
pub fn add_component<T>(components: &mut Option<Vec<T>>, item: T)
    ensures
        *final(components) is Some,
        (*final(components))->0@ == match *old(components) {
            Some(v) => v@.push(item),
            None => seq![item],
        },
{
    match components {
        Some(list) => {
            list.push(item);
        },
        None => {
            let mut list: Vec<T> = Vec::new();
            list.push(item);
            *components = Some(list);
        },
    }
}

/// Removes the component at `idx` of the list, if there is a list.
pub fn remove_component<T>(components: &mut Option<Vec<T>>, idx: usize)
    requires
        *old(components) matches Some(v) ==> idx < v@.len(),
    ensures
        match *old(components) {
            Some(v) => *final(components) is Some && (*final(components))->0@ == v@.remove(idx as int),
            None => *final(components) is None,
        },
{
    if let Some(list) = components {
        list.remove(idx);
    }
}

} // verus!
