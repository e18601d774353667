//! Device-list decisions: which listed interfaces are offered, and where
//! a requested device stands in the list. Enumerating the devices is the
//! caller's business; only names come through here.

use vstd::prelude::*;
use crate::text::{str_contains, text_contains};

verus! {

/// A device is offered unless its name marks it as a loopback interface.
pub open spec fn keep_device(name: Seq<char>) -> bool {
    !text_contains(name, "lo"@) && !text_contains(name, "Loopback"@)
}

/// The names of `s` that are offered, in order.
pub open spec fn kept_devices(s: Seq<Seq<char>>) -> Seq<Seq<char>>
    decreases s.len(),
{
    if s.len() == 0 {
        Seq::empty()
    } else {
        let rest = kept_devices(s.drop_last());
        if keep_device(s.last()) {
            rest.push(s.last())
        } else {
            rest
        }
    }
}

/// Keeps the non-loopback device names, in order.
pub fn non_loopback_devices(names: Vec<String>) -> (r: Vec<String>)
    ensures
        r.deep_view() == kept_devices(names.deep_view()),
{
    let ghost dv = names.deep_view();
    let mut r: Vec<String> = Vec::new();
    let mut k: usize = 0;
    proof {
        assert(dv.take(0) =~= Seq::<Seq<char>>::empty());
    }
    while k < names.len()
        invariant
            k <= names@.len(),
            dv == names.deep_view(),
            r.deep_view() == kept_devices(dv.take(k as int)),
        decreases names@.len() - k,
    {
        proof {
            assert(dv.take(k as int + 1).drop_last() =~= dv.take(k as int));
            assert(dv.take(k as int + 1).last() == dv[k as int]);
        }
        let name = &names[k];
        if !str_contains(name.as_str(), "lo") && !str_contains(name.as_str(), "Loopback") {
            let ghost before = r.deep_view();
            r.push(name.clone());
            proof {
                assert(r.deep_view() =~~= before.push(dv[k as int]));
            }
        }
        k = k + 1;
    }
    proof {
        assert(dv.take(names@.len() as int) =~= dv);
    }
    r
}

/// Finds the first device of that exact name, if any is listed.
pub fn find_device_index(names: &Vec<String>, target: &str) -> (r: Option<usize>)
    ensures
        r matches Some(i) ==> i < names@.len() && names@[i as int]@ == target@ && (forall|j: int|
            0 <= j < i ==> names@[j]@ != target@),
        r is None ==> forall|j: int| 0 <= j < names@.len() ==> names@[j]@ != target@,
{
    let wanted = String::from_str(target);
    let mut k: usize = 0;
    while k < names.len()
        invariant
            k <= names@.len(),
            wanted@ == target@,
            forall|j: int| 0 <= j < k ==> names@[j]@ != target@,
        decreases names@.len() - k,
    {
        if names[k].eq(&wanted) {
            return Some(k);
        }
        k = k + 1;
    }
    None
}

} // verus!
