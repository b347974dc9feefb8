//! Resolution of a package's declared address names against the current
//! address book.

use vstd::prelude::*;

use crate::address::AddressBook;
use crate::address::ChainAddress;
use crate::errors::DeployError;
use crate::manifest::MoveTomlFile;

verus! {

/// One entry of the substitution list handed to a publish call: a symbolic
/// name bound to a concrete address.
#[derive(Debug, PartialEq, Eq)]
pub struct Substitution {
    pub name: String,
    pub addr: ChainAddress,
}

/// Every declared name is either already resolved in the book or the
/// package's own self-binding.
pub open spec fn resolvable(
    names: Seq<Seq<char>>,
    book: Map<Seq<char>, Seq<u8>>,
    self_name: Seq<char>,
) -> bool {
    forall|i: int|
        0 <= i < names.len() ==> book.dom().contains(#[trigger] names[i]) || names[i] == self_name
}

/// The name at `i` blocks resolution: it is unresolved and not the
/// self-binding.
pub open spec fn unresolved_at(
    names: Seq<Seq<char>>,
    book: Map<Seq<char>, Seq<u8>>,
    self_name: Seq<char>,
    i: int,
) -> bool {
    &&& 0 <= i < names.len()
    &&& !book.dom().contains(names[i])
    &&& names[i] != self_name
}

/// The substitution list binds each declared name, in table order, to its
/// book entry, or to the sender for the self-binding.
pub open spec fn substitutions_match(
    subs: Seq<Substitution>,
    names: Seq<Seq<char>>,
    book: Map<Seq<char>, Seq<u8>>,
    sender: Seq<u8>,
) -> bool {
    &&& subs.len() == names.len()
    &&& forall|i: int| 0 <= i < names.len() ==> (#[trigger] subs[i]).name@ == names[i]
    &&& forall|i: int|
        0 <= i < names.len() ==> (#[trigger] subs[i]).addr@ == if book.dom().contains(names[i]) {
            book[names[i]]
        } else {
            sender
        }
}

/// Produces the exact substitution list for one publish call, or fails with
/// the first declared name that must be deployed before this package. A hard
/// precondition check on the deployment order; no side effects.
pub fn resolve(
    table: &MoveTomlFile,
    book: &AddressBook,
    self_name: &String,
    sender: &ChainAddress,
) -> (r: Result<Vec<Substitution>, DeployError>)
    requires
        book.wf(),
    ensures
        r is Ok <==> resolvable(table.names(), book@, self_name@),
        r matches Ok(subs) ==> substitutions_match(subs@, table.names(), book@, sender@),
        r matches Err(e) ==> (e matches DeployError::DependencyOrder { missing, dependent } && {
            &&& dependent@ == self_name@
            &&& exists|i: int|
                #![trigger table.names()[i]]
                unresolved_at(table.names(), book@, self_name@, i) && missing@ == table.names()[i]
                    && forall|j: int| 0 <= j < i ==> !unresolved_at(table.names(), book@, self_name@, j)
        }),
{
    let ghost names = table.names();
    let n = table.addresses.len();
    let mut subs: Vec<Substitution> = Vec::new();
    let mut i: usize = 0;
    while i < n
        invariant
            i <= n,
            book.wf(),
            n == table.addresses@.len(),
            names == table.names(),
            subs@.len() == i,
            forall|k: int| 0 <= k < i ==> (#[trigger] subs@[k]).name@ == names[k],
            forall|k: int|
                0 <= k < i ==> (#[trigger] subs@[k]).addr@ == if book@.dom().contains(names[k]) {
                    book@[names[k]]
                } else {
                    sender@
                },
            forall|k: int| 0 <= k < i ==> !unresolved_at(names, book@, self_name@, k),
        decreases n - i,
    {
        let name = &table.addresses[i].0;
        proof {
            assert(names[i as int] == name@);
        }
        match book.get(name) {
            Some(addr) => {
                subs.push(Substitution { name: name.clone(), addr: addr.clone() });
            },
            None => {
                if name.eq(self_name) {
                    subs.push(Substitution { name: name.clone(), addr: sender.clone() });
                } else {
                    proof {
                        assert(unresolved_at(names, book@, self_name@, i as int));
                        assert(!(book@.dom().contains(names[i as int]) || names[i as int]
                            == self_name@));
                    }
                    return Err(
                        DeployError::DependencyOrder {
                            missing: name.clone(),
                            dependent: self_name.clone(),
                        },
                    );
                }
            },
        }
        i += 1;
    }
    proof {
        assert forall|k: int|
            0 <= k < names.len() implies book@.dom().contains(#[trigger] names[k]) || names[k]
            == self_name@ by {
            assert(!unresolved_at(names, book@, self_name@, k));
        }
    }
    Ok(subs)
}

} // verus!
