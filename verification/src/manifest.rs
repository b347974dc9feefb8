//! The address table a package's manifest declares, and its preparation for
//! resolution.

use vstd::prelude::*;

use crate::errors::DeployError;
use crate::network::DeployModuleType;

verus! {

/// The `addresses` table of a package manifest: symbolic names mapped to
/// placeholder strings. The orchestrator only consumes the names; the
/// placeholders are carried through untouched.
#[derive(Debug, Clone)]
pub struct MoveTomlFile {
    pub addresses: Vec<(String, String)>,
}

/// The names of a sequence of table entries, in order.
pub open spec fn entry_names(entries: Seq<(String, String)>) -> Seq<Seq<char>> {
    entries.map_values(|p: (String, String)| p.0@)
}

/// Keeps every entry but the package's own self-binding.
pub open spec fn keeps_other_names(self_name: Seq<char>) -> spec_fn((String, String)) -> bool {
    |p: (String, String)| p.0@ != self_name
}

impl MoveTomlFile {
    /// The declared names, in table order.
    pub open spec fn names(self) -> Seq<Seq<char>> {
        entry_names(self.addresses@)
    }

    /// Whether the table declares the name.
    pub open spec fn declares(self, n: Seq<char>) -> bool {
        exists|i: int| 0 <= i < self.addresses@.len() && (#[trigger] self.addresses@[i]).0@ == n
    }

    /// Scans the table for a name.
    pub fn contains_name(&self, name: &String) -> (r: bool)
        ensures
            r == self.declares(name@),
    {
        let n = self.addresses.len();
        let mut i: usize = 0;
        while i < n
            invariant
                i <= n,
                n == self.addresses@.len(),
                forall|k: int| 0 <= k < i ==> (#[trigger] self.addresses@[k]).0@ != name@,
            decreases n - i,
        {
            if self.addresses[i].0.eq(name) {
                proof {
                    assert(self.addresses@[i as int].0@ == name@);
                }
                return true;
            }
            i += 1;
        }
        false
    }
}

/// Checks that a package's manifest declares the address name assigned to
/// it, and prepares the table for resolution: in `Object` mode the package's
/// own entry is dropped, because it is implicitly bound to the object
/// address this very deployment creates.
pub fn get_named_addresses(
    move_toml: MoveTomlFile,
    module_location: &String,
    address_name: &String,
    module_type: DeployModuleType,
) -> (r: Result<MoveTomlFile, DeployError>)
    ensures
        r is Ok <==> move_toml.declares(address_name@),
        r matches Ok(t) ==> (module_type is Account ==> t == move_toml),
        r matches Ok(t) ==> (module_type is Object ==> t.addresses@ == move_toml.addresses@.filter(
            keeps_other_names(address_name@),
        )),
        r matches Err(e) ==> (e matches DeployError::AddressNameNotInManifest {
            address_name: an,
            module_location: ml,
        } && an@ == address_name@ && ml@ == module_location@),
{
    if !move_toml.contains_name(address_name) {
        return Err(
            DeployError::AddressNameNotInManifest {
                address_name: address_name.clone(),
                module_location: module_location.clone(),
            },
        );
    }
    match module_type {
        DeployModuleType::Account => Ok(move_toml),
        DeployModuleType::Object => {
            let ghost orig = move_toml.addresses@;
            let ghost pred = keeps_other_names(address_name@);
            let mut rest = move_toml.addresses;
            let mut kept: Vec<(String, String)> = Vec::new();
            let n = rest.len();
            proof {
                reveal(Seq::filter);
                assert(kept@ =~= orig.take(0).filter(pred));
            }
            let mut i: usize = 0;
            while i < n
                invariant
                    i <= n,
                    n == orig.len(),
                    pred == keeps_other_names(address_name@),
                    rest@ == orig.skip(i as int),
                    kept@ == orig.take(i as int).filter(pred),
                decreases n - i,
            {
                let pair = rest.remove(0);
                proof {
                    reveal(Seq::filter);
                    assert(pair == orig[i as int]);
                    assert(rest@ =~= orig.skip(i + 1));
                    assert(orig.take(i + 1).drop_last() =~= orig.take(i as int));
                    assert(orig.take(i + 1).last() == orig[i as int]);
                    assert(orig.take(i + 1).filter(pred) == if pred(orig[i as int]) {
                        orig.take(i as int).filter(pred).push(orig[i as int])
                    } else {
                        orig.take(i as int).filter(pred)
                    });
                }
                if !pair.0.eq(address_name) {
                    kept.push(pair);
                }
                i += 1;
            }
            proof {
                assert(orig.take(n as int) =~= orig);
            }
            Ok(MoveTomlFile { addresses: kept })
        },
    }
}

} // verus!
