//! What is known of each of some virtual machines.
use vstd::prelude::*;

use crate::keys::VmId;

verus! {

/// What `machines` hold of a virtual machine; the first entry counts.
pub open spec fn machine_of<M>(machines: Seq<(VmId, M)>, vm_id: VmId) -> Option<M>
    decreases machines.len(),
{
    if machines.len() == 0 {
        None
    } else if machines[0].0 == vm_id {
        Some(machines[0].1)
    } else {
        machine_of(machines.drop_first(), vm_id)
    }
}

/// What `machines` hold of a virtual machine.
pub fn find_machine<M>(machines: &Vec<(VmId, M)>, vm_id: VmId) -> (found: Option<&M>)
    ensures
        match found {
            Some(machine) => machine_of(machines@, vm_id) == Some(*machine),
            None => machine_of(machines@, vm_id) is None,
        },
{
    let mut i: usize = 0;
    assert(machines@.skip(0) =~= machines@);
    while i < machines.len()
        invariant
            i <= machines@.len(),
            machine_of(machines@, vm_id) == machine_of(machines@.skip(i as int), vm_id),
        decreases machines@.len() - i,
    {
        assert(machines@.skip(i as int).drop_first() =~= machines@.skip(i + 1));
        if machines[i].0 == vm_id {
            return Some(&machines[i].1);
        }
        i = i + 1;
    }
    None
}

} // verus!
