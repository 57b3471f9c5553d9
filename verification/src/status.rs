//! Deployment status of cataloged containers.
//!
//! Classifies each container of each challenge against the fleet
//! snapshot: running, stopped, or not deployed at all.

use vstd::prelude::*;

use crate::fly::MachineInfo;
use crate::reconcile::{find_machine, has_machine, machine_index};
use crate::seq_view;
use vstd::string::StringExecFns;

verus! {

/// The observed lifecycle state of one container's machine.
#[derive(Debug, PartialEq, Eq, Clone, Copy)]
pub enum MachineState {
    /// No machine carries the container's derived name.
    NotDeployed,
    /// A machine exists but does not report the running state.
    Stopped,
    /// The machine reports the running state.
    Started,
}

/// The state classification of the machine named `name`, judged by the
/// first machine of the snapshot carrying that name.
pub open spec fn state_of(ms: Seq<crate::fly::MachineInfoModel>, name: Seq<char>) -> MachineState {
    if !has_machine(ms, name) {
        MachineState::NotDeployed
    } else if ms[machine_index(ms, name)].state == "started"@ {
        MachineState::Started
    } else {
        MachineState::Stopped
    }
}

/// Classifies the machine named `name` against the fleet snapshot.
pub fn machine_state(machines: &Vec<MachineInfo>, name: &String) -> (r: MachineState)
    ensures
        r == state_of(seq_view(machines@), name@),
{
    match find_machine(machines, name) {
        Some(j) => {
            proof {
                assert(seq_view(machines@)[j as int] == machines@[j as int]@);
            }
            let started = String::from_str("started");
            if machines[j].state == started {
                MachineState::Started
            } else {
                MachineState::Stopped
            }
        },
        None => MachineState::NotDeployed,
    }
}

/// The plain word shown for a state.
pub fn state_word(s: MachineState) -> (r: String)
    ensures
        s == MachineState::Started ==> r@ == "started"@,
        s == MachineState::Stopped ==> r@ == "stopped"@,
        s == MachineState::NotDeployed ==> r@ == "not deployed"@,
{
    match s {
        MachineState::Started => String::from_str("started"),
        MachineState::Stopped => String::from_str("stopped"),
        MachineState::NotDeployed => String::from_str("not deployed"),
    }
}

} // verus!
