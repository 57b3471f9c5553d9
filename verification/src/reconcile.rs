//! The machine reconciler.
//!
//! Given the fleet snapshot taken once at the start of a run and one
//! desired container, it decides the single effect that converges that
//! container: create a machine under the derived name where none exists,
//! update the existing machine in place otherwise.  It never deletes.

use vstd::prelude::*;

use crate::challenge::{derived_machine_name, derived_name, mem_ok};
use crate::challenge::{Challenge, ChallengeModel, Container};
use crate::errors::ConfigError;
use crate::fly::{image_tag, machine_config_for, AllocatedResourcesModel};
use crate::fly::{MachineConfig, MachineConfigModel, MachineInfo, MachineInfoModel};
use crate::{entries_view, opt_entries_view, seq_view};
use vstd::string::StringExecFns;

verus! {

/// The one remote effect planned for a desired container.
#[derive(Debug, PartialEq, Eq)]
pub enum MachineAction {
    /// No machine carries the derived name: create one under it.
    Create { name: String, config: MachineConfig },
    /// A machine carries the derived name: update it under its existing
    /// remote identity, which never changes.
    Update { id: String, config: MachineConfig },
}

/// Model of `MachineAction`.
#[verifier::ext_equal]
pub enum MachineActionModel {
    Create { name: Seq<char>, config: MachineConfigModel },
    Update { id: Seq<char>, config: MachineConfigModel },
}

impl View for MachineAction {
    type V = MachineActionModel;

    open spec fn view(&self) -> MachineActionModel {
        match self {
            MachineAction::Create { name, config } => MachineActionModel::Create {
                name: name@,
                config: config@,
            },
            MachineAction::Update { id, config } => MachineActionModel::Update {
                id: id@,
                config: config@,
            },
        }
    }
}

/// Whether some machine of the fleet carries `name`.
pub open spec fn has_machine(ms: Seq<MachineInfoModel>, name: Seq<char>) -> bool {
    exists|i: int| 0 <= i < ms.len() && ms[i].name == name
}

/// Index of the first machine of the fleet carrying `name`.
pub open spec fn machine_index(ms: Seq<MachineInfoModel>, name: Seq<char>) -> int
    decreases ms,
{
    if ms.len() == 0 {
        0
    } else if ms[0].name == name {
        0
    } else {
        1 + machine_index(ms.drop_first(), name)
    }
}

pub proof fn lemma_machine_index(ms: Seq<MachineInfoModel>, name: Seq<char>)
    requires
        has_machine(ms, name),
    ensures
        0 <= machine_index(ms, name) < ms.len(),
        ms[machine_index(ms, name)].name == name,
        forall|i: int| 0 <= i < machine_index(ms, name) ==> ms[i].name != name,
    decreases ms,
{
    if ms.len() > 0 && ms[0].name != name {
        let d = ms.drop_first();
        let w = choose|i: int| 0 <= i < ms.len() && ms[i].name == name;
        assert(d[w - 1].name == name);
        lemma_machine_index(d, name);
        assert forall|i: int| 0 <= i < machine_index(ms, name) implies ms[i].name != name by {
            if i > 0 {
                assert(d[i - 1].name != name);
            }
        }
    }
}

proof fn lemma_machine_index_converse(ms: Seq<MachineInfoModel>, name: Seq<char>, j: int)
    requires
        0 <= j < ms.len(),
        ms[j].name == name,
        forall|i: int| 0 <= i < j ==> ms[i].name != name,
    ensures
        has_machine(ms, name),
        machine_index(ms, name) == j,
    decreases ms,
{
    if j > 0 {
        let d = ms.drop_first();
        assert forall|i: int| 0 <= i < j - 1 implies d[i].name != name by {
            assert(ms[i + 1].name != name);
        }
        lemma_machine_index_converse(d, name, j - 1);
    }
}

/// The reconciler's decision for one desired name and configuration.
pub open spec fn plan_decision(
    ms: Seq<MachineInfoModel>,
    name: Seq<char>,
    config: MachineConfigModel,
) -> MachineActionModel {
    if has_machine(ms, name) {
        MachineActionModel::Update { id: ms[machine_index(ms, name)].id, config }
    } else {
        MachineActionModel::Create { name, config }
    }
}

/// Finds the first machine of the snapshot carrying `name`.
pub fn find_machine(machines: &Vec<MachineInfo>, name: &String) -> (r: Option<usize>)
    ensures
        match r {
            Some(j) => has_machine(seq_view(machines@), name@) && j == machine_index(
                seq_view(machines@),
                name@,
            ) && j < machines@.len(),
            None => !has_machine(seq_view(machines@), name@),
        },
{
    let ghost mm = seq_view(machines@);
    let mut j: usize = 0;
    while j < machines.len()
        invariant
            j <= machines.len(),
            mm == seq_view(machines@),
            mm.len() == machines@.len(),
            forall|i: int| 0 <= i < j ==> mm[i].name != name@,
        decreases machines.len() - j,
    {
        proof {
            assert(mm[j as int] == machines@[j as int]@);
        }
        if machines[j].name == *name {
            proof {
                lemma_machine_index_converse(mm, name@, j as int);
            }
            return Some(j);
        }
        j += 1;
    }
    None
}

/// Plans the one effect for a desired machine name: update in place where
/// the name exists, create under the derived name where it does not.
pub fn plan_machine(machines: &Vec<MachineInfo>, name: String, config: MachineConfig) -> (a:
    MachineAction)
    ensures
        a@ == plan_decision(seq_view(machines@), name@, config@),
{
    match find_machine(machines, &name) {
        Some(j) => {
            proof {
                assert(seq_view(machines@)[j as int] == machines@[j as int]@);
            }
            MachineAction::Update { id: machines[j].id.clone(), config }
        },
        None => MachineAction::Create { name, config },
    }
}

/// Plans the one effect for a desired container of a challenge, after the
/// memory check: the memory limit is validated before any remote call, and
/// an invalid limit fails this container alone, naming it.  The planned
/// configuration carries the container's declared environment variables.
pub fn plan_container(
    machines: &Vec<MachineInfo>,
    chall: &Challenge,
    cname: &String,
    container: &Container,
    repo: &str,
) -> (r: Result<MachineAction, ConfigError>)
    ensures
        match r {
            Ok(a) => mem_ok(container.limits.mem) && a@ == plan_decision(
                seq_view(machines@),
                derived_name(chall.id@, cname@),
                MachineConfigModel {
                    image: repo@ + ":"@ + derived_name(chall.id@, cname@),
                    auto_destroy: None,
                    env: opt_entries_view(container.env),
                    guest: Some(
                        AllocatedResourcesModel {
                            cpu_kind: "shared"@,
                            cpus: container.limits.cpu,
                            kernel_args: None,
                            memory_mb: container.limits.mem,
                        },
                    ),
                    services: None,
                },
            ),
            Err(e) => !mem_ok(container.limits.mem) && e == (ConfigError::InvalidMemory {
                service: chall.id,
                container: *cname,
                mem: match container.limits.mem {
                    Some(m) => m,
                    None => 0,
                },
            }),
        },
{
    if !container.limits.mem_valid() {
        let m = match container.limits.mem {
            Some(m) => m,
            None => 0,
        };
        return Err(
            ConfigError::InvalidMemory {
                service: chall.id.clone(),
                container: cname.clone(),
                mem: m,
            },
        );
    }
    let name = chall.container_id(cname.as_str());
    let image = image_tag(repo, name.as_str());
    let env = container.clone().env;
    let config = machine_config_for(image, container.limits, env);
    Ok(plan_machine(machines, name, config))
}

/// Whether the distinguished ingress machine must be created: only when no
/// machine named `ingress` exists; an existing ingress is never rebuilt.
pub fn ingress_missing(machines: &Vec<MachineInfo>) -> (r: bool)
    ensures
        r == !has_machine(seq_view(machines@), "ingress"@),
{
    let ingress = String::from_str("ingress");
    find_machine(machines, &ingress).is_none()
}

/// The configuration the ingress machine is first created with: the
/// `repo:ingress` image and nothing else.
pub fn ingress_create_config(repo: &str) -> (r: MachineConfig)
    ensures
        r@ == (MachineConfigModel {
            image: repo@ + ":"@ + "ingress"@,
            auto_destroy: None,
            env: None,
            guest: None,
            services: None,
        }),
{
    let image = image_tag(repo, "ingress");
    MachineConfig { image, auto_destroy: None, env: None, guest: None, services: None }
}

/// The (service id, container name) pairs of one challenge, in
/// declaration order.
pub open spec fn container_pairs_of(c: ChallengeModel) -> Seq<(Seq<char>, Seq<char>)> {
    Seq::new(c.containers.len(), |i: int| (c.id, c.containers[i].0))
}

/// The (service id, container name) pairs of a whole selection, in
/// selection order.
pub open spec fn flat_pairs(cs: Seq<ChallengeModel>) -> Seq<(Seq<char>, Seq<char>)>
    decreases cs,
{
    if cs.len() == 0 {
        Seq::empty()
    } else {
        container_pairs_of(cs[0]) + flat_pairs(cs.drop_first())
    }
}

proof fn lemma_flat_pairs_push(cs: Seq<ChallengeModel>, c: ChallengeModel)
    ensures
        flat_pairs(cs.push(c)) == flat_pairs(cs) + container_pairs_of(c),
    decreases cs.len(),
{
    let s = cs.push(c);
    if cs.len() == 0 {
        assert(s[0] == c);
        assert(s.drop_first() =~= Seq::<ChallengeModel>::empty());
        assert(flat_pairs(s.drop_first()) =~= Seq::<(Seq<char>, Seq<char>)>::empty());
        assert(flat_pairs(cs) =~= Seq::<(Seq<char>, Seq<char>)>::empty());
        assert(flat_pairs(s) =~= flat_pairs(cs) + container_pairs_of(c));
    } else {
        assert(s.drop_first() =~= cs.drop_first().push(c));
        lemma_flat_pairs_push(cs.drop_first(), c);
        assert(s[0] == cs[0]);
        assert(flat_pairs(s) == container_pairs_of(cs[0]) + flat_pairs(s.drop_first()));
        assert(flat_pairs(s.drop_first()) == flat_pairs(cs.drop_first()) + container_pairs_of(c));
        assert(flat_pairs(cs) == container_pairs_of(cs[0]) + flat_pairs(cs.drop_first()));
        assert(container_pairs_of(cs[0]) + (flat_pairs(cs.drop_first()) + container_pairs_of(c))
            =~= (container_pairs_of(cs[0]) + flat_pairs(cs.drop_first())) + container_pairs_of(
            c,
        ));
    }
}

/// Collects every (service id, container name) pair of the selection, in
/// selection order.
pub fn derived_pairs(challs: &Vec<Challenge>) -> (r: Vec<(String, String)>)
    ensures
        entries_view(r@) == flat_pairs(seq_view(challs@)),
{
    let ghost sv = seq_view(challs@);
    let mut out: Vec<(String, String)> = Vec::new();
    proof {
        assert(sv.take(0) =~= Seq::<ChallengeModel>::empty());
        assert(flat_pairs(sv.take(0)) =~= Seq::<(Seq<char>, Seq<char>)>::empty());
        assert(entries_view(out@) =~= flat_pairs(sv.take(0)));
    }
    let mut k: usize = 0;
    while k < challs.len()
        invariant
            k <= challs.len(),
            sv == seq_view(challs@),
            sv.len() == challs@.len(),
            entries_view(out@) == flat_pairs(sv.take(k as int)),
        decreases challs.len() - k,
    {
        proof {
            assert(sv[k as int] == challs@[k as int]@);
        }
        let ch = &challs[k];
        let mut i: usize = 0;
        while i < ch.containers.len()
            invariant
                i <= ch.containers.len(),
                k < challs@.len(),
                sv == seq_view(challs@),
                sv.len() == challs@.len(),
                *ch == challs@[k as int],
                sv[k as int] == challs@[k as int]@,
                container_pairs_of(sv[k as int]).len() == ch.containers@.len(),
                entries_view(out@) == flat_pairs(sv.take(k as int)) + container_pairs_of(
                    sv[k as int],
                ).take(i as int),
            decreases ch.containers.len() - i,
        {
            let e = (ch.id.clone(), ch.containers[i].0.clone());
            proof {
                crate::lemma_entries_view_push(out@, e);
                assert(container_pairs_of(sv[k as int])[i as int] == (
                    sv[k as int].id,
                    sv[k as int].containers[i as int].0,
                ));
                assert(sv[k as int].containers[i as int].0 == ch.containers@[i as int].0@);
                assert((flat_pairs(sv.take(k as int)) + container_pairs_of(sv[k as int]).take(
                    i as int,
                )).push((e.0@, e.1@)) =~= flat_pairs(sv.take(k as int)) + container_pairs_of(
                    sv[k as int],
                ).take(i as int + 1));
            }
            out.push(e);
            i += 1;
        }
        proof {
            assert(container_pairs_of(sv[k as int]).take(ch.containers@.len() as int)
                =~= container_pairs_of(sv[k as int]));
            assert(sv.take(k as int + 1) =~= sv.take(k as int).push(sv[k as int]));
            lemma_flat_pairs_push(sv.take(k as int), sv[k as int]);
        }
        k += 1;
    }
    proof {
        assert(sv.take(challs@.len() as int) =~= sv);
    }
    out
}

/// Validates, before any remote call, that no two distinct containers of
/// the selection derive the same machine name: the derived name is the
/// join key between desired and actual state, and an ambiguous one is a
/// configuration error naming both claimants, never a silent overwrite.
/// On success, derived names are injective over the whole selection.
pub fn check_derived_names(challs: &Vec<Challenge>) -> (r: Result<(), ConfigError>)
    ensures
        match r {
            Ok(_) => forall|a: int, b: int|
                0 <= a < b < flat_pairs(seq_view(challs@)).len() ==> derived_name(
                    #[trigger] flat_pairs(seq_view(challs@))[a].0,
                    flat_pairs(seq_view(challs@))[a].1,
                ) != derived_name(
                    #[trigger] flat_pairs(seq_view(challs@))[b].0,
                    flat_pairs(seq_view(challs@))[b].1,
                ),
            Err(e) => exists|a: int, b: int|
                0 <= a < b < flat_pairs(seq_view(challs@)).len() && derived_name(
                    flat_pairs(seq_view(challs@))[a].0,
                    flat_pairs(seq_view(challs@))[a].1,
                ) == derived_name(
                    flat_pairs(seq_view(challs@))[b].0,
                    flat_pairs(seq_view(challs@))[b].1,
                ) && (e matches ConfigError::AmbiguousDerivedName {
                    name,
                    first_service,
                    first_container,
                    second_service,
                    second_container,
                } && name@ == derived_name(
                    flat_pairs(seq_view(challs@))[b].0,
                    flat_pairs(seq_view(challs@))[b].1,
                ) && first_service@ == flat_pairs(seq_view(challs@))[a].0 && first_container@
                    == flat_pairs(seq_view(challs@))[a].1 && second_service@ == flat_pairs(
                    seq_view(challs@),
                )[b].0 && second_container@ == flat_pairs(seq_view(challs@))[b].1),
        },
{
    let pairs = derived_pairs(challs);
    let ghost fp = flat_pairs(seq_view(challs@));
    proof {
        assert(fp.len() == pairs@.len());
    }
    let mut names: Vec<String> = Vec::new();
    let mut j: usize = 0;
    while j < pairs.len()
        invariant
            j <= pairs.len(),
            entries_view(pairs@) == fp,
            fp == flat_pairs(seq_view(challs@)),
            fp.len() == pairs@.len(),
            names@.len() == j,
            forall|i: int| 0 <= i < j ==> names@[i]@ == derived_name(
                #[trigger] fp[i].0,
                fp[i].1,
            ),
            forall|a: int, b: int| 0 <= a < b < j ==> names@[a]@ != names@[b]@,
        decreases pairs.len() - j,
    {
        proof {
            assert(entries_view(pairs@)[j as int] == (
                pairs@[j as int].0@,
                pairs@[j as int].1@,
            ));
        }
        let n = derived_machine_name(pairs[j].0.as_str(), pairs[j].1.as_str());
        let mut i: usize = 0;
        while i < names.len()
            invariant
                i <= names.len(),
                j < pairs@.len(),
                entries_view(pairs@) == fp,
                fp == flat_pairs(seq_view(challs@)),
                fp.len() == pairs@.len(),
                names@.len() == j,
                n@ == derived_name(fp[j as int].0, fp[j as int].1),
                forall|i2: int| 0 <= i2 < j ==> names@[i2]@ == derived_name(
                    #[trigger] fp[i2].0,
                    fp[i2].1,
                ),
                forall|i2: int| 0 <= i2 < i ==> names@[i2]@ != n@,
            decreases names.len() - i,
        {
            if names[i] == n {
                proof {
                    assert(entries_view(pairs@)[i as int] == (
                        pairs@[i as int].0@,
                        pairs@[i as int].1@,
                    ));
                    assert(derived_name(fp[i as int].0, fp[i as int].1) == derived_name(
                        fp[j as int].0,
                        fp[j as int].1,
                    ));
                }
                return Err(
                    ConfigError::AmbiguousDerivedName {
                        name: n,
                        first_service: pairs[i].0.clone(),
                        first_container: pairs[i].1.clone(),
                        second_service: pairs[j].0.clone(),
                        second_container: pairs[j].1.clone(),
                    },
                );
            }
            i += 1;
        }
        names.push(n);
        j += 1;
    }
    proof {
        assert forall|a: int, b: int| 0 <= a < b < fp.len() implies derived_name(
            #[trigger] fp[a].0,
            fp[a].1,
        ) != derived_name(#[trigger] fp[b].0, fp[b].1) by {
            assert(names@[a]@ == derived_name(fp[a].0, fp[a].1));
            assert(names@[b]@ == derived_name(fp[b].0, fp[b].1));
            assert(names@[a]@ != names@[b]@);
        }
    }
    Ok(())
}

/// Re-running the reconciler yields zero additional creates: once the
/// fleet reflects the first run's effects (no machine was deleted, and
/// every name the first run created now exists), the same desired set
/// plans only updates.
pub proof fn lemma_reconcile_idempotent(
    ms1: Seq<MachineInfoModel>,
    ms2: Seq<MachineInfoModel>,
    desired: Seq<(Seq<char>, MachineConfigModel)>,
)
    requires
        forall|n: Seq<char>| has_machine(ms1, n) ==> has_machine(ms2, n),
        forall|k: int|
            0 <= k < desired.len() && (#[trigger] plan_decision(
                ms1,
                desired[k].0,
                desired[k].1,
            ) matches MachineActionModel::Create { .. }) ==> has_machine(ms2, desired[k].0),
    ensures
        forall|k: int|
            0 <= k < desired.len() ==> (#[trigger] plan_decision(
                ms2,
                desired[k].0,
                desired[k].1,
            ) matches MachineActionModel::Update { .. }),
{
    assert forall|k: int| 0 <= k < desired.len() implies (#[trigger] plan_decision(
        ms2,
        desired[k].0,
        desired[k].1,
    ) matches MachineActionModel::Update { .. }) by {
        let n = desired[k].0;
        if has_machine(ms1, n) {
            assert(has_machine(ms2, n));
        } else {
            assert(plan_decision(ms1, desired[k].0, desired[k].1)
                matches MachineActionModel::Create { .. });
            assert(has_machine(ms2, n));
        }
    }
}

} // verus!
