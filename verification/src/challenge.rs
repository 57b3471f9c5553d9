//! The challenge catalog model.
//!
//! A challenge is one deployable service, identified by `category/name`;
//! each of its containers maps to exactly one remote machine whose name is
//! derived deterministically here.

use vstd::prelude::*;

use crate::errors::ConfigError;
use crate::text::{chars_of, push_chars, string_from_chars};
use crate::{entries_view, model_keys_unique, opt_entries_view, opt_vec_view, seq_view};

verus! {

/// One file or folder handed out to players alongside the challenge text.
#[derive(Debug, PartialEq, Eq)]
pub enum Attachment {
    /// A file, attached under its own file name.
    File(String),
    /// A file, attached under the given name.
    Named { file: String, alias: String },
    /// A folder, packed into an archive, with some entries excluded.
    Folder { dir: String, alias: Option<String>, exclude: Vec<String> },
}

/// Model of an attachment.
#[verifier::ext_equal]
pub enum AttachmentModel {
    File(Seq<char>),
    Named { file: Seq<char>, alias: Seq<char> },
    Folder { dir: Seq<char>, alias: Option<Seq<char>>, exclude: Seq<Seq<char>> },
}

impl View for Attachment {
    type V = AttachmentModel;

    open spec fn view(&self) -> AttachmentModel {
        match *self {
            Attachment::File(f) => AttachmentModel::File(f@),
            Attachment::Named { file, alias } => AttachmentModel::Named {
                file: file@,
                alias: alias@,
            },
            Attachment::Folder { dir, alias, exclude } => AttachmentModel::Folder {
                dir: dir@,
                alias: match alias {
                    Some(a) => Some(a@),
                    None => None,
                },
                exclude: seq_view(exclude@),
            },
        }
    }
}

/// Resource limits of one container.
#[derive(Debug, PartialEq, Eq, Clone, Copy)]
pub struct Limits {
    pub cpu: Option<u32>,
    pub mem: Option<u32>,
}

impl View for Limits {
    type V = Limits;

    open spec fn view(&self) -> Limits {
        *self
    }
}

/// One buildable image and its runtime shape within a challenge.
#[derive(Debug, PartialEq, Eq)]
pub struct Container {
    /// Build context directory, relative to the challenge directory.
    pub build: String,
    pub limits: Limits,
    pub ports: Option<Vec<u32>>,
    pub env: Option<Vec<(String, String)>>,
}

/// Model of a container.
#[verifier::ext_equal]
pub struct ContainerModel {
    pub build: Seq<char>,
    pub limits: Limits,
    pub ports: Option<Seq<u32>>,
    pub env: Option<Seq<(Seq<char>, Seq<char>)>>,
}

impl View for Container {
    type V = ContainerModel;

    open spec fn view(&self) -> ContainerModel {
        ContainerModel {
            build: self.build@,
            limits: self.limits,
            ports: opt_vec_view(self.ports),
            env: opt_entries_view(self.env),
        }
    }
}

/// A declared public reachability rule for one container.
#[derive(Debug, PartialEq, Eq)]
pub enum Expose {
    /// Raw TCP: public port `tcp` forwards to internal port `target`.
    Tcp { target: u32, tcp: u32 },
    /// HTTP: subdomain label `http` routes to internal port `target`.
    Http { target: u32, http: String },
}

/// Model of an exposure.
#[verifier::ext_equal]
pub enum ExposeModel {
    Tcp { target: u32, tcp: u32 },
    Http { target: u32, http: Seq<char> },
}

impl View for Expose {
    type V = ExposeModel;

    open spec fn view(&self) -> ExposeModel {
        match *self {
            Expose::Tcp { target, tcp } => ExposeModel::Tcp { target, tcp },
            Expose::Http { target, http } => ExposeModel::Http { target, http: http@ },
        }
    }
}

/// One deployable challenge of the catalog.
#[derive(Debug, PartialEq, Eq)]
pub struct Challenge {
    /// Identity `category/name`, derived from the directory position.
    pub id: String,
    pub name: String,
    pub author: String,
    pub description: String,
    pub flag: String,
    pub hidden: Option<bool>,
    pub provide: Option<Vec<Attachment>>,
    /// Containers by name, in declaration order, names unique.
    pub containers: Vec<(String, Container)>,
    /// Exposures by container name, at most one per container.
    pub expose: Vec<(String, Expose)>,
}

/// Model of a challenge.
#[verifier::ext_equal]
pub struct ChallengeModel {
    pub id: Seq<char>,
    pub name: Seq<char>,
    pub author: Seq<char>,
    pub description: Seq<char>,
    pub flag: Seq<char>,
    pub hidden: Option<bool>,
    pub provide: Option<Seq<AttachmentModel>>,
    pub containers: Seq<(Seq<char>, ContainerModel)>,
    pub expose: Seq<(Seq<char>, ExposeModel)>,
}

impl View for Challenge {
    type V = ChallengeModel;

    open spec fn view(&self) -> ChallengeModel {
        ChallengeModel {
            id: self.id@,
            name: self.name@,
            author: self.author@,
            description: self.description@,
            flag: self.flag@,
            hidden: self.hidden,
            provide: match self.provide {
                Some(v) => Some(seq_view(v@)),
                None => None,
            },
            containers: entries_view(self.containers@),
            expose: entries_view(self.expose@),
        }
    }
}

impl ChallengeModel {
    /// A well-formed challenge names each container and exposure once.
    pub open spec fn wf(self) -> bool {
        model_keys_unique(self.containers) && model_keys_unique(self.expose)
    }
}

/// The id with every path separator replaced by a hyphen.
pub open spec fn dash_for_slash(s: Seq<char>) -> Seq<char> {
    Seq::new(
        s.len(),
        |i: int|
            if s[i] == '/' {
                '-'
            } else {
                s[i]
            },
    )
}

/// The machine name derived for container `cname` of service `id`:
/// the id with separators replaced, a hyphen, then the container name.
/// This is the join key between desired and actual state; a run refuses
/// two distinct containers deriving one name (see
/// `reconcile::check_derived_names`) before touching remote state.
pub open spec fn derived_name(id: Seq<char>, cname: Seq<char>) -> Seq<char> {
    dash_for_slash(id) + seq!['-'] + cname
}

/// A memory limit is acceptable exactly when it is declared and a strictly
/// positive multiple of 256.
pub open spec fn mem_ok(mem: Option<u32>) -> bool {
    mem matches Some(m) && m > 0 && m % 256 == 0
}

impl Limits {
    /// Checks the memory limit before any remote call is made.
    pub fn mem_valid(&self) -> (r: bool)
        ensures
            r == mem_ok(self.mem),
    {
        match self.mem {
            Some(m) => m > 0 && m % 256 == 0,
            None => false,
        }
    }
}

/// The identity of a service: the catalog directory's last two
/// components, `category/name`.
pub fn service_id(category: &str, name: &str) -> (r: String)
    ensures
        r@ == category@ + "/"@ + name@,
{
    let mut out: Vec<char> = Vec::new();
    push_chars(&mut out, category);
    push_chars(&mut out, "/");
    push_chars(&mut out, name);
    proof {
        assert(out@ =~= category@ + "/"@ + name@);
    }
    string_from_chars(&out)
}

/// Builds the machine name derived for container `cname` of service `id`.
pub fn derived_machine_name(id: &str, cname: &str) -> (r: String)
    ensures
        r@ == derived_name(id@, cname@),
{
    let idc = chars_of(id);
    let mut out: Vec<char> = Vec::new();
    let mut i: usize = 0;
    while i < idc.len()
        invariant
            i <= idc.len(),
            idc@ == id@,
            out@ == dash_for_slash(id@).take(i as int),
        decreases idc.len() - i,
    {
        let c = idc[i];
        let mapped: char = if c == '/' {
            '-'
        } else {
            c
        };
        proof {
            assert(dash_for_slash(id@)[i as int] == mapped);
            assert(dash_for_slash(id@).take(i as int).push(mapped) =~= dash_for_slash(id@).take(
                i as int + 1,
            ));
        }
        out.push(mapped);
        i += 1;
    }
    proof {
        assert(dash_for_slash(id@).take(idc@.len() as int) =~= dash_for_slash(id@));
    }
    out.push('-');
    push_chars(&mut out, cname);
    proof {
        assert(out@ =~= derived_name(id@, cname@));
    }
    string_from_chars(&out)
}

impl Challenge {
    /// The remote machine name of container `name`: the service id with
    /// path separators replaced by hyphens, a hyphen, and the container
    /// name.
    pub fn container_id(&self, name: &str) -> (r: String)
        ensures
            r@ == derived_name(self.id@, name@),
    {
        derived_machine_name(self.id.as_str(), name)
    }

    /// Finds the challenge named `chall` in a parsed catalog: `Ok` with a
    /// copy of that entry exactly when one carries the id, the
    /// unknown-challenge error otherwise.
    pub fn get(catalog: &Vec<Challenge>, chall: &String) -> (r: Result<Challenge, ConfigError>)
        ensures
            match r {
                Ok(c) => c.id@ == chall@ && exists|i: int|
                    0 <= i < catalog@.len() && catalog@[i]@ == c@,
                Err(e) => (forall|i: int| 0 <= i < catalog@.len() ==> catalog@[i].id@ != chall@)
                    && e == (ConfigError::UnknownChallenge { name: *chall }),
            },
    {
        let mut i: usize = 0;
        while i < catalog.len()
            invariant
                i <= catalog.len(),
                forall|j: int| 0 <= j < i ==> catalog@[j].id@ != chall@,
            decreases catalog.len() - i,
        {
            if catalog[i].id == *chall {
                let c = catalog[i].clone();
                return Ok(c);
            }
            i += 1;
        }
        Err(ConfigError::UnknownChallenge { name: chall.clone() })
    }

    /// Copies out the whole parsed catalog: every deployment over "all
    /// services" starts from this list.
    pub fn get_all(catalog: &Vec<Challenge>) -> (r: Vec<Challenge>)
        ensures
            seq_view(r@) == seq_view(catalog@),
    {
        broadcast use crate::lemma_seq_view_push, crate::lemma_seq_view_take;

        let mut out: Vec<Challenge> = Vec::new();
        let mut i: usize = 0;
        while i < catalog.len()
            invariant
                i <= catalog.len(),
                seq_view(out@) == seq_view(catalog@).take(i as int),
            decreases catalog.len() - i,
        {
            let c = catalog[i].clone();
            proof {
                crate::lemma_seq_view_push(out@, c);
                assert(seq_view(catalog@)[i as int] == catalog@[i as int]@);
                assert(seq_view(catalog@).take(i as int).push(c@) =~= seq_view(catalog@).take(
                    i as int + 1,
                ));
                assert(seq_view(out@.push(c)) == seq_view(catalog@).take(i as int + 1));
            }
            out.push(c);
            i += 1;
        }
        proof {
            assert(seq_view(catalog@).take(catalog@.len() as int) =~= seq_view(catalog@));
        }
        out
    }

    /// Selects the named subset of a parsed catalog, in request order; an
    /// unknown name fails the whole selection before any work begins.
    pub fn get_some(catalog: &Vec<Challenge>, challs: &Vec<String>) -> (r: Result<
        Vec<Challenge>,
        ConfigError,
    >)
        ensures
            match r {
                Ok(cs) => cs@.len() == challs@.len() && forall|k: int|
                    0 <= k < cs@.len() ==> (cs@[k].id@ == challs@[k]@ && exists|i: int|
                        0 <= i < catalog@.len() && catalog@[i]@ == cs@[k]@),
                Err(e) => exists|k: int|
                    0 <= k < challs@.len() && e == (ConfigError::UnknownChallenge {
                        name: challs@[k],
                    }) && forall|i: int| 0 <= i < catalog@.len() ==> catalog@[i].id@ != challs@[k]@,
            },
    {
        let mut out: Vec<Challenge> = Vec::new();
        let mut k: usize = 0;
        while k < challs.len()
            invariant
                k <= challs.len(),
                out@.len() == k,
                forall|j: int|
                    0 <= j < k ==> (out@[j].id@ == challs@[j]@ && exists|i: int|
                        0 <= i < catalog@.len() && catalog@[i]@ == out@[j]@),
            decreases challs.len() - k,
        {
            match Self::get(catalog, &challs[k]) {
                Ok(c) => {
                    out.push(c);
                },
                Err(e) => {
                    return Err(e);
                },
            }
            k += 1;
        }
        Ok(out)
    }
}

/// Derived machine names are injective a priori for hyphen-free service
/// ids and container names: two such containers can never share a machine
/// name unless they are the same container of the same service.  For
/// catalogs with hyphen-bearing components the scheme can collide, so a
/// run additionally validates the whole selection with
/// `reconcile::check_derived_names` before any remote call.
pub proof fn lemma_derived_name_injective(
    id1: Seq<char>,
    c1: Seq<char>,
    id2: Seq<char>,
    c2: Seq<char>,
)
    requires
        !id1.contains('-'),
        !id2.contains('-'),
        !c1.contains('-'),
        !c2.contains('-'),
        derived_name(id1, c1) == derived_name(id2, c2),
    ensures
        id1 == id2,
        c1 == c2,
{
    let s = derived_name(id1, c1);
    assert(s.len() == id1.len() + 1 + c1.len());
    assert(derived_name(id2, c2).len() == id2.len() + 1 + c2.len());
    if id1.len() < id2.len() {
        let p = id2.len() as int;
        assert(derived_name(id2, c2)[p] == '-');
        assert(s[p] == c1[p - id1.len() - 1]);
        assert(c1.contains('-'));
        assert(false);
    }
    if id2.len() < id1.len() {
        let p = id1.len() as int;
        assert(s[p] == '-');
        assert(derived_name(id2, c2)[p] == c2[p - id2.len() - 1]);
        assert(c2.contains('-'));
        assert(false);
    }
    let n = id1.len() as int;
    assert forall|i: int| 0 <= i < n implies id1[i] == id2[i] by {
        assert(s[i] == dash_for_slash(id1)[i]);
        assert(derived_name(id2, c2)[i] == dash_for_slash(id2)[i]);
        if id1[i] == '/' {
            if id2[i] != '/' {
                assert(id2[i] == '-');
                assert(id2.contains('-'));
            }
        } else {
            if id2[i] == '/' {
                assert(id1[i] == '-');
                assert(id1.contains('-'));
            }
        }
    }
    assert(id1 =~= id2);
    assert forall|i: int| 0 <= i < c1.len() implies c1[i] == c2[i] by {
        assert(s[n + 1 + i] == c1[i]);
        assert(derived_name(id2, c2)[n + 1 + i] == c2[i]);
    }
    assert(c1 =~= c2);
}

impl Clone for Attachment {
    /// Clones preserve the attachment's model.
    fn clone(&self) -> (res: Self)
        ensures
            res@ == self@,
    {
        match self {
            Attachment::File(f) => Attachment::File(f.clone()),
            Attachment::Named { file, alias } => Attachment::Named {
                file: file.clone(),
                alias: alias.clone(),
            },
            Attachment::Folder { dir, alias, exclude } => {
                let alias2 = match alias {
                    Some(a) => Some(a.clone()),
                    None => None,
                };
                let mut ex: Vec<String> = Vec::new();
                let mut i: usize = 0;
                while i < exclude.len()
                    invariant
                        i <= exclude.len(),
                        ex@ == exclude@.take(i as int),
                    decreases exclude.len() - i,
                {
                    proof {
                        assert(exclude@.take(i as int).push(exclude@[i as int]) =~= exclude@.take(
                            i as int + 1,
                        ));
                    }
                    ex.push(exclude[i].clone());
                    i += 1;
                }
                proof {
                    assert(exclude@.take(exclude@.len() as int) =~= exclude@);
                    assert(seq_view(ex@) =~= seq_view(exclude@));
                }
                let res = Attachment::Folder { dir: dir.clone(), alias: alias2, exclude: ex };
                proof {
                    assert(res@ =~= (*self)@);
                }
                res
            },
        }
    }
}

impl Clone for Expose {
    /// Clones preserve the exposure's model.
    fn clone(&self) -> (res: Self)
        ensures
            res@ == self@,
    {
        match self {
            Expose::Tcp { target, tcp } => Expose::Tcp { target: *target, tcp: *tcp },
            Expose::Http { target, http } => Expose::Http { target: *target, http: http.clone() },
        }
    }
}

impl Clone for Container {
    /// Clones preserve the container's model.
    fn clone(&self) -> (res: Self)
        ensures
            res@ == self@,
    {
        let ports2 = match &self.ports {
            Some(ps) => {
                let mut out: Vec<u32> = Vec::new();
                let mut i: usize = 0;
                while i < ps.len()
                    invariant
                        i <= ps.len(),
                        out@ == ps@.take(i as int),
                    decreases ps.len() - i,
                {
                    proof {
                        assert(ps@.take(i as int).push(ps@[i as int]) =~= ps@.take(i as int + 1));
                    }
                    out.push(ps[i]);
                    i += 1;
                }
                proof {
                    assert(ps@.take(ps@.len() as int) =~= ps@);
                }
                Some(out)
            },
            None => None,
        };
        let env2 = match &self.env {
            Some(es) => {
                let mut out: Vec<(String, String)> = Vec::new();
                let mut i: usize = 0;
                while i < es.len()
                    invariant
                        i <= es.len(),
                        out@ == es@.take(i as int),
                    decreases es.len() - i,
                {
                    proof {
                        assert(es@.take(i as int).push(es@[i as int]) =~= es@.take(i as int + 1));
                    }
                    out.push((es[i].0.clone(), es[i].1.clone()));
                    i += 1;
                }
                proof {
                    assert(es@.take(es@.len() as int) =~= es@);
                }
                Some(out)
            },
            None => None,
        };
        let res = Container {
            build: self.build.clone(),
            limits: self.limits,
            ports: ports2,
            env: env2,
        };
        proof {
            assert(res@ =~~= (*self)@);
        }
        res
    }
}

impl Clone for Challenge {
    /// Clones preserve the challenge's model.
    fn clone(&self) -> (res: Self)
        ensures
            res@ == self@,
    {
        broadcast use crate::lemma_seq_view_push, crate::lemma_seq_view_take,
            crate::lemma_entries_view_push, crate::lemma_entries_view_take;

        let provide2 = match &self.provide {
            Some(ats) => {
                let mut out: Vec<Attachment> = Vec::new();
                let mut i: usize = 0;
                while i < ats.len()
                    invariant
                        i <= ats.len(),
                        seq_view(out@) == seq_view(ats@).take(i as int),
                    decreases ats.len() - i,
                {
                    let a = ats[i].clone();
                    proof {
                        crate::lemma_seq_view_push(out@, a);
                        assert(a@ == ats@[i as int]@);
                        assert(seq_view(ats@)[i as int] == ats@[i as int]@);
                        assert(seq_view(ats@).take(i as int).push(a@) =~= seq_view(ats@).take(
                            i as int + 1,
                        ));
                        assert(seq_view(out@.push(a)) == seq_view(ats@).take(i as int + 1));
                    }
                    out.push(a);
                    i += 1;
                }
                proof {
                    assert(seq_view(ats@).take(ats@.len() as int) =~= seq_view(ats@));
                }
                Some(out)
            },
            None => None,
        };
        let mut containers2: Vec<(String, Container)> = Vec::new();
        let mut i: usize = 0;
        while i < self.containers.len()
            invariant
                i <= self.containers.len(),
                entries_view(containers2@) == entries_view(self.containers@).take(i as int),
            decreases self.containers.len() - i,
        {
            let e = (self.containers[i].0.clone(), self.containers[i].1.clone());
            proof {
                crate::lemma_entries_view_push(containers2@, e);
                assert(entries_view(self.containers@)[i as int] == (
                    self.containers@[i as int].0@,
                    self.containers@[i as int].1@,
                ));
                assert(entries_view(self.containers@).take(i as int).push((e.0@, e.1@))
                    =~= entries_view(self.containers@).take(i as int + 1));
                assert(entries_view(containers2@.push(e)) == entries_view(
                    self.containers@,
                ).take(i as int + 1));
            }
            containers2.push(e);
            i += 1;
        }
        proof {
            assert(entries_view(self.containers@).take(self.containers@.len() as int)
                =~= entries_view(self.containers@));
        }
        let mut expose2: Vec<(String, Expose)> = Vec::new();
        let mut j: usize = 0;
        while j < self.expose.len()
            invariant
                j <= self.expose.len(),
                entries_view(expose2@) == entries_view(self.expose@).take(j as int),
            decreases self.expose.len() - j,
        {
            let e = (self.expose[j].0.clone(), self.expose[j].1.clone());
            proof {
                crate::lemma_entries_view_push(expose2@, e);
                assert(entries_view(self.expose@)[j as int] == (
                    self.expose@[j as int].0@,
                    self.expose@[j as int].1@,
                ));
                assert(entries_view(self.expose@).take(j as int).push((e.0@, e.1@))
                    =~= entries_view(self.expose@).take(j as int + 1));
                assert(entries_view(expose2@.push(e)) == entries_view(self.expose@).take(
                    j as int + 1,
                ));
            }
            expose2.push(e);
            j += 1;
        }
        proof {
            assert(entries_view(self.expose@).take(self.expose@.len() as int) =~= entries_view(
                self.expose@,
            ));
        }
        let res = Challenge {
            id: self.id.clone(),
            name: self.name.clone(),
            author: self.author.clone(),
            description: self.description.clone(),
            flag: self.flag.clone(),
            hidden: self.hidden,
            provide: provide2,
            containers: containers2,
            expose: expose2,
        };
        proof {
            assert(res@ =~~= (*self)@);
        }
        res
    }
}

} // verus!
