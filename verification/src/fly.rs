//! The remote machine fleet model.
//!
//! Plain-value mirrors of the remote instance API's request and response
//! shapes, and the exact URLs and header values of each call.  The calls
//! themselves live outside the library.

use vstd::prelude::*;

use crate::challenge::Limits;
use crate::text::{push_chars, string_from_chars};
use crate::{entries_view, opt_entries_view, opt_vec_view, seq_view};

verus! {

/// Remote-side configuration of the deployment target.
#[derive(Debug, PartialEq, Eq)]
pub struct Config {
    /// Organization owning the application namespace.
    pub org: String,
    /// The application namespace every machine lives in.
    pub app_name: String,
}

/// Model of `Config`.
#[verifier::ext_equal]
pub struct ConfigModel {
    pub org: Seq<char>,
    pub app_name: Seq<char>,
}

impl View for Config {
    type V = ConfigModel;

    open spec fn view(&self) -> ConfigModel {
        ConfigModel { org: self.org@, app_name: self.app_name@ }
    }
}

/// One public port mapping of a machine service.
#[derive(Debug, PartialEq, Eq)]
pub struct MachinePort {
    pub port: Option<u32>,
    pub start_port: Option<u32>,
    pub end_port: Option<u32>,
    pub handlers: Option<Vec<String>>,
}

/// Model of `MachinePort`.
#[verifier::ext_equal]
pub struct MachinePortModel {
    pub port: Option<u32>,
    pub start_port: Option<u32>,
    pub end_port: Option<u32>,
    pub handlers: Option<Seq<Seq<char>>>,
}

impl View for MachinePort {
    type V = MachinePortModel;

    open spec fn view(&self) -> MachinePortModel {
        MachinePortModel {
            port: self.port,
            start_port: self.start_port,
            end_port: self.end_port,
            handlers: opt_vec_view(self.handlers),
        }
    }
}

/// One exposed service of a machine.
#[derive(Debug, PartialEq, Eq)]
pub struct MachineService {
    pub protocol: String,
    pub internal_port: u32,
    pub ports: Vec<MachinePort>,
}

/// Model of `MachineService`.
#[verifier::ext_equal]
pub struct MachineServiceModel {
    pub protocol: Seq<char>,
    pub internal_port: u32,
    pub ports: Seq<MachinePortModel>,
}

impl View for MachineService {
    type V = MachineServiceModel;

    open spec fn view(&self) -> MachineServiceModel {
        MachineServiceModel {
            protocol: self.protocol@,
            internal_port: self.internal_port,
            ports: seq_view(self.ports@),
        }
    }
}

/// The compute resources allocated to one machine.
#[derive(Debug, PartialEq, Eq)]
pub struct AllocatedResources {
    pub cpu_kind: String,
    pub cpus: Option<u32>,
    pub kernel_args: Option<Vec<String>>,
    pub memory_mb: Option<u32>,
}

/// Model of `AllocatedResources`.
#[verifier::ext_equal]
pub struct AllocatedResourcesModel {
    pub cpu_kind: Seq<char>,
    pub cpus: Option<u32>,
    pub kernel_args: Option<Seq<Seq<char>>>,
    pub memory_mb: Option<u32>,
}

impl View for AllocatedResources {
    type V = AllocatedResourcesModel;

    open spec fn view(&self) -> AllocatedResourcesModel {
        AllocatedResourcesModel {
            cpu_kind: self.cpu_kind@,
            cpus: self.cpus,
            kernel_args: opt_vec_view(self.kernel_args),
            memory_mb: self.memory_mb,
        }
    }
}

/// The desired configuration of one machine.
#[derive(Debug, PartialEq, Eq)]
pub struct MachineConfig {
    pub image: String,
    pub auto_destroy: Option<bool>,
    pub env: Option<Vec<(String, String)>>,
    pub guest: Option<AllocatedResources>,
    pub services: Option<Vec<MachineService>>,
}

/// Model of `MachineConfig`.
#[verifier::ext_equal]
pub struct MachineConfigModel {
    pub image: Seq<char>,
    pub auto_destroy: Option<bool>,
    pub env: Option<Seq<(Seq<char>, Seq<char>)>>,
    pub guest: Option<AllocatedResourcesModel>,
    pub services: Option<Seq<MachineServiceModel>>,
}

impl View for MachineConfig {
    type V = MachineConfigModel;

    open spec fn view(&self) -> MachineConfigModel {
        MachineConfigModel {
            image: self.image@,
            auto_destroy: self.auto_destroy,
            env: opt_entries_view(self.env),
            guest: match self.guest {
                Some(g) => Some(g@),
                None => None,
            },
            services: opt_vec_view(self.services),
        }
    }
}

/// The image a running machine reports.
#[derive(Debug, PartialEq, Eq)]
pub struct MachineImageDetails {
    pub registry: String,
    pub repository: String,
    pub tag: String,
    pub digest: String,
}

/// Model of `MachineImageDetails`.
#[verifier::ext_equal]
pub struct MachineImageDetailsModel {
    pub registry: Seq<char>,
    pub repository: Seq<char>,
    pub tag: Seq<char>,
    pub digest: Seq<char>,
}

impl View for MachineImageDetails {
    type V = MachineImageDetailsModel;

    open spec fn view(&self) -> MachineImageDetailsModel {
        MachineImageDetailsModel {
            registry: self.registry@,
            repository: self.repository@,
            tag: self.tag@,
            digest: self.digest@,
        }
    }
}

/// One machine of the remote fleet, as the remote side reports it.
#[derive(Debug, PartialEq, Eq)]
pub struct MachineInfo {
    /// Remote identity, authoritative downstream.
    pub id: String,
    /// Name, matching a derived container name or the reserved ingress.
    pub name: String,
    /// Observed lifecycle state.
    pub state: String,
    pub region: String,
    pub image_ref: MachineImageDetails,
    pub config: MachineConfig,
}

/// Model of `MachineInfo`.
#[verifier::ext_equal]
pub struct MachineInfoModel {
    pub id: Seq<char>,
    pub name: Seq<char>,
    pub state: Seq<char>,
    pub region: Seq<char>,
    pub image_ref: MachineImageDetailsModel,
    pub config: MachineConfigModel,
}

impl View for MachineInfo {
    type V = MachineInfoModel;

    open spec fn view(&self) -> MachineInfoModel {
        MachineInfoModel {
            id: self.id@,
            name: self.name@,
            state: self.state@,
            region: self.region@,
            image_ref: self.image_ref@,
            config: self.config@,
        }
    }
}

/// The application namespace, as the remote side reports it.
#[derive(Debug, PartialEq, Eq)]
pub struct AppInfo {
    pub id: String,
    pub name: String,
    pub status: String,
}

/// Model of `AppInfo`.
#[verifier::ext_equal]
pub struct AppInfoModel {
    pub id: Seq<char>,
    pub name: Seq<char>,
    pub status: Seq<char>,
}

impl View for AppInfo {
    type V = AppInfoModel;

    open spec fn view(&self) -> AppInfoModel {
        AppInfoModel { id: self.id@, name: self.name@, status: self.status@ }
    }
}

/// The URL that creates applications.
pub fn apps_url(host: &str) -> (r: String)
    ensures
        r@ == host@ + "/v1/apps"@,
{
    let mut out: Vec<char> = Vec::new();
    push_chars(&mut out, host);
    push_chars(&mut out, "/v1/apps");
    string_from_chars(&out)
}

/// The URL of one application.
pub fn app_url(host: &str, name: &str) -> (r: String)
    ensures
        r@ == host@ + "/v1/apps/"@ + name@,
{
    let mut out: Vec<char> = Vec::new();
    push_chars(&mut out, host);
    push_chars(&mut out, "/v1/apps/");
    push_chars(&mut out, name);
    proof {
        assert(out@ =~= host@ + "/v1/apps/"@ + name@);
    }
    string_from_chars(&out)
}

/// The URL that lists and creates machines of an application.
pub fn machines_url(host: &str, app: &str) -> (r: String)
    ensures
        r@ == host@ + "/v1/apps/"@ + app@ + "/machines"@,
{
    let mut out: Vec<char> = Vec::new();
    push_chars(&mut out, host);
    push_chars(&mut out, "/v1/apps/");
    push_chars(&mut out, app);
    push_chars(&mut out, "/machines");
    proof {
        assert(out@ =~= host@ + "/v1/apps/"@ + app@ + "/machines"@);
    }
    string_from_chars(&out)
}

/// The URL of one machine.
pub fn machine_url(host: &str, app: &str, id: &str) -> (r: String)
    ensures
        r@ == host@ + "/v1/apps/"@ + app@ + "/machines/"@ + id@,
{
    let mut out: Vec<char> = Vec::new();
    push_chars(&mut out, host);
    push_chars(&mut out, "/v1/apps/");
    push_chars(&mut out, app);
    push_chars(&mut out, "/machines/");
    push_chars(&mut out, id);
    proof {
        assert(out@ =~= host@ + "/v1/apps/"@ + app@ + "/machines/"@ + id@);
    }
    string_from_chars(&out)
}

/// The URL that blocks until one machine is ready.
pub fn machine_wait_url(host: &str, app: &str, id: &str) -> (r: String)
    ensures
        r@ == host@ + "/v1/apps/"@ + app@ + "/machines/"@ + id@ + "/wait"@,
{
    let mut out: Vec<char> = Vec::new();
    push_chars(&mut out, host);
    push_chars(&mut out, "/v1/apps/");
    push_chars(&mut out, app);
    push_chars(&mut out, "/machines/");
    push_chars(&mut out, id);
    push_chars(&mut out, "/wait");
    proof {
        assert(out@ =~= host@ + "/v1/apps/"@ + app@ + "/machines/"@ + id@ + "/wait"@);
    }
    string_from_chars(&out)
}

/// The URL that runs a command inside one machine.
pub fn machine_exec_url(host: &str, app: &str, id: &str) -> (r: String)
    ensures
        r@ == host@ + "/v1/apps/"@ + app@ + "/machines/"@ + id@ + "/exec"@,
{
    let mut out: Vec<char> = Vec::new();
    push_chars(&mut out, host);
    push_chars(&mut out, "/v1/apps/");
    push_chars(&mut out, app);
    push_chars(&mut out, "/machines/");
    push_chars(&mut out, id);
    push_chars(&mut out, "/exec");
    proof {
        assert(out@ =~= host@ + "/v1/apps/"@ + app@ + "/machines/"@ + id@ + "/exec"@);
    }
    string_from_chars(&out)
}

/// The bearer authorization header value for `token`.
pub fn auth_header(token: &str) -> (r: String)
    ensures
        r@ == "Bearer "@ + token@,
{
    let mut out: Vec<char> = Vec::new();
    push_chars(&mut out, "Bearer ");
    push_chars(&mut out, token);
    string_from_chars(&out)
}

/// The registry repository for an application: images are pushed to
/// `registry.fly.io/<app>`.
pub fn registry_repo(app_name: &str) -> (r: String)
    ensures
        r@ == "registry.fly.io/"@ + app_name@,
{
    let mut out: Vec<char> = Vec::new();
    push_chars(&mut out, "registry.fly.io/");
    push_chars(&mut out, app_name);
    string_from_chars(&out)
}

/// The image tag `repo:name`.
pub fn image_tag(repo: &str, name: &str) -> (r: String)
    ensures
        r@ == repo@ + ":"@ + name@,
{
    let mut out: Vec<char> = Vec::new();
    push_chars(&mut out, repo);
    push_chars(&mut out, ":");
    push_chars(&mut out, name);
    proof {
        assert(out@ =~= repo@ + ":"@ + name@);
    }
    string_from_chars(&out)
}

/// The machine configuration a container deploys with: its image, its
/// declared environment variables, and a shared-CPU allocation carrying
/// the declared limits, nothing else.
pub fn machine_config_for(image: String, limits: Limits, env: Option<Vec<(String, String)>>) -> (r:
    MachineConfig)
    ensures
        r@ == (MachineConfigModel {
            image: image@,
            auto_destroy: None,
            env: opt_entries_view(env),
            guest: Some(
                AllocatedResourcesModel {
                    cpu_kind: "shared"@,
                    cpus: limits.cpu,
                    kernel_args: None,
                    memory_mb: limits.mem,
                },
            ),
            services: None,
        }),
{
    let mut kind: Vec<char> = Vec::new();
    push_chars(&mut kind, "shared");
    MachineConfig {
        image,
        auto_destroy: None,
        env,
        guest: Some(
            AllocatedResources {
                cpu_kind: string_from_chars(&kind),
                cpus: limits.cpu,
                kernel_args: None,
                memory_mb: limits.mem,
            },
        ),
        services: None,
    }
}

/// What the run does about the application namespace after probing it:
/// a missing namespace is created, an existing one is used as it stands.
#[derive(Debug, PartialEq, Eq)]
pub enum AppProbe {
    /// The probe returned the application.
    Found(AppInfo),
    /// The probe answered that no such application exists.
    Missing,
    /// The probe itself failed; carries the transport's words.
    Failed(String),
}

/// The idempotent ensure-application decision: create exactly when the
/// namespace is missing, keep an existing one, surface a failed probe.
#[derive(Debug, PartialEq, Eq)]
pub enum AppStep {
    UseExisting(AppInfo),
    Create,
    Fail(String),
}

/// Decides what to do about the application namespace from the probe's
/// outcome.
pub fn ensure_app_decision(probe: AppProbe) -> (r: AppStep)
    ensures
        match probe {
            AppProbe::Found(app) => r == AppStep::UseExisting(app),
            AppProbe::Missing => r == AppStep::Create,
            AppProbe::Failed(e) => r == AppStep::Fail(e),
        },
{
    match probe {
        AppProbe::Found(app) => AppStep::UseExisting(app),
        AppProbe::Missing => AppStep::Create,
        AppProbe::Failed(e) => AppStep::Fail(e),
    }
}

} // verus!
