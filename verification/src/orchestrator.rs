//! Bringing the application up and taking it down.
//!
//! A run is a sequence of steps. Each step takes what the caller observed
//! since the step before and answers with the calls of outside programs
//! that come next; the caller performs them, in order, and reports back.
//! The first failure ends the run.

use vstd::prelude::*;
use crate::docker::build_service_image;
use crate::docker::image_build_call;
use crate::hosts::HostsStatus;
use crate::hosts::check_etc_hosts;
use crate::hosts::file_text;
use crate::hosts::hosts_status;
use crate::hosts::patch_etc_hosts;
use crate::hosts::patched_hosts;
use crate::hosts::render_hosts;
use crate::k8s::K8sServiceConfig;
use crate::k8s::K8sServiceSpec;
use crate::k8s::apply_call;
use crate::k8s::build_routing_definition;
use crate::k8s::build_service_cluster_definition;
use crate::k8s::build_service_local_definition;
use crate::k8s::cluster_service_tree;
use crate::k8s::delete_all_call;
use crate::k8s::deployment_tree;
use crate::k8s::endpoints_tree;
use crate::k8s::kubectl_apply;
use crate::k8s::kubectl_delete_all;
use crate::k8s::local_service_tree;
use crate::k8s::routing_tree;
use crate::models::Definition;
use crate::models::DefinitionSpec;
use crate::models::DeployMode;
use crate::models::GlobalConfig;
use crate::models::GlobalSpec;
use crate::models::Service;
use crate::models::ServiceConfig;
use crate::models::ServiceConfigs;
use crate::models::ServiceSpec;
use crate::models::resolve_mode;
use crate::models::resolved_mode;
use crate::process::Invocation;
use crate::process::InvocationSpec;
use crate::process::call;
use crate::process::invocations;
use crate::process::no_calls;
use crate::process::no_texts;
use crate::process::optional_text;
use crate::process::plain_call;
use crate::process::push_call;
use crate::process::push_text;
use crate::process::texts;
use crate::tagger::ensure_tag_config;
use crate::tagger::tagged_config;
use crate::tagger::tagging_error;
use crate::text::concat3;
use crate::text::decimal;
use crate::text::same_text;
use crate::text::u16_text;
use crate::yaml::ManifestError;
use crate::yaml::documents_text;
use crate::yaml::yaml_text;

verus! {

/// What the command line asks for.
#[derive(Clone, Copy, Debug, PartialEq, Eq, Structural)]
pub enum Command {
    /// Bring the application to the state that its definition describes.
    Up,
    /// Remove everything that this tool created or adopted.
    Down,
    /// Renew the record in the resolution file; used when the tool calls
    /// itself with elevated privilege.
    PatchHosts,
    /// Anything else: show how the tool is used, and fail.
    Help,
}

/// The command that an argument names.
pub open spec fn command_of(argument: Option<Seq<char>>) -> Command {
    match argument {
        Some(word) => if word == "up"@ {
            Command::Up
        } else if word == "down"@ {
            Command::Down
        } else if word == "patch-hosts"@ {
            Command::PatchHosts
        } else {
            Command::Help
        },
        None => Command::Help,
    }
}

/// Reads the command from the first argument of the command line.
pub fn parse_command(argument: Option<&str>) -> (r: Command)
    ensures
        r == command_of(
            match argument {
                Some(word) => Some(word@),
                None => None,
            },
        ),
{
    match argument {
        Some(word) => {
            if same_text(word, "up") {
                Command::Up
            } else if same_text(word, "down") {
                Command::Down
            } else if same_text(word, "patch-hosts") {
                Command::PatchHosts
            } else {
                Command::Help
            }
        },
        None => Command::Help,
    }
}

/// The line that tells how the tool is used.
pub fn run_help() -> (r: &'static str)
    ensures
        r@ == "usage: minitel <up | down>"@,
{
    "usage: minitel <up | down>"
}

/// `rand::random` for `u16`: a number that depends on chance.
#[verifier::external_body]
fn random_token() -> u16 {
    rand::random::<u16>()
}

/// The hash of a run that was given the token.
pub fn config_hash_from(token: u16) -> (hash: String)
    ensures
        hash@ == decimal(token as int),
{
    u16_text(token)
}

/// A fresh hash for a run: the decimal numeral of a random 16-bit number.
pub fn new_config_hash() -> (hash: String)
    ensures
        exists|token: u16| hash@ == decimal(token as int),
{
    let token = random_token();
    config_hash_from(token)
}

/// What a manifest builder needs to know about a service, taken from the
/// context of the run.
pub open spec fn k8s_config(g: GlobalSpec, service: ServiceSpec) -> K8sServiceSpec {
    K8sServiceSpec {
        service_name: service.name,
        app_name: g.app_name,
        host_ip: g.host_ip,
        service_port: service.port,
        config_hash: g.config_hash,
    }
}

/// The calls that deploy a service into the cluster: its image is built,
/// then its manifest is applied.
pub open spec fn cluster_actions(g: GlobalSpec, service: ServiceSpec) -> Option<
    Seq<InvocationSpec>,
> {
    match documents_text(
        cluster_service_tree(k8s_config(g, service)),
        deployment_tree(k8s_config(g, service)),
    ) {
        Some(manifest) => Some(
            seq![
                image_build_call(g.project_location, g.app_name, service.name),
                apply_call(manifest),
            ],
        ),
        None => None,
    }
}

/// The calls that attach a service that runs on the host: its manifest is
/// applied, and no image is built.
pub open spec fn local_actions(g: GlobalSpec, service: ServiceSpec) -> Option<Seq<InvocationSpec>> {
    match documents_text(
        local_service_tree(k8s_config(g, service)),
        endpoints_tree(k8s_config(g, service)),
    ) {
        Some(manifest) => Some(seq![apply_call(manifest)]),
        None => None,
    }
}

/// The calls that deploy a service in the given mode.
pub open spec fn service_actions(g: GlobalSpec, service: ServiceSpec, mode: DeployMode) -> Option<
    Seq<InvocationSpec>,
> {
    match mode {
        DeployMode::Cluster => cluster_actions(g, service),
        DeployMode::Local => local_actions(g, service),
    }
}

/// The calls that deploy a service into the cluster.
pub fn deploy_to_cluster(global_config: &GlobalConfig, service: &Service) -> (r: Result<
    Vec<Invocation>,
    ManifestError,
>)
    ensures
        match r {
            Ok(actions) => cluster_actions(global_config@, service@) == Some(invocations(actions@)),
            Err(e) => e == ManifestError::Serialization && cluster_actions(
                global_config@,
                service@,
            ) is None,
        },
{
    let build = build_service_image(
        global_config.project_location,
        global_config.app_name,
        service.name.as_str(),
    );
    let config = K8sServiceConfig {
        host_ip: global_config.host_ip,
        service_name: service.name.as_str(),
        service_port: service.port,
        app_name: global_config.app_name,
        config_hash: global_config.config_hash,
    };
    assert(config@ == k8s_config(global_config@, service@));
    match build_service_cluster_definition(&config) {
        Ok(manifest) => {
            let mut actions = no_calls();
            push_call(&mut actions, build);
            push_call(&mut actions, kubectl_apply(manifest.as_str()));
            proof {
                assert(invocations(actions@) =~= seq![
                    image_build_call(
                        global_config@.project_location,
                        global_config@.app_name,
                        service@.name,
                    ),
                    apply_call(manifest@),
                ]);
            }
            Ok(actions)
        },
        Err(e) => Err(e),
    }
}

/// The calls that attach a service that runs on the host.
pub fn deploy_local(global_config: &GlobalConfig, service: &Service) -> (r: Result<
    Vec<Invocation>,
    ManifestError,
>)
    ensures
        match r {
            Ok(actions) => local_actions(global_config@, service@) == Some(invocations(actions@)),
            Err(e) => e == ManifestError::Serialization && local_actions(
                global_config@,
                service@,
            ) is None,
        },
{
    let config = K8sServiceConfig {
        host_ip: global_config.host_ip,
        service_name: service.name.as_str(),
        service_port: service.port,
        app_name: global_config.app_name,
        config_hash: global_config.config_hash,
    };
    assert(config@ == k8s_config(global_config@, service@));
    match build_service_local_definition(&config) {
        Ok(manifest) => {
            let mut actions = no_calls();
            push_call(&mut actions, kubectl_apply(manifest.as_str()));
            Ok(actions)
        },
        Err(e) => Err(e),
    }
}

/// The calls that deploy a service in the mode that its configuration
/// names.
pub fn start_service(global_config: &GlobalConfig, service: &Service, config: &ServiceConfig) -> (r:
    Result<Vec<Invocation>, ManifestError>)
    ensures
        match r {
            Ok(actions) => service_actions(global_config@, service@, config.deploy) == Some(
                invocations(actions@),
            ),
            Err(e) => e == ManifestError::Serialization && service_actions(
                global_config@,
                service@,
                config.deploy,
            ) is None,
        },
{
    match config.deploy {
        DeployMode::Cluster => deploy_to_cluster(global_config, service),
        DeployMode::Local => deploy_local(global_config, service),
    }
}

/// The call by which the tool runs itself again with elevated privilege, to
/// renew the record in the resolution file.
pub open spec fn elevated_patch_call(program: Seq<char>) -> InvocationSpec {
    plain_call("sh"@, seq!["-c"@, "sudo "@ + program + " patch-hosts"@])
}

/// The call by which the tool runs itself again with elevated privilege.
pub fn run_patch_hosts_as_sudo(program: &str) -> (r: Invocation)
    ensures
        r@ == elevated_patch_call(program@),
{
    let command = concat3("sudo ", program, " patch-hosts");
    let mut args = no_texts();
    push_text(&mut args, "-c");
    push_text(&mut args, command.as_str());
    proof {
        assert(texts(args@) =~= seq!["-c"@, "sudo "@ + program@ + " patch-hosts"@]);
    }
    call("sh", args)
}

/// The text of the resolution file after the record for the application's
/// hostname was renewed.
pub fn run_patch_hosts(lines: &Vec<String>, config: &GlobalConfig, def: &Definition) -> (r: String)
    ensures
        r@ == file_text(patched_hosts(texts(lines@), def.hostname@, config.minikube_ip@)),
{
    let patched = patch_etc_hosts(lines, config, def);
    render_hosts(&patched)
}

/// The calls of a teardown: one removal of everything that carries the
/// ownership label.
pub fn run_down() -> (r: Vec<Invocation>)
    ensures
        invocations(r@) == seq![delete_all_call()],
{
    let mut actions = no_calls();
    push_call(&mut actions, kubectl_delete_all());
    actions
}

/// The calls that publish the routing object of a run.
pub fn configure_routing(def: &Definition, cfg: &ServiceConfigs, hash: &str) -> (r:
    Result<Vec<Invocation>, ManifestError>)
    ensures
        match r {
            Ok(actions) => yaml_text(routing_tree(def@, cfg@, hash@)) matches Some(manifest)
                && invocations(actions@) == seq![apply_call(manifest)],
            Err(e) => e == ManifestError::Serialization && yaml_text(
                routing_tree(def@, cfg@, hash@),
            ) is None,
        },
{
    match build_routing_definition(def, cfg, hash) {
        Ok(manifest) => {
            let mut actions = no_calls();
            push_call(&mut actions, kubectl_apply(manifest.as_str()));
            Ok(actions)
        },
        Err(e) => Err(e),
    }
}

/// The extra manifests can all be tagged.
pub open spec fn extras_are_taggable(extras: Seq<Seq<char>>) -> bool {
    forall|i: int| 0 <= i < extras.len() ==> tagged_config(#[trigger] extras[i]) is Some
}

/// The calls that apply the user's extra manifests, each tagged first, in
/// the order given.
pub open spec fn extras_actions(extras: Seq<Seq<char>>) -> Seq<InvocationSpec> {
    Seq::new(extras.len(), |i: int| apply_call(tagged_config(extras[i])->0.text))
}

/// For each extra manifest, the number of its documents that have no
/// labels.
pub open spec fn extras_untagged(extras: Seq<Seq<char>>) -> Seq<nat> {
    Seq::new(extras.len(), |i: int| tagged_config(extras[i])->0.untagged)
}

/// The numbers of a run of counts.
pub open spec fn counts(numbers: Seq<usize>) -> Seq<nat> {
    Seq::new(numbers.len(), |i: int| numbers[i] as nat)
}

/// What is to be done with the user's extra manifests.
#[derive(Debug)]
pub struct ExtrasPlan {
    /// The calls that apply them, in order.
    pub actions: Vec<Invocation>,
    /// For each manifest, the number of its documents that were left
    /// untagged, about which the caller warns.
    pub untagged: Vec<usize>,
}

/// The manifest at `at` is the first one that cannot be tagged.
pub open spec fn is_first_untaggable(extras: Seq<Seq<char>>, at: int) -> bool {
    &&& 0 <= at < extras.len()
    &&& tagged_config(extras[at]) is None
    &&& forall|k: int| 0 <= k < at ==> tagged_config(#[trigger] extras[k]) is Some
}

/// Tags the user's extra manifests and gives the calls that apply them.
///
/// Nothing is applied where one of them cannot be read or written; the
/// error is that of the first such manifest.
pub fn validate_and_apply_extras(extras: &Vec<String>) -> (r: Result<ExtrasPlan, ManifestError>)
    ensures
        match r {
            Ok(plan) => {
                &&& extras_are_taggable(texts(extras@))
                &&& invocations(plan.actions@) == extras_actions(texts(extras@))
                &&& counts(plan.untagged@) == extras_untagged(texts(extras@))
            },
            Err(e) => !extras_are_taggable(texts(extras@)) && exists|at: int|
                is_first_untaggable(texts(extras@), at) && e == tagging_error(
                    #[trigger] texts(extras@)[at],
                ),
        },
{
    let ghost model = texts(extras@);
    let mut actions: Vec<Invocation> = Vec::new();
    let mut untagged: Vec<usize> = Vec::new();
    let mut i: usize = 0;
    while i < extras.len()
        invariant
            0 <= i <= extras.len(),
            model == texts(extras@),
            actions.len() == i,
            untagged.len() == i,
            forall|k: int| 0 <= k < i ==> tagged_config(#[trigger] model[k]) is Some,
            forall|k: int|
                0 <= k < i ==> (#[trigger] actions@[k])@ == apply_call(
                    tagged_config(model[k])->0.text,
                ),
            forall|k: int|
                0 <= k < i ==> (#[trigger] untagged@[k]) as nat == tagged_config(
                    model[k],
                )->0.untagged,
        decreases extras.len() - i,
    {
        assert(model[i as int] == extras@[i as int]@);
        match ensure_tag_config(extras[i].as_str()) {
            Ok(tagged) => {
                actions.push(kubectl_apply(tagged.text.as_str()));
                untagged.push(tagged.untagged);
            },
            Err(e) => {
                assert(is_first_untaggable(model, i as int));
                return Err(e);
            },
        }
        i += 1;
    }
    proof {
        assert(invocations(actions@) =~= extras_actions(model));
        assert(counts(untagged@) =~= extras_untagged(model));
    }
    Ok(ExtrasPlan { actions, untagged })
}

/// How far a run has come.
#[derive(Clone, Copy, Debug, PartialEq, Eq, Structural)]
pub enum UpPhase {
    /// Nothing was done yet.
    Init,
    /// The calls that publish the routing object were handed out.
    RoutingPublished,
    /// The addresses are known and the resolution file was looked at.
    HostsReconciled,
    /// The calls that apply the user's extra manifests were handed out.
    ExtrasApplied,
    /// The calls that deploy the given number of services, counted from the
    /// start of the definition, were handed out.
    PerServiceDeployed(usize),
    /// Every call of the run was handed out and succeeded.
    Done,
    /// A call failed, or a step was asked for out of order. A run that
    /// failed is started anew.
    Failed,
}

/// The context of one run. It is made when the run starts and dropped
/// when it ends; nothing of it outlives the run.
#[derive(Debug)]
pub struct UpRun {
    pub phase: UpPhase,
    /// The directory of the project.
    pub project_location: String,
    /// The path by which the tool itself is called.
    pub program: String,
    /// The hash of this run.
    pub config_hash: String,
    /// The address of the host as the cluster sees it, once it is known.
    pub host_ip: String,
    /// The address of the cluster, once it is known.
    pub minikube_ip: String,
}

/// Mathematical model of an [`UpRun`].
pub struct UpRunSpec {
    pub phase: UpPhase,
    pub project_location: Seq<char>,
    pub program: Seq<char>,
    pub config_hash: Seq<char>,
    pub host_ip: Seq<char>,
    pub minikube_ip: Seq<char>,
}

impl View for UpRun {
    type V = UpRunSpec;

    open spec fn view(&self) -> UpRunSpec {
        UpRunSpec {
            phase: self.phase,
            project_location: self.project_location@,
            program: self.program@,
            config_hash: self.config_hash@,
            host_ip: self.host_ip@,
            minikube_ip: self.minikube_ip@,
        }
    }
}

/// What the caller reports to a run.
#[derive(Debug)]
pub enum UpEvent {
    /// The run is to begin.
    Started,
    /// The calls of the step before were performed, and the machine was
    /// looked at: the two addresses as the queries reported them, and the
    /// lines of the resolution file, or `None` where it could not be read.
    Observed {
        succeeded: bool,
        host_ip: Option<String>,
        minikube_ip: Option<String>,
        hosts: Option<Vec<String>>,
    },
    /// The calls of the step before were performed, and the user's extra
    /// manifests were read.
    ExtrasRead { succeeded: bool, extras: Vec<String> },
    /// The calls of the step before were performed.
    Completed { succeeded: bool },
}

/// Mathematical model of an [`UpEvent`].
pub enum UpEventSpec {
    Started,
    Observed {
        succeeded: bool,
        host_ip: Option<Seq<char>>,
        minikube_ip: Option<Seq<char>>,
        hosts: Option<Seq<Seq<char>>>,
    },
    ExtrasRead { succeeded: bool, extras: Seq<Seq<char>> },
    Completed { succeeded: bool },
}

/// The texts of optional lines.
pub open spec fn optional_lines(lines: Option<Vec<String>>) -> Option<Seq<Seq<char>>> {
    match lines {
        Some(l) => Some(texts(l@)),
        None => None,
    }
}

impl View for UpEvent {
    type V = UpEventSpec;

    open spec fn view(&self) -> UpEventSpec {
        match self {
            UpEvent::Started => UpEventSpec::Started,
            UpEvent::Observed { succeeded, host_ip, minikube_ip, hosts } => UpEventSpec::Observed {
                succeeded: *succeeded,
                host_ip: optional_text(*host_ip),
                minikube_ip: optional_text(*minikube_ip),
                hosts: optional_lines(*hosts),
            },
            UpEvent::ExtrasRead { succeeded, extras } => UpEventSpec::ExtrasRead {
                succeeded: *succeeded,
                extras: texts(extras@),
            },
            UpEvent::Completed { succeeded } => UpEventSpec::Completed { succeeded: *succeeded },
        }
    }
}

/// What a step of a run answers.
#[derive(Debug)]
pub struct UpStep {
    /// The run after the step.
    pub run: UpRun,
    /// The calls to perform next, in order.
    pub actions: Vec<Invocation>,
    /// For each extra manifest of this step, the number of its documents
    /// that were left untagged.
    pub untagged: Vec<usize>,
}

/// Mathematical model of an [`UpStep`].
pub struct UpStepSpec {
    pub run: UpRunSpec,
    pub actions: Seq<InvocationSpec>,
    pub untagged: Seq<nat>,
}

impl View for UpStep {
    type V = UpStepSpec;

    open spec fn view(&self) -> UpStepSpec {
        UpStepSpec {
            run: self.run@,
            actions: invocations(self.actions@),
            untagged: counts(self.untagged@),
        }
    }
}

/// The step that ends a run in failure: nothing more is to be done.
pub open spec fn failed(run: UpRunSpec) -> UpStepSpec {
    UpStepSpec {
        run: UpRunSpec { phase: UpPhase::Failed, ..run },
        actions: Seq::empty(),
        untagged: Seq::empty(),
    }
}

/// The step that takes a run to the next phase and hands out calls.
pub open spec fn advanced(run: UpRunSpec, phase: UpPhase, actions: Seq<InvocationSpec>) -> UpStepSpec {
    UpStepSpec { run: UpRunSpec { phase, ..run }, actions, untagged: Seq::empty() }
}

/// The context of a run as the manifest builders see it.
pub open spec fn global_of(run: UpRunSpec, def: DefinitionSpec) -> GlobalSpec {
    GlobalSpec {
        host_ip: run.host_ip,
        minikube_ip: run.minikube_ip,
        app_name: def.app_name,
        config_hash: run.config_hash,
        project_location: run.project_location,
    }
}

/// The first step: the routing object of the run is published.
pub open spec fn publish_step(
    run: UpRunSpec,
    def: DefinitionSpec,
    cfg: Map<Seq<char>, ServiceConfig>,
) -> UpStepSpec {
    match yaml_text(routing_tree(def, cfg, run.config_hash)) {
        Some(manifest) => advanced(run, UpPhase::RoutingPublished, seq![apply_call(manifest)]),
        None => failed(run),
    }
}

/// The second step: the addresses are taken over, and where the record for
/// the hostname in the resolution file is missing or stale, the tool calls
/// itself with elevated privilege to renew it. The run ends in failure where
/// the calls of the step before failed, where an address is not known, and
/// where the resolution file could not be read.
pub open spec fn reconcile_step(
    run: UpRunSpec,
    def: DefinitionSpec,
    succeeded: bool,
    host_ip: Option<Seq<char>>,
    minikube_ip: Option<Seq<char>>,
    hosts: Option<Seq<Seq<char>>>,
) -> UpStepSpec {
    if succeeded && host_ip is Some && minikube_ip is Some && hosts is Some {
        let known = UpRunSpec { host_ip: host_ip->0, minikube_ip: minikube_ip->0, ..run };
        let actions = if hosts_status(hosts->0, def.hostname, minikube_ip->0)
            != HostsStatus::Consistent {
            seq![elevated_patch_call(run.program)]
        } else {
            Seq::empty()
        };
        advanced(known, UpPhase::HostsReconciled, actions)
    } else {
        failed(run)
    }
}

/// The third step: the user's extra manifests are tagged and applied.
pub open spec fn extras_step(run: UpRunSpec, succeeded: bool, extras: Seq<Seq<char>>) -> UpStepSpec {
    if succeeded && extras_are_taggable(extras) {
        UpStepSpec {
            run: UpRunSpec { phase: UpPhase::ExtrasApplied, ..run },
            actions: extras_actions(extras),
            untagged: extras_untagged(extras),
        }
    } else {
        failed(run)
    }
}

/// The steps after that: the services are deployed one by one, in the
/// order of the definition, each in its mode; after the last one the run is
/// done.
pub open spec fn deploy_step(
    run: UpRunSpec,
    def: DefinitionSpec,
    cfg: Map<Seq<char>, ServiceConfig>,
    succeeded: bool,
    deployed: nat,
) -> UpStepSpec {
    if !succeeded {
        failed(run)
    } else if deployed >= def.services.len() {
        advanced(run, UpPhase::Done, Seq::empty())
    } else {
        let service = def.services[deployed as int];
        match service_actions(global_of(run, def), service, resolved_mode(cfg, service.name)) {
            Some(actions) => advanced(
                run,
                UpPhase::PerServiceDeployed((deployed + 1) as usize),
                actions,
            ),
            None => failed(run),
        }
    }
}

/// What a run does next, from where it stands and what the caller reports.
pub open spec fn up_step(
    run: UpRunSpec,
    def: DefinitionSpec,
    cfg: Map<Seq<char>, ServiceConfig>,
    event: UpEventSpec,
) -> UpStepSpec {
    match (run.phase, event) {
        (UpPhase::Init, UpEventSpec::Started) => publish_step(run, def, cfg),
        (
            UpPhase::RoutingPublished,
            UpEventSpec::Observed { succeeded, host_ip, minikube_ip, hosts },
        ) => reconcile_step(run, def, succeeded, host_ip, minikube_ip, hosts),
        (UpPhase::HostsReconciled, UpEventSpec::ExtrasRead { succeeded, extras }) => extras_step(
            run,
            succeeded,
            extras,
        ),
        (UpPhase::ExtrasApplied, UpEventSpec::Completed { succeeded }) => deploy_step(
            run,
            def,
            cfg,
            succeeded,
            0,
        ),
        (UpPhase::PerServiceDeployed(deployed), UpEventSpec::Completed { succeeded }) => deploy_step(
            run,
            def,
            cfg,
            succeeded,
            deployed as nat,
        ),
        _ => failed(run),
    }
}

impl UpRun {
    /// The context of a run that is about to start.
    pub fn new(project_location: String, program: String, config_hash: String) -> (run: UpRun)
        ensures
            run@ == (UpRunSpec {
                phase: UpPhase::Init,
                project_location: project_location@,
                program: program@,
                config_hash: config_hash@,
                host_ip: Seq::empty(),
                minikube_ip: Seq::empty(),
            }),
    {
        UpRun {
            phase: UpPhase::Init,
            project_location,
            program,
            config_hash,
            host_ip: String::new(),
            minikube_ip: String::new(),
        }
    }
}

fn fail(run: UpRun) -> (step: UpStep)
    ensures
        step@ == failed(run@),
{
    let actions = no_calls();
    let untagged: Vec<usize> = Vec::new();
    assert(counts(untagged@) =~= Seq::<nat>::empty());
    UpStep {
        run: UpRun {
            phase: UpPhase::Failed,
            project_location: run.project_location,
            program: run.program,
            config_hash: run.config_hash,
            host_ip: run.host_ip,
            minikube_ip: run.minikube_ip,
        },
        actions,
        untagged,
    }
}

fn advance(run: UpRun, phase: UpPhase, actions: Vec<Invocation>) -> (step: UpStep)
    ensures
        step@ == advanced(run@, phase, invocations(actions@)),
{
    let untagged: Vec<usize> = Vec::new();
    assert(counts(untagged@) =~= Seq::<nat>::empty());
    UpStep {
        run: UpRun {
            phase,
            project_location: run.project_location,
            program: run.program,
            config_hash: run.config_hash,
            host_ip: run.host_ip,
            minikube_ip: run.minikube_ip,
        },
        actions,
        untagged,
    }
}

fn publish(run: UpRun, def: &Definition, cfg: &ServiceConfigs) -> (step: UpStep)
    ensures
        step@ == publish_step(run@, def@, cfg@),
{
    match configure_routing(def, cfg, run.config_hash.as_str()) {
        Ok(actions) => advance(run, UpPhase::RoutingPublished, actions),
        Err(_) => fail(run),
    }
}

fn reconcile(
    run: UpRun,
    def: &Definition,
    succeeded: bool,
    host_ip: Option<String>,
    minikube_ip: Option<String>,
    hosts: Option<Vec<String>>,
) -> (step: UpStep)
    ensures
        step@ == reconcile_step(
            run@,
            def@,
            succeeded,
            optional_text(host_ip),
            optional_text(minikube_ip),
            optional_lines(hosts),
        ),
{
    if !succeeded {
        return fail(run);
    }
    match (host_ip, minikube_ip, hosts) {
        (Some(host), Some(cluster), Some(lines)) => {
            let mut actions = no_calls();
            let status = {
                let config = GlobalConfig {
                    host_ip: host.as_str(),
                    minikube_ip: cluster.as_str(),
                    app_name: def.app_name.as_str(),
                    config_hash: run.config_hash.as_str(),
                    project_location: run.project_location.as_str(),
                };
                check_etc_hosts(&lines, &config, def)
            };
            if status != HostsStatus::Consistent {
                push_call(&mut actions, run_patch_hosts_as_sudo(run.program.as_str()));
            }
            let known = UpRun {
                phase: run.phase,
                project_location: run.project_location,
                program: run.program,
                config_hash: run.config_hash,
                host_ip: host,
                minikube_ip: cluster,
            };
            advance(known, UpPhase::HostsReconciled, actions)
        },
        _ => fail(run),
    }
}

fn apply_extras(run: UpRun, succeeded: bool, extras: &Vec<String>) -> (step: UpStep)
    ensures
        step@ == extras_step(run@, succeeded, texts(extras@)),
{
    if !succeeded {
        return fail(run);
    }
    match validate_and_apply_extras(extras) {
        Ok(plan) => UpStep {
            run: UpRun {
                phase: UpPhase::ExtrasApplied,
                project_location: run.project_location,
                program: run.program,
                config_hash: run.config_hash,
                host_ip: run.host_ip,
                minikube_ip: run.minikube_ip,
            },
            actions: plan.actions,
            untagged: plan.untagged,
        },
        Err(_) => fail(run),
    }
}

fn deploy_next(
    run: UpRun,
    def: &Definition,
    cfg: &ServiceConfigs,
    succeeded: bool,
    deployed: usize,
) -> (step: UpStep)
    ensures
        step@ == deploy_step(run@, def@, cfg@, succeeded, deployed as nat),
{
    if !succeeded {
        return fail(run);
    }
    if deployed >= def.services.len() {
        return advance(run, UpPhase::Done, no_calls());
    }
    let service = &def.services[deployed];
    assert(def@.services[deployed as int] == service@);
    let mode = resolve_mode(cfg, service.name.as_str());
    let planned = {
        let config = GlobalConfig {
            host_ip: run.host_ip.as_str(),
            minikube_ip: run.minikube_ip.as_str(),
            app_name: def.app_name.as_str(),
            config_hash: run.config_hash.as_str(),
            project_location: run.project_location.as_str(),
        };
        assert(config@ == global_of(run@, def@));
        start_service(&config, service, &ServiceConfig { deploy: mode })
    };
    match planned {
        Ok(actions) => advance(run, UpPhase::PerServiceDeployed(deployed + 1), actions),
        Err(_) => fail(run),
    }
}

/// Takes a run one step further.
///
/// The steps come in one order: the routing object is published, the
/// addresses are taken over and the resolution file is reconciled, the
/// user's extra manifests are applied, and the services are deployed one by
/// one in the order of the definition. A report of failure, a manifest that
/// cannot be written, an address that is not known, a resolution file that
/// could not be read and a report that does not belong to the phase of the
/// run all end the run in failure, with nothing more to do.
pub fn run_up(run: UpRun, def: &Definition, cfg: &ServiceConfigs, event: UpEvent) -> (step:
    UpStep)
    ensures
        step@ == up_step(run@, def@, cfg@, event@),
{
    match run.phase {
        UpPhase::Init => match event {
            UpEvent::Started => publish(run, def, cfg),
            _ => fail(run),
        },
        UpPhase::RoutingPublished => match event {
            UpEvent::Observed { succeeded, host_ip, minikube_ip, hosts } => reconcile(
                run,
                def,
                succeeded,
                host_ip,
                minikube_ip,
                hosts,
            ),
            _ => fail(run),
        },
        UpPhase::HostsReconciled => match event {
            UpEvent::ExtrasRead { succeeded, extras } => apply_extras(run, succeeded, &extras),
            _ => fail(run),
        },
        UpPhase::ExtrasApplied => match event {
            UpEvent::Completed { succeeded } => deploy_next(run, def, cfg, succeeded, 0),
            _ => fail(run),
        },
        UpPhase::PerServiceDeployed(deployed) => match event {
            UpEvent::Completed { succeeded } => deploy_next(run, def, cfg, succeeded, deployed),
            _ => fail(run),
        },
        UpPhase::Done => fail(run),
        UpPhase::Failed => fail(run),
    }
}

/// The phase that follows a phase in a run that goes well, where a
/// definition has the given number of services.
pub open spec fn next_phase(phase: UpPhase, services: nat) -> UpPhase {
    match phase {
        UpPhase::Init => UpPhase::RoutingPublished,
        UpPhase::RoutingPublished => UpPhase::HostsReconciled,
        UpPhase::HostsReconciled => UpPhase::ExtrasApplied,
        UpPhase::ExtrasApplied => if services == 0 {
            UpPhase::Done
        } else {
            UpPhase::PerServiceDeployed(1)
        },
        UpPhase::PerServiceDeployed(deployed) => if deployed >= services {
            UpPhase::Done
        } else {
            UpPhase::PerServiceDeployed((deployed + 1) as usize)
        },
        UpPhase::Done => UpPhase::Failed,
        UpPhase::Failed => UpPhase::Failed,
    }
}

/// A run goes through its phases in one order. Every step either takes the
/// run to the phase that follows, or ends it in failure; a step that ends
/// the run, in failure or in success, hands out no calls; and no step
/// changes the project, the program or the hash of the run.
pub proof fn lemma_up_step_order(
    run: UpRunSpec,
    def: DefinitionSpec,
    cfg: Map<Seq<char>, ServiceConfig>,
    event: UpEventSpec,
)
    ensures
        up_step(run, def, cfg, event).run.phase == UpPhase::Failed || up_step(
            run,
            def,
            cfg,
            event,
        ).run.phase == next_phase(run.phase, def.services.len()),
        up_step(run, def, cfg, event).run.phase == UpPhase::Failed || up_step(
            run,
            def,
            cfg,
            event,
        ).run.phase == UpPhase::Done ==> up_step(run, def, cfg, event).actions.len() == 0,
        up_step(run, def, cfg, event).run.project_location == run.project_location,
        up_step(run, def, cfg, event).run.program == run.program,
        up_step(run, def, cfg, event).run.config_hash == run.config_hash,
{
}

/// What the second step does with the resolution file, once the routing
/// object was applied and both addresses are known: a file that could not
/// be read ends the run with nothing more to do; a record that is missing or
/// stale is renewed by exactly one call with elevated privilege; a
/// consistent record needs no call.
pub proof fn lemma_reconcile_by_status(
    run: UpRunSpec,
    def: DefinitionSpec,
    host_ip: Seq<char>,
    minikube_ip: Seq<char>,
    hosts: Option<Seq<Seq<char>>>,
)
    ensures
        hosts is None ==> reconcile_step(run, def, true, Some(host_ip), Some(minikube_ip), hosts)
            == failed(run),
        hosts is Some && hosts_status(hosts->0, def.hostname, minikube_ip)
            != HostsStatus::Consistent ==> reconcile_step(
            run,
            def,
            true,
            Some(host_ip),
            Some(minikube_ip),
            hosts,
        ).actions == seq![elevated_patch_call(run.program)],
        hosts is Some && hosts_status(hosts->0, def.hostname, minikube_ip)
            == HostsStatus::Consistent ==> reconcile_step(
            run,
            def,
            true,
            Some(host_ip),
            Some(minikube_ip),
            hosts,
        ).actions.len() == 0,
        hosts is Some ==> reconcile_step(
            run,
            def,
            true,
            Some(host_ip),
            Some(minikube_ip),
            hosts,
        ).run.phase == UpPhase::HostsReconciled,
{
}

/// The calls that deploy the services are handed out only after the routing
/// object was published: a step hands out the calls of a service only from
/// a phase that lies after the publication.
pub proof fn lemma_services_follow_routing(
    run: UpRunSpec,
    def: DefinitionSpec,
    cfg: Map<Seq<char>, ServiceConfig>,
    event: UpEventSpec,
)
    requires
        up_step(run, def, cfg, event).run.phase is PerServiceDeployed,
    ensures
        run.phase == UpPhase::ExtrasApplied || run.phase is PerServiceDeployed,
{
}

} // verus!
