//! Running the services directly on the developer's machine: the
//! environment that tells each service where the others are, and the
//! scripts that start and stop a service.

use vstd::prelude::*;
use vstd::string::*;
use crate::k8s::routing_key;
use crate::k8s::service_routing_key;
use crate::models::Definition;
use crate::models::DefinitionSpec;
use crate::models::DeployMode;
use crate::models::Service;
use crate::models::ServiceConfig;
use crate::models::ServiceConfigs;
use crate::models::ServiceSpec;
use crate::models::resolve_mode;
use crate::models::resolved_mode;
use crate::process::Invocation;
use crate::process::InvocationSpec;
use crate::process::text_pairs;
use crate::process::texts;
use crate::text::concat2;
use crate::text::concat3;
use crate::text::decimal;
use crate::text::i32_text;

verus! {

/// The address at which a service is reached during development: through
/// the application's hostname, under the service's prefix (or `/`), where it
/// runs in the cluster, and on the local machine at its port otherwise.
pub open spec fn development_url(
    hostname: Seq<char>,
    service: ServiceSpec,
    mode: DeployMode,
) -> Seq<char> {
    match mode {
        DeployMode::Cluster => "http://"@ + hostname + match service.cluster_prefix {
            Some(prefix) => prefix,
            None => "/"@,
        },
        DeployMode::Local => "http://localhost:"@ + decimal(service.port),
    }
}

/// The development environment: for each service of the definition, in
/// order, its routing key and its address.
pub open spec fn development_env(def: DefinitionSpec, cfg: Map<Seq<char>, ServiceConfig>) -> Seq<
    (Seq<char>, Seq<char>),
> {
    Seq::new(
        def.services.len(),
        |i: int|
            (
                routing_key(def.services[i].name),
                development_url(
                    def.hostname,
                    def.services[i],
                    resolved_mode(cfg, def.services[i].name),
                ),
            ),
    )
}

/// The address at which the service is reached during development.
pub fn service_development_url(hostname: &str, service: &Service, mode: DeployMode) -> (r: String)
    ensures
        r@ == development_url(hostname@, service@, mode),
{
    match mode {
        DeployMode::Cluster => {
            match &service.cluster_prefix {
                Some(prefix) => concat3("http://", hostname, prefix.as_str()),
                None => concat3("http://", hostname, "/"),
            }
        },
        DeployMode::Local => {
            let port = i32_text(service.port);
            concat2("http://localhost:", port.as_str())
        },
    }
}

/// Builds the environment that tells each service where the others are
/// while they are developed: one variable per service, in the order of the
/// definition. Where two services share a key, the later entry is the one
/// that counts.
pub fn build_development_env(def: &Definition, cfg: &ServiceConfigs) -> (env: Vec<
    (String, String),
>)
    ensures
        text_pairs(env@) == development_env(def@, cfg@),
{
    let mut env: Vec<(String, String)> = Vec::new();
    let mut i: usize = 0;
    while i < def.services.len()
        invariant
            0 <= i <= def.services.len(),
            def@.services.len() == def.services.len(),
            env.len() == i,
            forall|k: int|
                0 <= k < i ==> (#[trigger] env@[k]).0@ == development_env(def@, cfg@)[k].0
                    && env@[k].1@ == development_env(def@, cfg@)[k].1,
        decreases def.services.len() - i,
    {
        let service = &def.services[i];
        let name = service_routing_key(service.name.as_str());
        let mode = resolve_mode(cfg, service.name.as_str());
        let url = service_development_url(def.hostname.as_str(), service, mode);
        assert(def@.services[i as int] == service@);
        env.push((name, url));
        i += 1;
    }
    assert(text_pairs(env@) =~= development_env(def@, cfg@));
    env
}

/// A path with one more component, joined as paths are on Unix: an absolute
/// component stands alone, otherwise it follows the base, after a `/` unless
/// the base is empty or ends in one already.
pub open spec fn joined_path(base: Seq<char>, component: Seq<char>) -> Seq<char> {
    if component.len() > 0 && component[0] == '/' {
        component
    } else if base.len() == 0 || base.last() == '/' {
        base + component
    } else {
        base + "/"@ + component
    }
}

/// Joins a component to a path.
pub fn join_path(base: &str, component: &str) -> (r: String)
    ensures
        r@ == joined_path(base@, component@),
{
    let component_len = component.unicode_len();
    if component_len > 0 && component.get_char(0) == '/' {
        return component.to_owned();
    }
    let base_len = base.unicode_len();
    if base_len == 0 || base.get_char(base_len - 1) == '/' {
        concat2(base, component)
    } else {
        concat3(base, "/", component)
    }
}

/// The directory of a service inside the project.
pub open spec fn service_directory(project_location: Seq<char>, service_name: Seq<char>) -> Seq<
    char,
> {
    joined_path(joined_path(project_location, "services"@), service_name)
}

/// The path of a script of a service.
pub open spec fn script_path(
    project_location: Seq<char>,
    service_name: Seq<char>,
    script: Seq<char>,
) -> Seq<char> {
    joined_path(service_directory(project_location, service_name), script)
}

/// The path of a script of a service: `services`, the service's name and the
/// script's name below the project.
pub fn get_script(project_location: &str, service_name: &str, script: &str) -> (r: String)
    ensures
        r@ == script_path(project_location@, service_name@, script@),
{
    let services = join_path(project_location, "services");
    let directory = join_path(services.as_str(), service_name);
    join_path(directory.as_str(), script)
}

/// How a script of a service is run: from the service's directory, with the
/// development environment and, after it, the service's own port as `PORT`.
pub open spec fn script_run(
    project_location: Seq<char>,
    service: ServiceSpec,
    env: Seq<(Seq<char>, Seq<char>)>,
    script: Seq<char>,
) -> InvocationSpec {
    InvocationSpec {
        program: script_path(project_location, service.name, script),
        args: Seq::empty(),
        working_dir: Some(service_directory(project_location, service.name)),
        env: env.push(("PORT"@, decimal(service.port))),
        stdin: None,
    }
}

fn run_script(project_location: &str, service: &Service, env: &Vec<(String, String)>, script: &str) -> (r:
    Invocation)
    ensures
        r@ == script_run(project_location@, service@, text_pairs(env@), script@),
{
    let program = get_script(project_location, service.name.as_str(), script);
    let services = join_path(project_location, "services");
    let directory = join_path(services.as_str(), service.name.as_str());
    let mut variables: Vec<(String, String)> = Vec::new();
    let mut i: usize = 0;
    while i < env.len()
        invariant
            0 <= i <= env.len(),
            variables.len() == i,
            forall|k: int| 0 <= k < i ==> #[trigger] variables@[k] == env@[k],
        decreases env.len() - i,
    {
        variables.push((env[i].0.clone(), env[i].1.clone()));
        i += 1;
    }
    variables.push(("PORT".to_owned(), i32_text(service.port)));
    let args: Vec<String> = Vec::new();
    proof {
        assert(texts(args@) =~= Seq::<Seq<char>>::empty());
        assert(text_pairs(variables@) =~= text_pairs(env@).push(
            ("PORT"@, decimal(service.port as int)),
        ));
    }
    Invocation { program, args, working_dir: Some(directory), env: variables, stdin: None }
}

/// The call that starts a service on the developer's machine.
pub fn start_development_service(
    project_location: &str,
    service: &Service,
    env: &Vec<(String, String)>,
) -> (r: Invocation)
    ensures
        r@ == script_run(project_location@, service@, text_pairs(env@), "start.sh"@),
{
    run_script(project_location, service, env, "start.sh")
}

/// The call that stops a service on the developer's machine.
pub fn stop_development_service(
    project_location: &str,
    service: &Service,
    env: &Vec<(String, String)>,
) -> (r: Invocation)
    ensures
        r@ == script_run(project_location@, service@, text_pairs(env@), "stop.sh"@),
{
    run_script(project_location, service, env, "stop.sh")
}

} // verus!
