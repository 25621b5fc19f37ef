//! The application definition, the per-service overrides and the context of
//! one run.

use vstd::prelude::*;
use vstd::hash_map::StringHashMap;

verus! {

/// Where a service runs.
#[derive(Clone, Copy, Debug, PartialEq, Eq, Structural)]
pub enum DeployMode {
    /// As a plain process on the host machine.
    Local,
    /// As a workload scheduled inside the cluster.
    Cluster,
}

/// The override that a developer may give for one service.
#[derive(Clone, Copy, Debug, PartialEq, Eq)]
pub struct ServiceConfig {
    pub deploy: DeployMode,
}

/// The overrides of a project, by service name. A service that has no entry
/// runs in the cluster.
pub type ServiceConfigs = StringHashMap<ServiceConfig>;

/// One service of the application.
#[derive(Debug, PartialEq, Eq)]
pub struct Service {
    pub name: String,
    pub port: i32,
    pub cluster_prefix: Option<String>,
}

/// The application as its definition file describes it.
#[derive(Debug, PartialEq, Eq)]
pub struct Definition {
    pub services: Vec<Service>,
    pub hostname: String,
    pub app_name: String,
}

/// What is known about the machine and the project during one run.
pub struct GlobalConfig<'a> {
    pub host_ip: &'a str,
    pub minikube_ip: &'a str,
    pub app_name: &'a str,
    pub config_hash: &'a str,
    pub project_location: &'a str,
}

/// Mathematical model of a [`GlobalConfig`].
pub struct GlobalSpec {
    pub host_ip: Seq<char>,
    pub minikube_ip: Seq<char>,
    pub app_name: Seq<char>,
    pub config_hash: Seq<char>,
    pub project_location: Seq<char>,
}

impl<'a> View for GlobalConfig<'a> {
    type V = GlobalSpec;

    open spec fn view(&self) -> GlobalSpec {
        GlobalSpec {
            host_ip: self.host_ip@,
            minikube_ip: self.minikube_ip@,
            app_name: self.app_name@,
            config_hash: self.config_hash@,
            project_location: self.project_location@,
        }
    }
}

/// Mathematical model of a [`Service`].
pub struct ServiceSpec {
    pub name: Seq<char>,
    pub port: int,
    pub cluster_prefix: Option<Seq<char>>,
}

/// Mathematical model of a [`Definition`].
pub struct DefinitionSpec {
    pub services: Seq<ServiceSpec>,
    pub hostname: Seq<char>,
    pub app_name: Seq<char>,
}

impl View for Service {
    type V = ServiceSpec;

    open spec fn view(&self) -> ServiceSpec {
        ServiceSpec {
            name: self.name@,
            port: self.port as int,
            cluster_prefix: match self.cluster_prefix {
                Some(p) => Some(p@),
                None => None,
            },
        }
    }
}

impl View for Definition {
    type V = DefinitionSpec;

    open spec fn view(&self) -> DefinitionSpec {
        DefinitionSpec {
            services: self.services@.map_values(|s: Service| s@),
            hostname: self.hostname@,
            app_name: self.app_name@,
        }
    }
}

/// The mode in which the service called `name` is deployed: the override
/// where one is given, the cluster otherwise.
pub open spec fn resolved_mode(cfg: Map<Seq<char>, ServiceConfig>, name: Seq<char>) -> DeployMode {
    if cfg.contains_key(name) {
        cfg[name].deploy
    } else {
        DeployMode::Cluster
    }
}

/// Looks up the deployment mode of a service, falling back to the cluster
/// when the overrides do not mention it. The overrides are left untouched.
pub fn resolve_mode(cfg: &ServiceConfigs, name: &str) -> (mode: DeployMode)
    ensures
        mode == resolved_mode(cfg@, name@),
{
    match cfg.get(name) {
        Some(c) => c.deploy,
        None => DeployMode::Cluster,
    }
}

} // verus!
