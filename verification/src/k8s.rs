//! The manifests that are applied to the cluster: the routing object, and
//! for each service the objects of its deployment mode.

use vstd::prelude::*;
use crate::models::Definition;
use crate::models::DefinitionSpec;
use crate::models::DeployMode;
use crate::models::Service;
use crate::models::ServiceConfig;
use crate::models::ServiceConfigs;
use crate::models::ServiceSpec;
use crate::models::resolve_mode;
use crate::models::resolved_mode;
use crate::process::Invocation;
use crate::process::InvocationSpec;
use crate::process::call;
use crate::process::no_texts;
use crate::process::plain_call;
use crate::process::push_text;
use crate::process::texts;
use crate::tagger::is_owned;
use crate::tagger::labels_of;
use crate::text::concat2;
use crate::text::concat3;
use crate::text::decimal;
use crate::text::i32_text;
use crate::text::to_uppercase;
use crate::text::uppercase;
use crate::value::ConfigTree;
use crate::value::ConfigValue;
use crate::value::entries_get;
use crate::value::entries_insert;
use crate::value::entries_view;
use crate::value::has_key;
use crate::value::insert_entry;
use crate::value::is_first_with_key;
use crate::value::keys_distinct;
use crate::value::lemma_insert_keeps_keys_distinct;
use crate::value::lemma_insert_keeps_other_keys;
use crate::value::lemma_insert_keeps_wf;
use crate::value::lemma_key_index;
use crate::value::lemma_mapping_wf;
use crate::value::lemma_wf_1;
use crate::value::lemma_wf_2;
use crate::value::lemma_wf_3;
use crate::value::lemma_wf_4;
use crate::value::lemma_wf_5;
use crate::value::new_entries;
use crate::value::push_entry;
use crate::yaml::ManifestError;
use crate::yaml::documents_text;
use crate::yaml::starts_document;
use crate::yaml::to_yaml_manifest;
use crate::yaml::to_yaml_text;
use crate::yaml::yaml_text;

verus! {

/// What a manifest builder needs to know about one service.
pub struct K8sServiceConfig<'a> {
    pub service_name: &'a str,
    pub app_name: &'a str,
    pub host_ip: &'a str,
    pub service_port: i32,
    pub config_hash: &'a str,
}

/// Mathematical model of a [`K8sServiceConfig`].
pub struct K8sServiceSpec {
    pub service_name: Seq<char>,
    pub app_name: Seq<char>,
    pub host_ip: Seq<char>,
    pub service_port: int,
    pub config_hash: Seq<char>,
}

impl<'a> View for K8sServiceConfig<'a> {
    type V = K8sServiceSpec;

    open spec fn view(&self) -> K8sServiceSpec {
        K8sServiceSpec {
            service_name: self.service_name@,
            app_name: self.app_name@,
            host_ip: self.host_ip@,
            service_port: self.service_port as int,
            config_hash: self.config_hash@,
        }
    }
}

/// The name of the routing object of one run.
pub open spec fn config_map_name(app_name: Seq<char>, config_hash: Seq<char>) -> Seq<char> {
    app_name + "-routing-"@ + config_hash
}

/// The name of the network-facing object of a service.
pub open spec fn service_object_name(service_name: Seq<char>) -> Seq<char> {
    service_name + "-service"@
}

/// The name of the container and of the image of a service.
pub open spec fn image_name(app_name: Seq<char>, service_name: Seq<char>) -> Seq<char> {
    app_name + "-"@ + service_name
}

/// The image of a service with its tag.
pub open spec fn image_tag(app_name: Seq<char>, service_name: Seq<char>) -> Seq<char> {
    app_name + "-"@ + service_name + ":latest"@
}

/// The labels of an object that belongs to a service: the ownership label,
/// the application and the service.
pub open spec fn service_labels_tree(app_name: Seq<char>, service_name: Seq<char>) -> ConfigTree {
    ConfigTree::Mapping(
        seq![
            ("minitel-app"@, ConfigTree::Str("minitel"@)),
            ("app"@, ConfigTree::Str(app_name)),
            ("tier"@, ConfigTree::Str(service_name)),
        ],
    )
}

/// The labels by which the workload of a service is selected.
pub open spec fn selector_tree(app_name: Seq<char>, service_name: Seq<char>) -> ConfigTree {
    ConfigTree::Mapping(
        seq![("app"@, ConfigTree::Str(app_name)), ("tier"@, ConfigTree::Str(service_name))],
    )
}

/// The metadata of an object: its name and its labels.
pub open spec fn metadata_tree(name: Seq<char>, labels: ConfigTree) -> ConfigTree {
    ConfigTree::Mapping(seq![("name"@, ConfigTree::Str(name)), ("labels"@, labels)])
}

/// The keys that stand side by side in one mapping of a manifest differ from
/// each other.
proof fn lemma_manifest_keys_differ()
    ensures
        "apiVersion"@ != "kind"@,
        "apiVersion"@ != "metadata"@,
        "apiVersion"@ != "data"@,
        "kind"@ != "metadata"@,
        "kind"@ != "data"@,
        "metadata"@ != "data"@,
        "apiVersion"@ != "spec"@,
        "kind"@ != "spec"@,
        "metadata"@ != "spec"@,
        "apiVersion"@ != "subsets"@,
        "kind"@ != "subsets"@,
        "metadata"@ != "subsets"@,
        "name"@ != "labels"@,
        "minitel-app"@ != "app"@,
        "minitel-app"@ != "tier"@,
        "app"@ != "tier"@,
        "ports"@ != "selector"@,
        "protocol"@ != "port"@,
        "protocol"@ != "targetPort"@,
        "port"@ != "targetPort"@,
        "replicas"@ != "selector"@,
        "replicas"@ != "template"@,
        "selector"@ != "template"@,
        "name"@ != "image"@,
        "name"@ != "imagePullPolicy"@,
        "name"@ != "env"@,
        "name"@ != "envFrom"@,
        "image"@ != "imagePullPolicy"@,
        "image"@ != "env"@,
        "image"@ != "envFrom"@,
        "imagePullPolicy"@ != "env"@,
        "imagePullPolicy"@ != "envFrom"@,
        "env"@ != "envFrom"@,
        "name"@ != "value"@,
        "addresses"@ != "ports"@,
{
    reveal_strlit("apiVersion");
    assert("apiVersion"@.len() == 10 && "apiVersion"@[0] == 'a');
    reveal_strlit("kind");
    assert("kind"@.len() == 4 && "kind"@[0] == 'k');
    reveal_strlit("metadata");
    assert("metadata"@.len() == 8 && "metadata"@[0] == 'm');
    reveal_strlit("data");
    assert("data"@.len() == 4 && "data"@[0] == 'd');
    reveal_strlit("spec");
    assert("spec"@.len() == 4 && "spec"@[0] == 's');
    reveal_strlit("subsets");
    assert("subsets"@.len() == 7 && "subsets"@[0] == 's');
    reveal_strlit("name");
    assert("name"@.len() == 4 && "name"@[0] == 'n');
    reveal_strlit("labels");
    assert("labels"@.len() == 6 && "labels"@[0] == 'l');
    reveal_strlit("minitel-app");
    assert("minitel-app"@.len() == 11 && "minitel-app"@[0] == 'm');
    reveal_strlit("app");
    assert("app"@.len() == 3 && "app"@[0] == 'a');
    reveal_strlit("tier");
    assert("tier"@.len() == 4 && "tier"@[0] == 't');
    reveal_strlit("ports");
    assert("ports"@.len() == 5 && "ports"@[0] == 'p');
    reveal_strlit("selector");
    assert("selector"@.len() == 8 && "selector"@[0] == 's');
    reveal_strlit("protocol");
    assert("protocol"@.len() == 8 && "protocol"@[0] == 'p');
    reveal_strlit("port");
    assert("port"@.len() == 4 && "port"@[0] == 'p');
    reveal_strlit("targetPort");
    assert("targetPort"@.len() == 10 && "targetPort"@[0] == 't');
    reveal_strlit("replicas");
    assert("replicas"@.len() == 8 && "replicas"@[0] == 'r');
    reveal_strlit("template");
    assert("template"@.len() == 8 && "template"@[0] == 't');
    reveal_strlit("image");
    assert("image"@.len() == 5 && "image"@[0] == 'i');
    reveal_strlit("imagePullPolicy");
    assert("imagePullPolicy"@.len() == 15 && "imagePullPolicy"@[0] == 'i');
    reveal_strlit("env");
    assert("env"@.len() == 3 && "env"@[0] == 'e');
    reveal_strlit("envFrom");
    assert("envFrom"@.len() == 7 && "envFrom"@[0] == 'e');
    reveal_strlit("value");
    assert("value"@.len() == 5 && "value"@[0] == 'v');
    reveal_strlit("addresses");
    assert("addresses"@.len() == 9 && "addresses"@[0] == 'a');
}

/// The name under which a run's routing object is published.
pub fn create_config_map_ref(app_name: &str, config_hash: &str) -> (r: String)
    ensures
        r@ == config_map_name(app_name@, config_hash@),
{
    concat3(app_name, "-routing-", config_hash)
}

fn service_labels(app_name: &str, service_name: &str) -> (r: ConfigValue)
    ensures
        r@ == service_labels_tree(app_name@, service_name@),
        r@.wf(),
{
    let mut labels = new_entries();
    push_entry(&mut labels, "minitel-app", ConfigValue::text("minitel"));
    push_entry(&mut labels, "app", ConfigValue::text(app_name));
    push_entry(&mut labels, "tier", ConfigValue::text(service_name));
    proof {
        lemma_manifest_keys_differ();
        assert(entries_view(labels@) =~= seq![
            ("minitel-app"@, ConfigTree::Str("minitel"@)),
            ("app"@, ConfigTree::Str(app_name@)),
            ("tier"@, ConfigTree::Str(service_name@)),
        ]);
        lemma_wf_3(entries_view(labels@));
    }
    ConfigValue::mapping(labels)
}

fn selector(app_name: &str, service_name: &str) -> (r: ConfigValue)
    ensures
        r@ == selector_tree(app_name@, service_name@),
        r@.wf(),
{
    let mut labels = new_entries();
    push_entry(&mut labels, "app", ConfigValue::text(app_name));
    push_entry(&mut labels, "tier", ConfigValue::text(service_name));
    proof {
        lemma_manifest_keys_differ();
        assert(entries_view(labels@) =~= seq![
            ("app"@, ConfigTree::Str(app_name@)),
            ("tier"@, ConfigTree::Str(service_name@)),
        ]);
        lemma_wf_2(entries_view(labels@));
    }
    ConfigValue::mapping(labels)
}

fn metadata(name: String, labels: ConfigValue) -> (r: ConfigValue)
    requires
        labels@.wf(),
    ensures
        r@ == metadata_tree(name@, labels@),
        r@.wf(),
{
    let mut entries = new_entries();
    push_entry(&mut entries, "name", ConfigValue::owned_text(name));
    push_entry(&mut entries, "labels", labels);
    proof {
        lemma_manifest_keys_differ();
        assert(entries_view(entries@) =~= seq![
            ("name"@, ConfigTree::Str(name@)),
            ("labels"@, labels@),
        ]);
        lemma_wf_2(entries_view(entries@));
    }
    ConfigValue::mapping(entries)
}

/// The key under which the routing object publishes a service.
pub open spec fn routing_key(service_name: Seq<char>) -> Seq<char> {
    uppercase(service_name) + "_SERVICE"@
}

/// The address at which the other services reach a service: the service's
/// own object inside the cluster where it runs there, the host machine as
/// the cluster sees it, with the service's port, where it runs locally.
pub open spec fn routing_url(service: ServiceSpec, mode: DeployMode) -> Seq<char> {
    match mode {
        DeployMode::Cluster => "http://"@ + service.name + "-service"@,
        DeployMode::Local => "http://host.minikube.internal:"@ + decimal(service.port),
    }
}

/// The entries of the routing object: one write per service, in the order of
/// the definition, each under the service's key.
pub open spec fn routing_entries(
    services: Seq<ServiceSpec>,
    cfg: Map<Seq<char>, ServiceConfig>,
) -> Seq<(Seq<char>, ConfigTree)>
    decreases services.len(),
{
    if services.len() == 0 {
        Seq::empty()
    } else {
        let service = services.last();
        entries_insert(
            routing_entries(services.drop_last(), cfg),
            routing_key(service.name),
            ConfigTree::Str(routing_url(service, resolved_mode(cfg, service.name))),
        )
    }
}

/// The labels of the routing object: the ownership label and the
/// application.
pub open spec fn routing_labels_tree(app_name: Seq<char>) -> ConfigTree {
    ConfigTree::Mapping(
        seq![("minitel-app"@, ConfigTree::Str("minitel"@)), ("app"@, ConfigTree::Str(app_name))],
    )
}

/// A routing object with the given name, application and entries.
pub open spec fn routing_object(
    name: Seq<char>,
    app_name: Seq<char>,
    entries: Seq<(Seq<char>, ConfigTree)>,
) -> ConfigTree {
    ConfigTree::Mapping(
        seq![
            ("apiVersion"@, ConfigTree::Str("v1"@)),
            ("kind"@, ConfigTree::Str("ConfigMap"@)),
            ("metadata"@, metadata_tree(name, routing_labels_tree(app_name))),
            ("data"@, ConfigTree::Mapping(entries)),
        ],
    )
}

/// The routing object of one run.
pub open spec fn routing_tree(
    def: DefinitionSpec,
    cfg: Map<Seq<char>, ServiceConfig>,
    config_hash: Seq<char>,
) -> ConfigTree {
    routing_object(
        config_map_name(def.app_name, config_hash),
        def.app_name,
        routing_entries(def.services, cfg),
    )
}

/// The routing key for a service name that is already in upper case.
pub fn routing_key_from_upper(upper_name: &str) -> (r: String)
    ensures
        r@ == upper_name@ + "_SERVICE"@,
{
    concat2(upper_name, "_SERVICE")
}

/// The key under which the routing object publishes the service.
pub fn service_routing_key(service_name: &str) -> (r: String)
    ensures
        r@ == routing_key(service_name@),
{
    let upper = to_uppercase(service_name);
    routing_key_from_upper(upper.as_str())
}

/// The address that the routing object publishes for the service.
pub fn service_routing_url(service: &Service, mode: DeployMode) -> (r: String)
    ensures
        r@ == routing_url(service@, mode),
{
    match mode {
        DeployMode::Cluster => concat3("http://", service.name.as_str(), "-service"),
        DeployMode::Local => {
            let port = i32_text(service.port);
            concat2("http://host.minikube.internal:", port.as_str())
        },
    }
}

fn routing_data(def: &Definition, cfg: &ServiceConfigs) -> (r: ConfigValue)
    ensures
        r@ == ConfigTree::Mapping(routing_entries(def@.services, cfg@)),
        r@.wf(),
{
    let mut data = new_entries();
    let mut i: usize = 0;
    proof {
        lemma_mapping_wf(entries_view(data@));
        assert(def@.services.take(0) =~= Seq::<ServiceSpec>::empty());
    }
    while i < def.services.len()
        invariant
            0 <= i <= def.services.len(),
            def@.services.len() == def.services.len(),
            entries_view(data@) == routing_entries(def@.services.take(i as int), cfg@),
            ConfigTree::Mapping(entries_view(data@)).wf(),
        decreases def.services.len() - i,
    {
        let service = &def.services[i];
        let key = service_routing_key(service.name.as_str());
        let url = service_routing_url(service, resolve_mode(cfg, service.name.as_str()));
        proof {
            let before = def@.services.take(i as int);
            let upto = def@.services.take(i + 1);
            assert(upto.drop_last() =~= before);
            assert(upto.last() == service@);
            lemma_insert_keeps_wf(entries_view(data@), key@, ConfigTree::Str(url@));
        }
        insert_entry(&mut data, key.as_str(), ConfigValue::owned_text(url));
        i += 1;
    }
    proof {
        assert(def@.services.take(i as int) =~= def@.services);
    }
    ConfigValue::mapping(data)
}

fn routing_labels(app_name: &str) -> (r: ConfigValue)
    ensures
        r@ == routing_labels_tree(app_name@),
        r@.wf(),
{
    let mut labels = new_entries();
    push_entry(&mut labels, "minitel-app", ConfigValue::text("minitel"));
    push_entry(&mut labels, "app", ConfigValue::text(app_name));
    proof {
        lemma_manifest_keys_differ();
        assert(entries_view(labels@) =~= seq![
            ("minitel-app"@, ConfigTree::Str("minitel"@)),
            ("app"@, ConfigTree::Str(app_name@)),
        ]);
        lemma_wf_2(entries_view(labels@));
    }
    ConfigValue::mapping(labels)
}

/// The routing object of one run, as a document.
pub fn routing_document(def: &Definition, cfg: &ServiceConfigs, hash: &str) -> (r:
    ConfigValue)
    ensures
        r@ == routing_tree(def@, cfg@, hash@),
        r@.wf(),
{
    let name = create_config_map_ref(def.app_name.as_str(), hash);
    let meta = metadata(name, routing_labels(def.app_name.as_str()));
    let data = routing_data(def, cfg);
    let mut template = new_entries();
    push_entry(&mut template, "apiVersion", ConfigValue::text("v1"));
    push_entry(&mut template, "kind", ConfigValue::text("ConfigMap"));
    push_entry(&mut template, "metadata", meta);
    push_entry(&mut template, "data", data);
    proof {
        lemma_manifest_keys_differ();
        assert(entries_view(template@) =~= seq![
            ("apiVersion"@, ConfigTree::Str("v1"@)),
            ("kind"@, ConfigTree::Str("ConfigMap"@)),
            ("metadata"@, meta@),
            ("data"@, data@),
        ]);
        lemma_wf_4(entries_view(template@));
    }
    ConfigValue::mapping(template)
}

/// The port entry of a cluster-mode service: port 80 of the object leads to
/// the port on which the service listens.
pub open spec fn forwarded_port_tree(service_port: int) -> ConfigTree {
    ConfigTree::Mapping(
        seq![
            ("protocol"@, ConfigTree::Str("TCP"@)),
            ("port"@, ConfigTree::Int(80)),
            ("targetPort"@, ConfigTree::Int(service_port)),
        ],
    )
}

/// The network-facing object of a service that runs in the cluster. It
/// selects the service's workload by application and tier.
pub open spec fn cluster_service_tree(c: K8sServiceSpec) -> ConfigTree {
    ConfigTree::Mapping(
        seq![
            ("apiVersion"@, ConfigTree::Str("v1"@)),
            ("kind"@, ConfigTree::Str("Service"@)),
            (
                "metadata"@,
                metadata_tree(
                    service_object_name(c.service_name),
                    service_labels_tree(c.app_name, c.service_name),
                ),
            ),
            (
                "spec"@,
                ConfigTree::Mapping(
                    seq![
                        ("ports"@, ConfigTree::List(seq![forwarded_port_tree(c.service_port)])),
                        ("selector"@, selector_tree(c.app_name, c.service_name)),
                    ],
                ),
            ),
        ],
    )
}

/// The environment that is given to the container by name: its port.
pub open spec fn port_variable_tree(service_port: int) -> ConfigTree {
    ConfigTree::Mapping(
        seq![("name"@, ConfigTree::Str("PORT"@)), ("value"@, ConfigTree::Str(decimal(service_port)))],
    )
}

/// The bulk import of the run's routing object into the container's
/// environment.
pub open spec fn routing_import_tree(app_name: Seq<char>, config_hash: Seq<char>) -> ConfigTree {
    ConfigTree::Mapping(
        seq![
            (
                "configMapRef"@,
                ConfigTree::Mapping(
                    seq![("name"@, ConfigTree::Str(config_map_name(app_name, config_hash)))],
                ),
            ),
        ],
    )
}

/// The container of a service: named after application and service, run
/// from the locally built image and never pulled from a registry.
pub open spec fn container_tree(c: K8sServiceSpec) -> ConfigTree {
    ConfigTree::Mapping(
        seq![
            ("name"@, ConfigTree::Str(image_name(c.app_name, c.service_name))),
            ("image"@, ConfigTree::Str(image_tag(c.app_name, c.service_name))),
            ("imagePullPolicy"@, ConfigTree::Str("Never"@)),
            ("env"@, ConfigTree::List(seq![port_variable_tree(c.service_port)])),
            ("envFrom"@, ConfigTree::List(seq![routing_import_tree(c.app_name, c.config_hash)])),
        ],
    )
}

/// The pod template of a service's workload.
pub open spec fn pod_template_tree(c: K8sServiceSpec) -> ConfigTree {
    ConfigTree::Mapping(
        seq![
            ("metadata"@, metadata_tree(c.service_name, selector_tree(c.app_name, c.service_name))),
            (
                "spec"@,
                ConfigTree::Mapping(
                    seq![("containers"@, ConfigTree::List(seq![container_tree(c)]))],
                ),
            ),
        ],
    )
}

/// The selector of a workload: its pods are those of the service's tier.
pub open spec fn tier_selector_tree(service_name: Seq<char>) -> ConfigTree {
    ConfigTree::Mapping(
        seq![
            ("matchLabels"@, ConfigTree::Mapping(seq![("tier"@, ConfigTree::Str(service_name))])),
        ],
    )
}

/// The workload object of a service that runs in the cluster: one replica
/// of the service's container.
pub open spec fn deployment_tree(c: K8sServiceSpec) -> ConfigTree {
    ConfigTree::Mapping(
        seq![
            ("apiVersion"@, ConfigTree::Str("apps/v1"@)),
            ("kind"@, ConfigTree::Str("Deployment"@)),
            (
                "metadata"@,
                metadata_tree(c.service_name, service_labels_tree(c.app_name, c.service_name)),
            ),
            (
                "spec"@,
                ConfigTree::Mapping(
                    seq![
                        ("replicas"@, ConfigTree::Int(1)),
                        ("selector"@, tier_selector_tree(c.service_name)),
                        ("template"@, pod_template_tree(c)),
                    ],
                ),
            ),
        ],
    )
}

/// The port entry of a local-mode service: port 80, with no target inside
/// the cluster.
pub open spec fn plain_port_tree() -> ConfigTree {
    ConfigTree::Mapping(seq![("protocol"@, ConfigTree::Str("TCP"@)), ("port"@, ConfigTree::Int(80))])
}

/// The network-facing object of a service that runs on the host: it has no
/// selector, since no workload in the cluster stands behind it.
pub open spec fn local_service_tree(c: K8sServiceSpec) -> ConfigTree {
    ConfigTree::Mapping(
        seq![
            ("apiVersion"@, ConfigTree::Str("v1"@)),
            ("kind"@, ConfigTree::Str("Service"@)),
            (
                "metadata"@,
                metadata_tree(
                    service_object_name(c.service_name),
                    service_labels_tree(c.app_name, c.service_name),
                ),
            ),
            ("spec"@, ConfigTree::Mapping(seq![("ports"@, ConfigTree::List(seq![plain_port_tree()]))])),
        ],
    )
}

/// The address and port to which a local-mode service is bound: the host
/// machine and the port on which the service listens there.
pub open spec fn subset_tree(host_ip: Seq<char>, service_port: int) -> ConfigTree {
    ConfigTree::Mapping(
        seq![
            (
                "addresses"@,
                ConfigTree::List(seq![ConfigTree::Mapping(seq![("ip"@, ConfigTree::Str(host_ip))])]),
            ),
            (
                "ports"@,
                ConfigTree::List(
                    seq![ConfigTree::Mapping(seq![("port"@, ConfigTree::Int(service_port))])],
                ),
            ),
        ],
    )
}

/// The object that attaches a local-mode service to the host machine.
pub open spec fn endpoints_tree(c: K8sServiceSpec) -> ConfigTree {
    ConfigTree::Mapping(
        seq![
            ("apiVersion"@, ConfigTree::Str("v1"@)),
            ("kind"@, ConfigTree::Str("Endpoints"@)),
            (
                "metadata"@,
                metadata_tree(
                    service_object_name(c.service_name),
                    service_labels_tree(c.app_name, c.service_name),
                ),
            ),
            ("subsets"@, ConfigTree::List(seq![subset_tree(c.host_ip, c.service_port)])),
        ],
    )
}

/// A mapping with a single entry.
fn single_entry(key: &str, value: ConfigValue) -> (r: ConfigValue)
    requires
        value@.wf(),
    ensures
        r@ == ConfigTree::Mapping(seq![(key@, value@)]),
        r@.wf(),
{
    let mut entries = new_entries();
    push_entry(&mut entries, key, value);
    proof {
        assert(entries_view(entries@) =~= seq![(key@, value@)]);
        lemma_wf_1(entries_view(entries@));
    }
    ConfigValue::mapping(entries)
}

fn service_metadata(config: &K8sServiceConfig) -> (r: ConfigValue)
    ensures
        r@ == metadata_tree(
            service_object_name(config@.service_name),
            service_labels_tree(config@.app_name, config@.service_name),
        ),
        r@.wf(),
{
    metadata(
        concat2(config.service_name, "-service"),
        service_labels(config.app_name, config.service_name),
    )
}

fn forwarded_port(service_port: i32) -> (r: ConfigValue)
    ensures
        r@ == forwarded_port_tree(service_port as int),
        r@.wf(),
{
    let mut port = new_entries();
    push_entry(&mut port, "protocol", ConfigValue::text("TCP"));
    push_entry(&mut port, "port", ConfigValue::integer(80));
    push_entry(&mut port, "targetPort", ConfigValue::integer(service_port));
    proof {
        lemma_manifest_keys_differ();
        assert(entries_view(port@) =~= seq![
            ("protocol"@, ConfigTree::Str("TCP"@)),
            ("port"@, ConfigTree::Int(80)),
            ("targetPort"@, ConfigTree::Int(service_port as int)),
        ]);
        lemma_wf_3(entries_view(port@));
    }
    ConfigValue::mapping(port)
}

/// The network-facing object of a service that runs in the cluster.
pub fn cluster_service_document(config: &K8sServiceConfig) -> (r: ConfigValue)
    ensures
        r@ == cluster_service_tree(config@),
        r@.wf(),
{
    let meta = service_metadata(config);
    let mut spec = new_entries();
    let ports = ConfigValue::singleton(forwarded_port(config.service_port));
    let pods = selector(config.app_name, config.service_name);
    push_entry(&mut spec, "ports", ports);
    push_entry(&mut spec, "selector", pods);
    proof {
        lemma_manifest_keys_differ();
        assert(entries_view(spec@) =~= seq![("ports"@, ports@), ("selector"@, pods@)]);
        lemma_wf_2(entries_view(spec@));
    }
    let spec_value = ConfigValue::mapping(spec);
    let mut template = new_entries();
    push_entry(&mut template, "apiVersion", ConfigValue::text("v1"));
    push_entry(&mut template, "kind", ConfigValue::text("Service"));
    push_entry(&mut template, "metadata", meta);
    push_entry(&mut template, "spec", spec_value);
    proof {
        assert(entries_view(template@) =~= seq![
            ("apiVersion"@, ConfigTree::Str("v1"@)),
            ("kind"@, ConfigTree::Str("Service"@)),
            ("metadata"@, meta@),
            ("spec"@, spec_value@),
        ]);
        lemma_wf_4(entries_view(template@));
    }
    ConfigValue::mapping(template)
}

fn port_variable(service_port: i32) -> (r: ConfigValue)
    ensures
        r@ == port_variable_tree(service_port as int),
        r@.wf(),
{
    let mut env = new_entries();
    push_entry(&mut env, "name", ConfigValue::text("PORT"));
    push_entry(&mut env, "value", ConfigValue::owned_text(i32_text(service_port)));
    proof {
        lemma_manifest_keys_differ();
        assert(entries_view(env@) =~= seq![
            ("name"@, ConfigTree::Str("PORT"@)),
            ("value"@, ConfigTree::Str(decimal(service_port as int))),
        ]);
        lemma_wf_2(entries_view(env@));
    }
    ConfigValue::mapping(env)
}

fn routing_import(app_name: &str, config_hash: &str) -> (r: ConfigValue)
    ensures
        r@ == routing_import_tree(app_name@, config_hash@),
        r@.wf(),
{
    let name = ConfigValue::owned_text(create_config_map_ref(app_name, config_hash));
    single_entry("configMapRef", single_entry("name", name))
}

fn container(config: &K8sServiceConfig) -> (r: ConfigValue)
    ensures
        r@ == container_tree(config@),
        r@.wf(),
{
    let name = concat3(config.app_name, "-", config.service_name);
    let mut image = concat3(config.app_name, "-", config.service_name);
    image.append(":latest");
    let env = ConfigValue::singleton(port_variable(config.service_port));
    let env_from = ConfigValue::singleton(routing_import(config.app_name, config.config_hash));
    let mut entries = new_entries();
    push_entry(&mut entries, "name", ConfigValue::owned_text(name));
    push_entry(&mut entries, "image", ConfigValue::owned_text(image));
    push_entry(&mut entries, "imagePullPolicy", ConfigValue::text("Never"));
    push_entry(&mut entries, "env", env);
    push_entry(&mut entries, "envFrom", env_from);
    proof {
        lemma_manifest_keys_differ();
        assert(entries_view(entries@) =~= seq![
            ("name"@, ConfigTree::Str(image_name(config@.app_name, config@.service_name))),
            ("image"@, ConfigTree::Str(image_tag(config@.app_name, config@.service_name))),
            ("imagePullPolicy"@, ConfigTree::Str("Never"@)),
            ("env"@, env@),
            ("envFrom"@, env_from@),
        ]);
        lemma_wf_5(entries_view(entries@));
    }
    ConfigValue::mapping(entries)
}

fn pod_template(config: &K8sServiceConfig) -> (r: ConfigValue)
    ensures
        r@ == pod_template_tree(config@),
        r@.wf(),
{
    let meta = metadata(
        config.service_name.to_owned(),
        selector(config.app_name, config.service_name),
    );
    let spec = single_entry("containers", ConfigValue::singleton(container(config)));
    let mut entries = new_entries();
    push_entry(&mut entries, "metadata", meta);
    push_entry(&mut entries, "spec", spec);
    proof {
        reveal_strlit("metadata");
        reveal_strlit("spec");
        assert("metadata"@.len() == 8 && "spec"@.len() == 4);
        assert(entries_view(entries@) =~= seq![("metadata"@, meta@), ("spec"@, spec@)]);
        lemma_wf_2(entries_view(entries@));
    }
    ConfigValue::mapping(entries)
}

/// The workload object of a service that runs in the cluster.
pub fn deployment_document(config: &K8sServiceConfig) -> (r: ConfigValue)
    ensures
        r@ == deployment_tree(config@),
        r@.wf(),
{
    let meta = metadata(
        config.service_name.to_owned(),
        service_labels(config.app_name, config.service_name),
    );
    let pods = single_entry(
        "matchLabels",
        single_entry("tier", ConfigValue::text(config.service_name)),
    );
    let template = pod_template(config);
    let mut spec = new_entries();
    push_entry(&mut spec, "replicas", ConfigValue::integer(1));
    push_entry(&mut spec, "selector", pods);
    push_entry(&mut spec, "template", template);
    proof {
        lemma_manifest_keys_differ();
        assert(entries_view(spec@) =~= seq![
            ("replicas"@, ConfigTree::Int(1)),
            ("selector"@, pods@),
            ("template"@, template@),
        ]);
        lemma_wf_3(entries_view(spec@));
    }
    let spec_value = ConfigValue::mapping(spec);
    let mut entries = new_entries();
    push_entry(&mut entries, "apiVersion", ConfigValue::text("apps/v1"));
    push_entry(&mut entries, "kind", ConfigValue::text("Deployment"));
    push_entry(&mut entries, "metadata", meta);
    push_entry(&mut entries, "spec", spec_value);
    proof {
        assert(entries_view(entries@) =~= seq![
            ("apiVersion"@, ConfigTree::Str("apps/v1"@)),
            ("kind"@, ConfigTree::Str("Deployment"@)),
            ("metadata"@, meta@),
            ("spec"@, spec_value@),
        ]);
        lemma_wf_4(entries_view(entries@));
    }
    ConfigValue::mapping(entries)
}

fn plain_port() -> (r: ConfigValue)
    ensures
        r@ == plain_port_tree(),
        r@.wf(),
{
    let mut port = new_entries();
    push_entry(&mut port, "protocol", ConfigValue::text("TCP"));
    push_entry(&mut port, "port", ConfigValue::integer(80));
    proof {
        lemma_manifest_keys_differ();
        assert(entries_view(port@) =~= seq![
            ("protocol"@, ConfigTree::Str("TCP"@)),
            ("port"@, ConfigTree::Int(80)),
        ]);
        lemma_wf_2(entries_view(port@));
    }
    ConfigValue::mapping(port)
}

/// The network-facing object of a service that runs on the host.
pub fn local_service_document(config: &K8sServiceConfig) -> (r: ConfigValue)
    ensures
        r@ == local_service_tree(config@),
        r@.wf(),
{
    let meta = service_metadata(config);
    let spec = single_entry("ports", ConfigValue::singleton(plain_port()));
    let mut entries = new_entries();
    push_entry(&mut entries, "apiVersion", ConfigValue::text("v1"));
    push_entry(&mut entries, "kind", ConfigValue::text("Service"));
    push_entry(&mut entries, "metadata", meta);
    push_entry(&mut entries, "spec", spec);
    proof {
        lemma_manifest_keys_differ();
        assert(entries_view(entries@) =~= seq![
            ("apiVersion"@, ConfigTree::Str("v1"@)),
            ("kind"@, ConfigTree::Str("Service"@)),
            ("metadata"@, meta@),
            ("spec"@, spec@),
        ]);
        lemma_wf_4(entries_view(entries@));
    }
    ConfigValue::mapping(entries)
}

fn subset(host_ip: &str, service_port: i32) -> (r: ConfigValue)
    ensures
        r@ == subset_tree(host_ip@, service_port as int),
        r@.wf(),
{
    let addresses = ConfigValue::singleton(single_entry("ip", ConfigValue::text(host_ip)));
    let ports = ConfigValue::singleton(single_entry("port", ConfigValue::integer(service_port)));
    let mut entries = new_entries();
    push_entry(&mut entries, "addresses", addresses);
    push_entry(&mut entries, "ports", ports);
    proof {
        lemma_manifest_keys_differ();
        assert(entries_view(entries@) =~= seq![("addresses"@, addresses@), ("ports"@, ports@)]);
        lemma_wf_2(entries_view(entries@));
    }
    ConfigValue::mapping(entries)
}

/// The object that attaches a local-mode service to the host machine.
pub fn endpoints_document(config: &K8sServiceConfig) -> (r: ConfigValue)
    ensures
        r@ == endpoints_tree(config@),
        r@.wf(),
{
    let meta = service_metadata(config);
    let subsets = ConfigValue::singleton(subset(config.host_ip, config.service_port));
    let mut entries = new_entries();
    push_entry(&mut entries, "apiVersion", ConfigValue::text("v1"));
    push_entry(&mut entries, "kind", ConfigValue::text("Endpoints"));
    push_entry(&mut entries, "metadata", meta);
    push_entry(&mut entries, "subsets", subsets);
    proof {
        lemma_manifest_keys_differ();
        assert(entries_view(entries@) =~= seq![
            ("apiVersion"@, ConfigTree::Str("v1"@)),
            ("kind"@, ConfigTree::Str("Endpoints"@)),
            ("metadata"@, meta@),
            ("subsets"@, subsets@),
        ]);
        lemma_wf_4(entries_view(entries@));
    }
    ConfigValue::mapping(entries)
}

/// The text of a written manifest, or the error in its place.
pub open spec fn manifest_outcome(r: Result<String, ManifestError>) -> Result<
    Seq<char>,
    ManifestError,
> {
    match r {
        Ok(s) => Ok(s@),
        Err(e) => Err(e),
    }
}

/// What building the routing object gives: the text that the YAML writer
/// gives for the routing object of the definition, the overrides and the
/// hash, or an error where the writer gives none.
pub open spec fn routing_definition(
    def: DefinitionSpec,
    cfg: Map<Seq<char>, ServiceConfig>,
    config_hash: Seq<char>,
) -> Result<Seq<char>, ManifestError> {
    match yaml_text(routing_tree(def, cfg, config_hash)) {
        Some(text) => Ok(text),
        None => Err(ManifestError::Serialization),
    }
}

/// Builds the routing object of one run and writes it as YAML.
///
/// The text is what the YAML writer gives for the routing object of the
/// definition, the overrides and the hash; nothing else enters it.
pub fn build_routing_definition(
    def: &Definition,
    cfg: &ServiceConfigs,
    hash: &str,
) -> (r: Result<String, ManifestError>)
    ensures
        manifest_outcome(r) == routing_definition(def@, cfg@, hash@),
        r matches Ok(s) ==> starts_document(s@),
{
    let document = routing_document(def, cfg, hash);
    to_yaml_text(&document)
}

/// What building a manifest of two documents gives: the text of the first
/// followed by the text of the second, or an error where the YAML writer
/// gives no text for one of them.
pub open spec fn manifest_of(first: ConfigTree, second: ConfigTree) -> Result<
    Seq<char>,
    ManifestError,
> {
    match documents_text(first, second) {
        Some(text) => Ok(text),
        None => Err(ManifestError::Serialization),
    }
}

/// Builds the manifest of a service that runs in the cluster: its
/// network-facing object, then its workload. Each of the two begins with
/// the marker of a new document.
pub fn build_service_cluster_definition(config: &K8sServiceConfig) -> (r: Result<
    String,
    ManifestError,
>)
    ensures
        manifest_outcome(r) == manifest_of(cluster_service_tree(config@), deployment_tree(config@)),
        r is Ok ==> starts_document(yaml_text(cluster_service_tree(config@))->0)
            && starts_document(yaml_text(deployment_tree(config@))->0),
{
    let service = cluster_service_document(config);
    let deployment = deployment_document(config);
    to_yaml_manifest(&service, &deployment)
}

/// Builds the manifest of a service that runs on the host: its
/// network-facing object, then the object that binds it to the host's
/// address and the service's port. Each of the two begins with the marker of
/// a new document.
pub fn build_service_local_definition(config: &K8sServiceConfig) -> (r: Result<
    String,
    ManifestError,
>)
    ensures
        manifest_outcome(r) == manifest_of(local_service_tree(config@), endpoints_tree(config@)),
        r is Ok ==> starts_document(yaml_text(local_service_tree(config@))->0) && starts_document(
            yaml_text(endpoints_tree(config@))->0,
        ),
{
    let service = local_service_document(config);
    let endpoints = endpoints_document(config);
    to_yaml_manifest(&service, &endpoints)
}

/// The call that applies a manifest: the manifest is handed to the cluster's
/// command line on its standard input.
pub open spec fn apply_call(manifest: Seq<char>) -> InvocationSpec {
    InvocationSpec {
        program: "kubectl"@,
        args: seq!["apply"@, "-f"@, "-"@],
        working_dir: None,
        env: Seq::empty(),
        stdin: Some(manifest),
    }
}

/// The call that removes everything that carries the ownership label, and
/// waits until it is gone.
pub open spec fn delete_all_call() -> InvocationSpec {
    plain_call(
        "kubectl"@,
        seq!["delete"@, "all,ingress,configmap"@, "-l"@, "minitel-app=minitel"@, "--wait=true"@],
    )
}

/// The call that applies a manifest.
pub fn kubectl_apply(config: &str) -> (r: Invocation)
    ensures
        r@ == apply_call(config@),
{
    let mut args = no_texts();
    push_text(&mut args, "apply");
    push_text(&mut args, "-f");
    push_text(&mut args, "-");
    proof {
        assert(texts(args@) =~= seq!["apply"@, "-f"@, "-"@]);
    }
    let mut invocation = call("kubectl", args);
    invocation.stdin = Some(config.to_owned());
    invocation
}

/// The call that removes everything that this tool created or adopted.
pub fn kubectl_delete_all() -> (r: Invocation)
    ensures
        r@ == delete_all_call(),
{
    let mut args = no_texts();
    push_text(&mut args, "delete");
    push_text(&mut args, "all,ingress,configmap");
    push_text(&mut args, "-l");
    push_text(&mut args, "minitel-app=minitel");
    push_text(&mut args, "--wait=true");
    proof {
        assert(texts(args@) =~= seq![
            "delete"@,
            "all,ingress,configmap"@,
            "-l"@,
            "minitel-app=minitel"@,
            "--wait=true"@,
        ]);
    }
    call("kubectl", args)
}

/// A document whose metadata stands at `at`, before any other entry called
/// `metadata`, and holds the given labels, has those labels.
proof fn lemma_labels_under_metadata(
    top: Seq<(Seq<char>, ConfigTree)>,
    at: int,
    name: Seq<char>,
    labels: Seq<(Seq<char>, ConfigTree)>,
)
    requires
        is_first_with_key(top, "metadata"@, at),
        top[at].1 == metadata_tree(name, ConfigTree::Mapping(labels)),
    ensures
        labels_of(ConfigTree::Mapping(top)) == Some(labels),
{
    lemma_manifest_keys_differ();
    lemma_key_index(top, "metadata"@, at);
    let meta = metadata_tree(name, ConfigTree::Mapping(labels))->Mapping_0;
    assert(is_first_with_key(meta, "labels"@, 1));
    lemma_key_index(meta, "labels"@, 1);
}

/// The labels of an object of a service begin with the ownership label.
proof fn lemma_service_labels_are_owned(
    top: Seq<(Seq<char>, ConfigTree)>,
    name: Seq<char>,
    app_name: Seq<char>,
    service_name: Seq<char>,
)
    requires
        is_first_with_key(top, "metadata"@, 2),
        top[2].1 == metadata_tree(name, service_labels_tree(app_name, service_name)),
    ensures
        is_owned(ConfigTree::Mapping(top)),
{
    let labels = service_labels_tree(app_name, service_name)->Mapping_0;
    lemma_labels_under_metadata(top, 2, name, labels);
    assert(is_first_with_key(labels, "minitel-app"@, 0));
    lemma_key_index(labels, "minitel-app"@, 0);
}

/// Every object that is built carries the ownership label, so that a
/// teardown finds it: the routing object, the two objects of a service that
/// runs in the cluster and the two objects of a service that runs on the
/// host.
pub proof fn lemma_built_objects_are_owned(
    def: DefinitionSpec,
    cfg: Map<Seq<char>, ServiceConfig>,
    config_hash: Seq<char>,
    c: K8sServiceSpec,
)
    ensures
        is_owned(routing_tree(def, cfg, config_hash)),
        is_owned(cluster_service_tree(c)),
        is_owned(deployment_tree(c)),
        is_owned(local_service_tree(c)),
        is_owned(endpoints_tree(c)),
{
    lemma_manifest_keys_differ();
    let routing = routing_tree(def, cfg, config_hash)->Mapping_0;
    let labels = routing_labels_tree(def.app_name)->Mapping_0;
    assert(is_first_with_key(routing, "metadata"@, 2));
    lemma_labels_under_metadata(routing, 2, config_map_name(def.app_name, config_hash), labels);
    assert(is_first_with_key(labels, "minitel-app"@, 0));
    lemma_key_index(labels, "minitel-app"@, 0);

    let service_name = service_object_name(c.service_name);
    let cluster_service = cluster_service_tree(c)->Mapping_0;
    assert(is_first_with_key(cluster_service, "metadata"@, 2));
    lemma_service_labels_are_owned(cluster_service, service_name, c.app_name, c.service_name);

    let deployment = deployment_tree(c)->Mapping_0;
    assert(is_first_with_key(deployment, "metadata"@, 2));
    lemma_service_labels_are_owned(deployment, c.service_name, c.app_name, c.service_name);

    let local_service = local_service_tree(c)->Mapping_0;
    assert(is_first_with_key(local_service, "metadata"@, 2));
    lemma_service_labels_are_owned(local_service, service_name, c.app_name, c.service_name);

    let endpoints = endpoints_tree(c)->Mapping_0;
    assert(is_first_with_key(endpoints, "metadata"@, 2));
    lemma_service_labels_are_owned(endpoints, service_name, c.app_name, c.service_name);
}

/// A teardown selects what it removes by the ownership label: the selector
/// that it hands to the cluster's command line is the label's key, `=`, and
/// the label's value.
pub proof fn lemma_teardown_selects_by_ownership_label()
    ensures
        delete_all_call().args.len() == 5,
        delete_all_call().args[2] == "-l"@,
        delete_all_call().args[3] == "minitel-app"@ + "="@ + "minitel"@,
{
    reveal_strlit("minitel-app=minitel");
    reveal_strlit("minitel-app");
    reveal_strlit("=");
    reveal_strlit("minitel");
    assert("minitel-app=minitel"@ =~= "minitel-app"@ + "="@ + "minitel"@);
}

/// Where no two services of a definition share a routing key, the routing
/// object has exactly one entry per service, in the order of the
/// definition: the entry of a service stands under the service's name in
/// upper case followed by `_SERVICE`, and holds the address that the
/// selection rule gives for the mode in which the service is deployed.
pub proof fn lemma_routing_entry_per_service(
    services: Seq<ServiceSpec>,
    cfg: Map<Seq<char>, ServiceConfig>,
)
    requires
        forall|i: int, j: int|
            0 <= i < j < services.len() ==> routing_key(services[i].name) != routing_key(
                services[j].name,
            ),
    ensures
        routing_entries(services, cfg).len() == services.len(),
        forall|i: int|
            0 <= i < services.len() ==> #[trigger] routing_entries(services, cfg)[i] == (
                routing_key(services[i].name),
                ConfigTree::Str(routing_url(services[i], resolved_mode(cfg, services[i].name))),
            ),
    decreases services.len(),
{
    if services.len() > 0 {
        let front = services.drop_last();
        let last = services.last();
        lemma_routing_entry_per_service(front, cfg);
        let before = routing_entries(front, cfg);
        let key = routing_key(last.name);
        assert(!has_key(before, key)) by {
            if has_key(before, key) {
                let w = choose|i: int| 0 <= i < before.len() && #[trigger] before[i].0 == key;
                assert(before[w].0 == routing_key(front[w].name));
                assert(front[w] == services[w]);
            }
        }
        let after = routing_entries(services, cfg);
        assert forall|i: int| 0 <= i < services.len() implies #[trigger] after[i] == (
            routing_key(services[i].name),
            ConfigTree::Str(routing_url(services[i], resolved_mode(cfg, services[i].name))),
        ) by {
            if i < front.len() {
                assert(after[i] == before[i]);
                assert(front[i] == services[i]);
            }
        }
    }
}

/// Whatever the services are called, the routing object has no key twice,
/// and every service finds under its key the address of a service with that
/// key: its own, unless a later service of the definition has the same key.
pub proof fn lemma_routing_entries_cover_services(
    services: Seq<ServiceSpec>,
    cfg: Map<Seq<char>, ServiceConfig>,
)
    ensures
        keys_distinct(routing_entries(services, cfg)),
        forall|i: int|
            0 <= i < services.len() ==> has_key(
                routing_entries(services, cfg),
                #[trigger] routing_key(services[i].name),
            ),
        forall|i: int|
            0 <= i < services.len() && (forall|j: int|
                i < j < services.len() ==> routing_key(services[j].name) != routing_key(
                    services[i].name,
                )) ==> entries_get(
                routing_entries(services, cfg),
                #[trigger] routing_key(services[i].name),
            ) == Some(
                ConfigTree::Str(routing_url(services[i], resolved_mode(cfg, services[i].name))),
            ),
    decreases services.len(),
{
    if services.len() > 0 {
        let front = services.drop_last();
        let last = services.last();
        lemma_routing_entries_cover_services(front, cfg);
        let before = routing_entries(front, cfg);
        let key = routing_key(last.name);
        let value = ConfigTree::Str(routing_url(last, resolved_mode(cfg, last.name)));
        let after = routing_entries(services, cfg);
        lemma_insert_keeps_keys_distinct(before, key, value);
        assert forall|i: int| 0 <= i < services.len() implies has_key(
            after,
            #[trigger] routing_key(services[i].name),
        ) by {
            if i < front.len() {
                assert(front[i] == services[i]);
                if routing_key(front[i].name) != key {
                    lemma_insert_keeps_other_keys(before, key, value, routing_key(front[i].name));
                }
            }
        }
        assert forall|i: int|
            0 <= i < services.len() && (forall|j: int|
                i < j < services.len() ==> routing_key(services[j].name) != routing_key(
                    services[i].name,
                )) implies entries_get(after, #[trigger] routing_key(services[i].name)) == Some(
            ConfigTree::Str(routing_url(services[i], resolved_mode(cfg, services[i].name))),
        ) by {
            if i < front.len() {
                assert(front[i] == services[i]);
                assert(routing_key(last.name) != routing_key(services[i].name));
                assert forall|j: int| i < j < front.len() implies routing_key(front[j].name)
                    != routing_key(front[i].name) by {
                    assert(front[j] == services[j]);
                }
                lemma_insert_keeps_other_keys(before, key, value, routing_key(front[i].name));
            }
        }
    } else {
        assert(routing_entries(services, cfg) =~= Seq::empty());
    }
}

/// Two routing objects of one definition and one set of overrides differ in
/// nothing but their names: the entries and the labels do not depend on the
/// hash, the name depends on the application's name and the hash alone, and
/// different hashes give different names.
pub proof fn lemma_routing_differs_by_name_only(
    def: DefinitionSpec,
    cfg: Map<Seq<char>, ServiceConfig>,
    first_hash: Seq<char>,
    second_hash: Seq<char>,
)
    ensures
        routing_tree(def, cfg, first_hash) == routing_object(
            config_map_name(def.app_name, first_hash),
            def.app_name,
            routing_entries(def.services, cfg),
        ),
        routing_tree(def, cfg, second_hash) == routing_object(
            config_map_name(def.app_name, second_hash),
            def.app_name,
            routing_entries(def.services, cfg),
        ),
        first_hash != second_hash ==> config_map_name(def.app_name, first_hash) != config_map_name(
            def.app_name,
            second_hash,
        ),
        first_hash != second_hash ==> routing_tree(def, cfg, first_hash) != routing_tree(
            def,
            cfg,
            second_hash,
        ),
{
    let prefix = def.app_name + "-routing-"@;
    let first = config_map_name(def.app_name, first_hash);
    let second = config_map_name(def.app_name, second_hash);
    assert(first.subrange(prefix.len() as int, first.len() as int) =~= first_hash);
    assert(second.subrange(prefix.len() as int, second.len() as int) =~= second_hash);
    if first_hash != second_hash {
        let a = routing_tree(def, cfg, first_hash);
        let b = routing_tree(def, cfg, second_hash);
        let meta_a = metadata_tree(first, routing_labels_tree(def.app_name));
        let meta_b = metadata_tree(second, routing_labels_tree(def.app_name));
        assert(a->Mapping_0[2].1 == meta_a);
        assert(b->Mapping_0[2].1 == meta_b);
        assert(meta_a->Mapping_0[0].1 == ConfigTree::Str(first));
        assert(meta_b->Mapping_0[0].1 == ConfigTree::Str(second));
    }
}

/// Building the routing object is deterministic: whatever two builds give
/// for definitions, overrides and hashes that are equal, they give the same
/// text, character by character, or the same error.
pub proof fn lemma_routing_definition_is_deterministic(
    first_def: Definition,
    first_cfg: ServiceConfigs,
    first_hash: &str,
    first: Result<String, ManifestError>,
    second_def: Definition,
    second_cfg: ServiceConfigs,
    second_hash: &str,
    second: Result<String, ManifestError>,
)
    requires
        first_def@ == second_def@,
        first_cfg@ == second_cfg@,
        first_hash@ == second_hash@,
        manifest_outcome(first) == routing_definition(first_def@, first_cfg@, first_hash@),
        manifest_outcome(second) == routing_definition(second_def@, second_cfg@, second_hash@),
    ensures
        manifest_outcome(first) == manifest_outcome(second),
{
}

} // verus!
