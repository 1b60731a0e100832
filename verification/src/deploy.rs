//! Kubernetes resources that run the gateway.

use crate::string_map;
use crate::string_map::StringMap;
use vstd::prelude::*;

verus! {

/// An environment variable of a container.
#[derive(Debug)]
pub struct EnvVar {
    /// The name of the variable.
    pub name: String,
    /// Its value.
    pub value: Option<String>,
}

/// What identifies a resource.
#[derive(Debug)]
pub struct ObjectMeta {
    /// The name of the resource.
    pub name: Option<String>,
    /// Its namespace.
    pub namespace: Option<String>,
    /// Its labels.
    pub labels: Option<StringMap<String>>,
}

/// Which resources are meant.
#[derive(Debug)]
pub struct LabelSelector {
    /// The labels that they have.
    pub match_labels: Option<StringMap<String>>,
}

/// A port of a container.
#[derive(Debug)]
pub struct ContainerPort {
    /// The number of the port.
    pub container_port: i32,
    /// Its name.
    pub name: Option<String>,
    /// Its protocol.
    pub protocol: Option<String>,
}

/// A container.
#[derive(Debug)]
pub struct Container {
    /// The name of the container.
    pub name: String,
    /// Its image.
    pub image: Option<String>,
    /// Its ports.
    pub ports: Option<Vec<ContainerPort>>,
    /// Its environment variables.
    pub env: Option<Vec<EnvVar>>,
}

/// What runs in a pod.
#[derive(Debug)]
pub struct PodSpec {
    /// The containers.
    pub containers: Vec<Container>,
}

/// What pods are made from.
#[derive(Debug)]
pub struct PodTemplateSpec {
    /// What identifies the pods.
    pub metadata: Option<ObjectMeta>,
    /// What runs in them.
    pub spec: Option<PodSpec>,
}

/// What a deployment consists of.
#[derive(Debug)]
pub struct DeploymentSpec {
    /// How many pods there are.
    pub replicas: Option<i32>,
    /// Which pods belong to it.
    pub selector: LabelSelector,
    /// What the pods are made from.
    pub template: PodTemplateSpec,
}

/// A deployment.
#[derive(Debug)]
pub struct Deployment {
    /// What identifies the deployment.
    pub metadata: ObjectMeta,
    /// What it consists of.
    pub spec: Option<DeploymentSpec>,
}

/// A port of a service.
#[derive(Debug)]
pub struct ServicePort {
    /// The number of the port.
    pub port: i32,
    /// The port of the pods.
    pub target_port: Option<i32>,
    /// Its name.
    pub name: Option<String>,
    /// Its protocol.
    pub protocol: Option<String>,
}

/// What a service consists of.
#[derive(Debug)]
pub struct ServiceSpec {
    /// The labels of the pods that serve.
    pub selector: Option<StringMap<String>>,
    /// The ports.
    pub ports: Option<Vec<ServicePort>>,
    /// The type of the service.
    pub type_: Option<String>,
}

/// A service.
#[derive(Debug)]
pub struct Service {
    /// What identifies the service.
    pub metadata: ObjectMeta,
    /// What it consists of.
    pub spec: Option<ServiceSpec>,
}

/// The resources that run the gateway.
#[derive(Debug)]
pub struct PolkuResources {
    /// The deployment.
    pub deployment: Deployment,
    /// The service.
    pub service: Service,
}

/// The mathematical value of a [`PolkuDeployment`].
#[verifier::ext_equal]
pub struct DeploymentPlan {
    /// The name of the resources.
    pub name: Seq<char>,
    /// Their namespace.
    pub namespace: Seq<char>,
    /// The image of the container.
    pub image: Seq<char>,
    /// How many pods there are.
    pub replicas: i32,
    /// The port of the gateway.
    pub grpc_port: i32,
    /// The environment variables, in the order in which they were added.
    pub env: Seq<(Seq<char>, Seq<char>)>,
    /// The labels.
    pub labels: Map<Seq<char>, Seq<char>>,
}

/// A text that is there.
pub open spec fn holds(value: Option<String>, wanted: Seq<char>) -> bool {
    value matches Some(s) && s@ == wanted
}

/// Labels that are there.
pub open spec fn holds_labels(
    value: Option<StringMap<String>>,
    wanted: Map<Seq<char>, Seq<char>>,
) -> bool {
    value matches Some(m) && m.texts() == wanted
}

/// The environment variables of a plan.
pub open spec fn holds_env(vars: Seq<EnvVar>, env: Seq<(Seq<char>, Seq<char>)>) -> bool {
    &&& vars.len() == env.len()
    &&& forall|i: int|
        0 <= i < vars.len() ==> (#[trigger] vars[i]).name@ == env[i].0 && holds(
            vars[i].value,
            env[i].1,
        )
}

impl DeploymentPlan {
    /// The plan for a name, where nothing else is said.
    pub open spec fn named(name: Seq<char>) -> DeploymentPlan {
        DeploymentPlan {
            name,
            namespace: "default"@,
            image: "polku-gateway:latest"@,
            replicas: 1,
            grpc_port: 50051,
            env: Seq::empty(),
            labels: Map::<Seq<char>, Seq<char>>::empty().insert("app"@, name).insert(
                "app.kubernetes.io/name"@,
                "polku"@,
            ).insert("app.kubernetes.io/component"@, "gateway"@),
        }
    }

    /// The labels by which the pods are found.
    pub open spec fn selector(self) -> Map<Seq<char>, Seq<char>> {
        Map::<Seq<char>, Seq<char>>::empty().insert("app"@, self.name)
    }

    /// What identifies the resources.
    pub open spec fn identifies(self, meta: ObjectMeta) -> bool {
        &&& holds(meta.name, self.name)
        &&& holds(meta.namespace, self.namespace)
        &&& holds_labels(meta.labels, self.labels)
    }

    /// The container that runs the gateway.
    pub open spec fn runs_in(self, container: Container) -> bool {
        &&& container.name@ == "polku"@
        &&& holds(container.image, self.image)
        &&& container.ports matches Some(ports) && ports@.len() == 1 && {
            &&& ports@[0].container_port == self.grpc_port
            &&& holds(ports@[0].name, "grpc"@)
            &&& holds(ports@[0].protocol, "TCP"@)
        }
        &&& match container.env {
            Some(vars) => self.env.len() > 0 && holds_env(vars@, self.env),
            None => self.env.len() == 0,
        }
    }

    /// The pods of the deployment.
    pub open spec fn fills(self, template: PodTemplateSpec) -> bool {
        &&& template.metadata matches Some(meta) && {
            &&& meta.name is None
            &&& meta.namespace is None
            &&& holds_labels(meta.labels, self.labels)
        }
        &&& template.spec matches Some(pod) && pod.containers@.len() == 1 && self.runs_in(
            pod.containers@[0],
        )
    }

    /// The deployment of the plan.
    pub open spec fn is_deployment(self, d: Deployment) -> bool {
        &&& self.identifies(d.metadata)
        &&& d.spec matches Some(spec) && {
            &&& spec.replicas == Some(self.replicas)
            &&& holds_labels(spec.selector.match_labels, self.selector())
            &&& self.fills(spec.template)
        }
    }

    /// The service of the plan.
    pub open spec fn is_service(self, s: Service) -> bool {
        &&& self.identifies(s.metadata)
        &&& s.spec matches Some(spec) && {
            &&& holds_labels(spec.selector, self.selector())
            &&& spec.ports matches Some(ports) && ports@.len() == 1 && {
                &&& ports@[0].port == self.grpc_port
                &&& ports@[0].target_port == Some(self.grpc_port)
                &&& holds(ports@[0].name, "grpc"@)
                &&& holds(ports@[0].protocol, "TCP"@)
            }
            &&& holds(spec.type_, "ClusterIP"@)
        }
    }
}

/// Builds the resources that run the gateway.
#[derive(Debug)]
pub struct PolkuDeployment {
    name: String,
    namespace: String,
    image: String,
    replicas: i32,
    grpc_port: i32,
    env_vars: Vec<(String, String)>,
    labels: StringMap<String>,
}

/// The texts of a list of pairs.
pub open spec fn pair_texts(pairs: Seq<(String, String)>) -> Seq<(Seq<char>, Seq<char>)> {
    Seq::new(pairs.len(), |i: int| (pairs[i].0@, pairs[i].1@))
}

impl View for PolkuDeployment {
    type V = DeploymentPlan;

    closed spec fn view(&self) -> DeploymentPlan {
        DeploymentPlan {
            name: self.name@,
            namespace: self.namespace@,
            image: self.image@,
            replicas: self.replicas,
            grpc_port: self.grpc_port,
            env: pair_texts(self.env_vars@),
            labels: self.labels.texts(),
        }
    }
}

impl Clone for PolkuDeployment {
    fn clone(&self) -> (r: Self)
        ensures
            r@ == self@,
    {
        let mut env_vars: Vec<(String, String)> = Vec::new();
        let mut i: usize = 0;
        while i < self.env_vars.len()
            invariant
                i <= self.env_vars@.len(),
                env_vars@ == self.env_vars@.take(i as int),
            decreases self.env_vars@.len() - i,
        {
            env_vars.push((self.env_vars[i].0.clone(), self.env_vars[i].1.clone()));
            i += 1;
            assert(env_vars@ =~= self.env_vars@.take(i as int));
        }
        assert(env_vars@ =~= self.env_vars@);
        PolkuDeployment {
            name: self.name.clone(),
            namespace: self.namespace.clone(),
            image: self.image.clone(),
            replicas: self.replicas,
            grpc_port: self.grpc_port,
            env_vars,
            labels: self.labels.clone(),
        }
    }
}

impl PolkuDeployment {
    /// A deployment with a name.
    pub fn new(name: &str) -> (r: Self)
        ensures
            r@ == DeploymentPlan::named(name@),
    {
        broadcast use string_map::group_texts;

        let mut labels: StringMap<String> = StringMap::new();
        labels.insert("app".to_string(), name.to_string());
        labels.insert("app.kubernetes.io/name".to_string(), "polku".to_string());
        labels.insert("app.kubernetes.io/component".to_string(), "gateway".to_string());
        let r = PolkuDeployment {
            name: name.to_string(),
            namespace: "default".to_string(),
            image: "polku-gateway:latest".to_string(),
            replicas: 1,
            grpc_port: 50051,
            env_vars: Vec::new(),
            labels,
        };
        assert(pair_texts(r.env_vars@) =~= Seq::<(Seq<char>, Seq<char>)>::empty());
        r
    }

    /// Sets the namespace.
    pub fn namespace(self, ns: &str) -> (r: Self)
        ensures
            r@ == (DeploymentPlan { namespace: ns@, ..self@ }),
    {
        let mut builder = self;
        builder.namespace = ns.to_string();
        builder
    }

    /// Sets the image of the container.
    pub fn image(self, image: &str) -> (r: Self)
        ensures
            r@ == (DeploymentPlan { image: image@, ..self@ }),
    {
        let mut builder = self;
        builder.image = image.to_string();
        builder
    }

    /// Sets how many pods there are.
    pub fn replicas(self, n: i32) -> (r: Self)
        ensures
            r@ == (DeploymentPlan { replicas: n, ..self@ }),
    {
        let mut builder = self;
        builder.replicas = n;
        builder
    }

    /// Sets the port of the gateway.
    pub fn grpc_port(self, port: i32) -> (r: Self)
        ensures
            r@ == (DeploymentPlan { grpc_port: port, ..self@ }),
    {
        let mut builder = self;
        builder.grpc_port = port;
        builder
    }

    /// Adds an environment variable.
    pub fn env(self, name: &str, value: &str) -> (r: Self)
        ensures
            r@ == (DeploymentPlan { env: self@.env.push((name@, value@)), ..self@ }),
    {
        let mut builder = self;
        builder.env_vars.push((name.to_string(), value.to_string()));
        assert(pair_texts(builder.env_vars@) =~= self@.env.push((name@, value@)));
        builder
    }

    /// Adds a label, in place of one with the same key.
    pub fn label(self, key: &str, value: &str) -> (r: Self)
        ensures
            r@ == (DeploymentPlan { labels: self@.labels.insert(key@, value@), ..self@ }),
    {
        broadcast use string_map::group_texts;

        let mut builder = self;
        builder.labels.insert(key.to_string(), value.to_string());
        builder
    }

    /// What identifies the resources.
    fn metadata(&self) -> (r: ObjectMeta)
        ensures
            self@.identifies(r),
    {
        ObjectMeta {
            name: Some(self.name.clone()),
            namespace: Some(self.namespace.clone()),
            labels: Some(self.labels.clone()),
        }
    }

    /// The labels by which the pods are found.
    fn selector(&self) -> (r: StringMap<String>)
        ensures
            r.texts() == self@.selector(),
    {
        broadcast use string_map::group_texts;

        let mut r: StringMap<String> = StringMap::new();
        r.insert("app".to_string(), self.name.clone());
        r
    }

    /// The environment variables of the container.
    fn env_list(&self) -> (r: Vec<EnvVar>)
        ensures
            holds_env(r@, self@.env),
    {
        let mut r: Vec<EnvVar> = Vec::new();
        let mut i: usize = 0;
        while i < self.env_vars.len()
            invariant
                i <= self.env_vars@.len(),
                r@.len() == i,
                forall|j: int|
                    0 <= j < i ==> (#[trigger] r@[j]).name@ == self@.env[j].0 && holds(
                        r@[j].value,
                        self@.env[j].1,
                    ),
            decreases self.env_vars@.len() - i,
        {
            r.push(
                EnvVar {
                    name: self.env_vars[i].0.clone(),
                    value: Some(self.env_vars[i].1.clone()),
                },
            );
            i += 1;
        }
        r
    }

    /// The container that runs the gateway.
    fn container(&self) -> (r: Container)
        ensures
            self@.runs_in(r),
    {
        let port = ContainerPort {
            container_port: self.grpc_port,
            name: Some("grpc".to_string()),
            protocol: Some("TCP".to_string()),
        };
        let vars = self.env_list();
        Container {
            name: "polku".to_string(),
            image: Some(self.image.clone()),
            ports: Some(vec![port]),
            env: if vars.len() == 0 {
                None
            } else {
                Some(vars)
            },
        }
    }

    /// Builds the deployment.
    pub fn build_deployment(&self) -> (r: Deployment)
        ensures
            self@.is_deployment(r),
    {
        let template = PodTemplateSpec {
            metadata: Some(
                ObjectMeta { name: None, namespace: None, labels: Some(self.labels.clone()) },
            ),
            spec: Some(PodSpec { containers: vec![self.container()] }),
        };
        Deployment {
            metadata: self.metadata(),
            spec: Some(
                DeploymentSpec {
                    replicas: Some(self.replicas),
                    selector: LabelSelector { match_labels: Some(self.selector()) },
                    template,
                },
            ),
        }
    }

    /// Builds the service.
    pub fn build_service(&self) -> (r: Service)
        ensures
            self@.is_service(r),
    {
        let port = ServicePort {
            port: self.grpc_port,
            target_port: Some(self.grpc_port),
            name: Some("grpc".to_string()),
            protocol: Some("TCP".to_string()),
        };
        Service {
            metadata: self.metadata(),
            spec: Some(
                ServiceSpec {
                    selector: Some(self.selector()),
                    ports: Some(vec![port]),
                    type_: Some("ClusterIP".to_string()),
                },
            ),
        }
    }

    /// Builds the deployment and the service.
    pub fn build(self) -> (r: PolkuResources)
        ensures
            self@.is_deployment(r.deployment),
            self@.is_service(r.service),
    {
        PolkuResources { deployment: self.build_deployment(), service: self.build_service() }
    }
}

/// The service and the deployment of a plan fit together: they select the same pods,
/// the pods of the deployment are among them, and the service asks them at the port of
/// the container. This is where the label "app" was not changed.
pub proof fn service_reaches_the_pods(plan: DeploymentPlan, d: Deployment, s: Service)
    requires
        plan.is_deployment(d),
        plan.is_service(s),
        plan.labels.contains_key("app"@),
        plan.labels["app"@] == plan.name,
    ensures
        ({
            let spec = d.spec->0;
            let pods = spec.template.metadata->0.labels->0.texts();
            let selected = s.spec->0.selector->0.texts();
            &&& spec.selector.match_labels->0.texts() == selected
            &&& forall|key: Seq<char>| #[trigger]
                selected.contains_key(key) ==> pods.contains_key(key) && pods[key]
                    == selected[key]
            &&& s.spec->0.ports->0@[0].target_port == Some(
                spec.template.spec->0.containers@[0].ports->0@[0].container_port,
            )
        }),
{
}

/// A plan that nothing was changed in has the label by which its pods are found.
pub proof fn new_plans_label_their_pods(name: Seq<char>)
    ensures
        DeploymentPlan::named(name).labels.contains_key("app"@),
        DeploymentPlan::named(name).labels["app"@] == name,
{
    reveal_strlit("app");
    reveal_strlit("app.kubernetes.io/name");
    reveal_strlit("app.kubernetes.io/component");
    assert("app"@.len() != "app.kubernetes.io/name"@.len());
    assert("app"@.len() != "app.kubernetes.io/component"@.len());
}

} // verus!
