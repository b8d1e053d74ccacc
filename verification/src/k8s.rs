use std::collections::BTreeMap;

use vstd::prelude::*;
use vstd::string::*;

use crate::text::owned;

verus! {

/// A container of a Kubernetes pod specification, carried through as it is.
#[verifier::external_type_specification]
#[verifier::external_body]
pub struct ExContainer(k8s_openapi::api::core::v1::Container);

/// A port of a Kubernetes service, carried through as it is.
#[verifier::external_type_specification]
#[verifier::external_body]
pub struct ExServicePort(k8s_openapi::api::core::v1::ServicePort);

/// A reference from a Kubernetes object to its owner, carried through as it is.
#[verifier::external_type_specification]
#[verifier::external_body]
pub struct ExOwnerReference(k8s_openapi::apimachinery::pkg::apis::meta::v1::OwnerReference);

/// A Kubernetes namespace, identified by its name.
#[derive(Debug, Clone, PartialEq, Eq)]
pub struct SINamespace {
    pub name: String,
}

impl SINamespace {
    /// A namespace with the given name.
    pub fn new(name: &str) -> (ns: Self)
        ensures
            ns.name@ == name@,
    {
        SINamespace { name: name.to_string() }
    }
}

impl Default for SINamespace {
    /// The namespace named `default`.
    fn default() -> (ns: Self)
        ensures
            ns.name@ == "default"@,
    {
        SINamespace { name: owned("default") }
    }
}

/// A container: its name, its image, and optionally its environment and command.
pub struct SIContainer {
    pub name: String,
    pub image: String,
    pub env: Option<BTreeMap<String, String>>,
    pub command: Option<Vec<String>>,
}

impl SIContainer {
    /// A container with the given name and image, and no environment or command of its own.
    pub fn new(name: &str, image: &str) -> (c: Self)
        ensures
            c.name@ == name@,
            c.image@ == image@,
            c.env is None,
            c.command is None,
    {
        SIContainer { name: name.to_string(), image: image.to_string(), env: None, command: None }
    }
}

impl Default for SIContainer {
    /// A container with empty name and image, and no environment or command.
    fn default() -> (c: Self)
        ensures
            c.name@ == Seq::<char>::empty(),
            c.image@ == Seq::<char>::empty(),
            c.env is None,
            c.command is None,
    {
        SIContainer { name: String::new(), image: String::new(), env: None, command: None }
    }
}

/// A config map: its name, metadata, owners and data.
pub struct SIConfigMap {
    pub name: String,
    pub metadata: BTreeMap<String, String>,
    pub owner_references: Option<Vec<k8s_openapi::apimachinery::pkg::apis::meta::v1::OwnerReference>>,
    pub data: Option<BTreeMap<String, String>>,
}

impl SIConfigMap {
    /// An empty config map with the given name.
    pub fn new(name: &str) -> (c: Self)
        ensures
            c.name@ == name@,
            c.metadata@ == Map::<String, String>::empty(),
            c.owner_references is None,
            c.data is None,
    {
        SIConfigMap {
            name: name.to_string(),
            metadata: BTreeMap::new(),
            owner_references: None,
            data: None,
        }
    }
}

impl Default for SIConfigMap {
    /// The empty config map named `default`.
    fn default() -> (c: Self)
        ensures
            c.name@ == "default"@,
            c.metadata@ == Map::<String, String>::empty(),
            c.owner_references is None,
            c.data is None,
    {
        SIConfigMap {
            name: owned("default"),
            metadata: BTreeMap::new(),
            owner_references: None,
            data: None,
        }
    }
}

/// A deployment: its name, metadata, labels, number of replicas, image, environment and
/// containers.
pub struct SIDeployment {
    pub name: String,
    pub metadata: BTreeMap<String, String>,
    pub labels: BTreeMap<String, String>,
    pub replicas: u32,
    pub image: String,
    pub env: BTreeMap<String, String>,
    pub containers: BTreeMap<String, k8s_openapi::api::core::v1::Container>,
}

impl Default for SIDeployment {
    /// A deployment of one replica with nothing else set.
    fn default() -> (d: Self)
        ensures
            d.name@ == Seq::<char>::empty(),
            d.metadata@ == Map::<String, String>::empty(),
            d.labels@ == Map::<String, String>::empty(),
            d.replicas == 1,
            d.image@ == Seq::<char>::empty(),
            d.env@ == Map::<String, String>::empty(),
            d.containers@ == Map::<String, k8s_openapi::api::core::v1::Container>::empty(),
    {
        SIDeployment {
            name: String::new(),
            metadata: BTreeMap::new(),
            labels: BTreeMap::new(),
            replicas: 1,
            image: String::new(),
            env: BTreeMap::new(),
            containers: BTreeMap::new(),
        }
    }
}

/// A pod: its metadata, labels, number of replicas, ports and environment.
pub struct SIPod {
    pub metadata: BTreeMap<String, String>,
    pub labels: BTreeMap<String, String>,
    pub replicas: u32,
    pub ports: BTreeMap<usize, k8s_openapi::api::core::v1::ServicePort>,
    pub env: BTreeMap<String, String>,
}

impl SIPod {
    /// A pod of one replica with nothing else set; the name is not kept.
    pub fn new(name: &str) -> (p: Self)
        ensures
            p.metadata@ == Map::<String, String>::empty(),
            p.labels@ == Map::<String, String>::empty(),
            p.replicas == 1,
            p.ports@ == Map::<usize, k8s_openapi::api::core::v1::ServicePort>::empty(),
            p.env@ == Map::<String, String>::empty(),
    {
        SIPod {
            metadata: BTreeMap::new(),
            labels: BTreeMap::new(),
            replicas: 1,
            ports: BTreeMap::new(),
            env: BTreeMap::new(),
        }
    }
}

} // verus!
