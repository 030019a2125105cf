//! The record of a deployed application.

use crate::nodes::node::Node;
use std::collections::HashMap;
use vstd::prelude::*;

verus! {

/// A pair of resource quantities, each kept as written.
pub struct ResourceSpec {
    pub memory: String,
    pub cpu: String,
}

/// What a [`ResourceSpec`] stands for.
pub struct ResourceSpecView {
    pub memory: Seq<char>,
    pub cpu: Seq<char>,
}

impl View for ResourceSpec {
    type V = ResourceSpecView;

    open spec fn view(&self) -> ResourceSpecView {
        ResourceSpecView { memory: self.memory@, cpu: self.cpu@ }
    }
}

/// The resources that a deployment may use at most, and those it asks for.
pub struct ResourceRequirementsNode {
    pub limits: ResourceSpec,
    pub requests: ResourceSpec,
}

/// What a [`ResourceRequirementsNode`] stands for.
pub struct ResourceRequirementsView {
    pub limits: ResourceSpecView,
    pub requests: ResourceSpecView,
}

impl View for ResourceRequirementsNode {
    type V = ResourceRequirementsView;

    open spec fn view(&self) -> ResourceRequirementsView {
        ResourceRequirementsView { limits: self.limits@, requests: self.requests@ }
    }
}

/// The volume of a deployment and its size.
pub struct StorageConfigNode {
    pub volume: String,
    pub size: String,
}

/// What a [`StorageConfigNode`] stands for.
pub struct StorageConfigView {
    pub volume: Seq<char>,
    pub size: Seq<char>,
}

impl View for StorageConfigNode {
    type V = StorageConfigView;

    open spec fn view(&self) -> StorageConfigView {
        StorageConfigView { volume: self.volume@, size: self.size@ }
    }
}

/// A deployed application.
///
/// `ports` maps the name of a port to its number. Where `resources` or
/// `storage` is absent, the platform applies its default.
pub struct DeploymentNode {
    pub name: String,
    pub namespace: String,
    pub replicas: i32,
    pub image: String,
    pub args: Vec<String>,
    pub env: HashMap<String, String>,
    pub ports: HashMap<String, i32>,
    pub resources: Option<ResourceRequirementsNode>,
    pub storage: Option<StorageConfigNode>,
}

/// What a [`DeploymentNode`] stands for. The arguments are a sequence, in
/// their order; the environment and the ports are maps, so a key stands for
/// one value and the order of the entries means nothing.
pub struct DeploymentView {
    pub name: Seq<char>,
    pub namespace: Seq<char>,
    pub replicas: int,
    pub image: Seq<char>,
    pub args: Seq<Seq<char>>,
    pub env: Map<Seq<char>, Seq<char>>,
    pub ports: Map<Seq<char>, i32>,
    pub resources: Option<ResourceRequirementsView>,
    pub storage: Option<StorageConfigView>,
}

impl View for DeploymentNode {
    type V = DeploymentView;

    open spec fn view(&self) -> DeploymentView {
        DeploymentView {
            name: self.name@,
            namespace: self.namespace@,
            replicas: self.replicas as int,
            image: self.image@,
            args: self.args.deep_view(),
            env: self.env.deep_view(),
            ports: self.ports.deep_view(),
            resources: match self.resources {
                Some(r) => Some(r@),
                None => None,
            },
            storage: match self.storage {
                Some(s) => Some(s@),
                None => None,
            },
        }
    }
}

impl Node for DeploymentNode {
    /// The kind of every deployment, whatever its fields hold.
    fn node_type(&self) -> (kind: String)
        ensures
            kind@ == "Deployment"@,
    {
        "Deployment".to_owned()
    }
}

} // verus!
