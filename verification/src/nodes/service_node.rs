//! The record of a service.

use crate::nodes::node::Node;
use std::collections::HashMap;
use vstd::prelude::*;

verus! {

/// A service.
///
/// `ports` maps a port that the service offers to the port that it forwards
/// to; a service may offer several ports.
pub struct ServiceNode {
    pub name: String,
    pub namespace: String,
    pub ports: HashMap<i32, i32>,
    pub labels: HashMap<String, String>,
}

/// What a [`ServiceNode`] stands for. The ports and the labels are maps, so
/// a key stands for one value and the order of the entries means nothing.
pub struct ServiceView {
    pub name: Seq<char>,
    pub namespace: Seq<char>,
    pub ports: Map<i32, i32>,
    pub labels: Map<Seq<char>, Seq<char>>,
}

impl View for ServiceNode {
    type V = ServiceView;

    open spec fn view(&self) -> ServiceView {
        ServiceView {
            name: self.name@,
            namespace: self.namespace@,
            ports: self.ports@,
            labels: self.labels.deep_view(),
        }
    }
}

impl Node for ServiceNode {
    /// The kind of every service, whatever its fields hold.
    fn node_type(&self) -> (kind: String)
        ensures
            kind@ == "Service"@,
    {
        "Service".to_owned()
    }
}

} // verus!
