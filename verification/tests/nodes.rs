use neon::nodes::deployment_node::{
    DeploymentNode, ResourceRequirementsNode, ResourceSpec, StorageConfigNode,
};
use neon::nodes::node::Node;
use neon::nodes::service_node::ServiceNode;
use std::collections::HashMap;

#[test]
fn test_deployment_node_creation() {
    let resource_requirements = ResourceRequirementsNode {
        limits: ResourceSpec {
            memory: "512Mi".to_string(),
            cpu: "1".to_string(),
        },
        requests: ResourceSpec {
            memory: "256Mi".to_string(),
            cpu: "0.5".to_string(),
        },
    };

    let storage_config = StorageConfigNode {
        volume: "my-volume".to_string(),
        size: "1Gi".to_string(),
    };

    let deployment_node = DeploymentNode {
        name: "my-deployment".to_string(),
        namespace: "default".to_string(),
        replicas: 3,
        image: "my-image".to_string(),
        args: vec!["arg1".to_string(), "arg2".to_string()],
        env: [("ENV_VAR".to_string(), "value".to_string())].iter().cloned().collect(),
        ports: [("http".to_string(), 80)].iter().cloned().collect(),
        resources: Some(resource_requirements),
        storage: Some(storage_config),
    };

    assert_eq!(deployment_node.name, "my-deployment");
    assert_eq!(deployment_node.namespace, "default");
    assert_eq!(deployment_node.replicas, 3);
    assert_eq!(deployment_node.image, "my-image");
    assert_eq!(deployment_node.args, vec!["arg1".to_string(), "arg2".to_string()]);
    assert_eq!(deployment_node.env.get("ENV_VAR").unwrap(), "value");
    assert_eq!(deployment_node.ports.get("http").unwrap(), &80);
    assert!(deployment_node.resources.is_some());
    assert!(deployment_node.storage.is_some());
}

#[test]
fn test_deployment_node_type() {
    let deployment_node = DeploymentNode {
        name: "my-deployment".to_string(),
        namespace: "default".to_string(),
        replicas: 3,
        image: "my-image".to_string(),
        args: vec!["arg1".to_string(), "arg2".to_string()],
        env: HashMap::new(),
        ports: HashMap::new(),
        resources: None,
        storage: None,
    };

    assert_eq!(deployment_node.node_type(), "Deployment");
}

struct TestNode;

impl Node for TestNode {
    fn node_type(&self) -> String {
        "Example".to_string()
    }
}

#[test]
fn test_node_type() {
    let node = TestNode;
    assert_eq!(node.node_type(), "Example");
}

fn deployment_with_image(image: &str) -> DeploymentNode {
    DeploymentNode {
        name: "web".to_string(),
        namespace: "prod".to_string(),
        replicas: 1,
        image: image.to_string(),
        args: Vec::new(),
        env: HashMap::new(),
        ports: HashMap::new(),
        resources: None,
        storage: None,
    }
}

#[test]
fn deployments_with_different_images_have_one_type() {
    let first = deployment_with_image("nginx:1.25");
    let second = deployment_with_image("redis:7");
    assert_ne!(first.image, second.image);
    assert_eq!(first.node_type(), "Deployment");
    assert_eq!(second.node_type(), "Deployment");
}

#[test]
fn deployment_without_resources_and_storage_is_a_deployment() {
    let node = deployment_with_image("nginx");
    assert!(node.resources.is_none());
    assert!(node.storage.is_none());
    assert_eq!(node.node_type(), "Deployment");
}

#[test]
fn service_reports_its_type_and_resolves_its_port() {
    let mut ports = HashMap::new();
    ports.insert(80, 8080);
    let mut labels = HashMap::new();
    labels.insert("app".to_string(), "my-app".to_string());
    let service = ServiceNode {
        name: "my-service".to_string(),
        namespace: "default".to_string(),
        ports,
        labels,
    };
    assert_eq!(service.node_type(), "Service");
    assert_eq!(service.ports.get(&80), Some(&8080));
    assert_eq!(service.ports.get(&81), None);
    assert_eq!(service.labels.get("app").unwrap(), "my-app");
}

#[test]
fn service_may_offer_several_ports() {
    let mut ports = HashMap::new();
    ports.insert(80, 8080);
    ports.insert(443, 8443);
    ports.insert(80, 9090);
    let service = ServiceNode {
        name: "edge".to_string(),
        namespace: "default".to_string(),
        ports,
        labels: HashMap::new(),
    };
    assert_eq!(service.ports.len(), 2);
    assert_eq!(service.ports.get(&80), Some(&9090));
    assert_eq!(service.ports.get(&443), Some(&8443));
    assert_eq!(service.node_type(), "Service");
}

#[test]
fn nodes_of_both_kinds_answer_through_the_trait() {
    let nodes: Vec<Box<dyn Node>> = vec![
        Box::new(deployment_with_image("nginx")),
        Box::new(ServiceNode {
            name: "svc".to_string(),
            namespace: "default".to_string(),
            ports: HashMap::new(),
            labels: HashMap::new(),
        }),
    ];
    let kinds: Vec<String> = nodes.iter().map(|n| n.node_type()).collect();
    assert_eq!(kinds, vec!["Deployment".to_string(), "Service".to_string()]);
}
