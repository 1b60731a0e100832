//! Kubernetes resources.

use polku_gateway::deploy::PolkuDeployment;

#[test]
fn test_polku_deployment_builder() {
    let polku = PolkuDeployment::new("my-polku")
        .namespace("prod")
        .image("polku:v1.0")
        .replicas(3)
        .grpc_port(8080)
        .env("LOG_LEVEL", "info")
        .label("env", "production");

    let resources = polku.build();

    // Check deployment
    assert_eq!(
        resources.deployment.metadata.name,
        Some("my-polku".to_string())
    );
    assert_eq!(
        resources.deployment.metadata.namespace,
        Some("prod".to_string())
    );
    assert_eq!(
        resources.deployment.spec.as_ref().unwrap().replicas,
        Some(3)
    );

    // Check service
    assert_eq!(
        resources.service.metadata.name,
        Some("my-polku".to_string())
    );
}

#[test]
fn test_polku_deployment_defaults() {
    let polku = PolkuDeployment::new("test").build();

    assert_eq!(polku.deployment.spec.as_ref().unwrap().replicas, Some(1));

    let container = &polku
        .deployment
        .spec
        .as_ref()
        .unwrap()
        .template
        .spec
        .as_ref()
        .unwrap()
        .containers[0];
    assert_eq!(container.image, Some("polku-gateway:latest".to_string()));
    assert_eq!(container.ports.as_ref().unwrap()[0].container_port, 50051);
}

#[test]
fn service_fits_the_deployment() {
    let r = PolkuDeployment::new("gw")
        .grpc_port(7000)
        .env("A", "1")
        .env("B", "2")
        .build();
    let spec = r.deployment.spec.unwrap();
    let selected = r.service.spec.as_ref().unwrap().selector.as_ref().unwrap();
    let matched = spec.selector.match_labels.unwrap();
    assert_eq!(selected.get("app"), Some(&"gw".to_string()));
    assert_eq!(matched.get("app"), Some(&"gw".to_string()));
    assert_eq!(selected.len(), 1);
    let pods = spec.template.metadata.unwrap().labels.unwrap();
    assert_eq!(pods.get("app"), Some(&"gw".to_string()));
    assert_eq!(pods.get("app.kubernetes.io/name"), Some(&"polku".to_string()));
    assert_eq!(
        pods.get("app.kubernetes.io/component"),
        Some(&"gateway".to_string())
    );
    let container = &spec.template.spec.unwrap().containers[0];
    assert_eq!(container.name, "polku");
    let port = &container.ports.as_ref().unwrap()[0];
    assert_eq!(port.name, Some("grpc".to_string()));
    assert_eq!(port.protocol, Some("TCP".to_string()));
    let env = container.env.as_ref().unwrap();
    assert_eq!(env.len(), 2);
    assert_eq!(env[1].name, "B");
    assert_eq!(env[1].value, Some("2".to_string()));
    let service = r.service.spec.unwrap();
    let service_port = &service.ports.as_ref().unwrap()[0];
    assert_eq!(service_port.port, 7000);
    assert_eq!(service_port.target_port, Some(port.container_port));
    assert_eq!(service.type_, Some("ClusterIP".to_string()));
}

#[test]
fn no_environment_means_none() {
    let builder = PolkuDeployment::new("gw");
    let d = builder.clone().build_deployment();
    assert!(d.spec.unwrap().template.spec.unwrap().containers[0]
        .env
        .is_none());
    assert_eq!(
        builder.build_service().metadata.namespace,
        Some("default".to_string())
    );
}

#[test]
fn labels_replace_each_other() {
    let r = PolkuDeployment::new("gw").label("app", "other").build();
    let labels = r.deployment.metadata.labels.unwrap();
    assert_eq!(labels.get("app"), Some(&"other".to_string()));
    assert_eq!(labels.len(), 3);
}
