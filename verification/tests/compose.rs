use sandboxd::digest::identity;
use sandboxd::oci::compiler::{check_compose_size, compile, resolve_once, verify_lock};
use sandboxd::oci::model::{
    default_interval_ms, default_retries, default_timeout_ms, ComposeInput, DependencyCondition,
    DependencyInput, GuestProfileIdentity, HealthcheckInput, LockedDescriptor, LockedImage,
    NetworkInput, RootFilesystemMode, ServiceInput, ServiceVolumeInput, TopologyLock, VolumeInput,
    VolumePersistenceClass, VolumeSnapshotPolicy, VolumeSpec,
};
use sandboxd::oci::network::NetworkPolicy;
use sandboxd::oci::startup::startup_order;
use sandboxd::oci::values::{
    validate_environment, validate_identifier, validate_image_reference, validate_value,
    validate_values,
};
use sandboxd::oci::SandboxError;
use sandboxd::table::Table;
use serde_yaml::Value;

const VOLUME_SPEC_VERSION: u32 = 1;

type Parsed<T> = Result<T, String>;

fn text(value: &Value) -> Parsed<String> {
    value.as_str().map(str::to_owned).ok_or_else(|| "expected a string".to_owned())
}

fn texts(value: &Value) -> Parsed<Vec<String>> {
    value
        .as_sequence()
        .ok_or_else(|| "expected a sequence".to_owned())?
        .iter()
        .map(text)
        .collect()
}

fn fields<'a>(value: &'a Value, known: &[&str]) -> Parsed<Vec<(String, &'a Value)>> {
    let mut found = Vec::new();
    for (name, field) in value.as_mapping().ok_or_else(|| "expected a mapping".to_owned())? {
        let name = text(name)?;
        if !known.contains(&name.as_str()) {
            return Err(format!("unknown field `{name}`"));
        }
        found.push((name, field));
    }
    Ok(found)
}

fn table<T>(value: &Value, read: impl Fn(&Value) -> Parsed<T>) -> Parsed<Table<T>> {
    let mut rows = Table::new();
    for (name, row) in value.as_mapping().ok_or_else(|| "expected a mapping".to_owned())? {
        rows.insert(text(name)?, read(row)?);
    }
    Ok(rows)
}

fn network(value: &Value) -> Parsed<NetworkInput> {
    let mut input = NetworkInput::default();
    for (name, field) in fields(value, &["internal", "driver"])? {
        match name.as_str() {
            "internal" => input.internal = Some(field.as_bool().ok_or("expected a boolean")?),
            _ => input.driver = Some(text(field)?),
        }
    }
    Ok(input)
}

fn class(value: &str) -> Parsed<VolumePersistenceClass> {
    match value {
        "ephemeral" => Ok(VolumePersistenceClass::Ephemeral),
        "persistent" => Ok(VolumePersistenceClass::Persistent),
        "artifact" => Ok(VolumePersistenceClass::Artifact),
        "secret" => Ok(VolumePersistenceClass::Secret),
        _ => Err("unknown persistence class".to_owned()),
    }
}

fn volume(value: &Value) -> Parsed<VolumeInput> {
    let mut persistence_class = None;
    let mut quota_bytes = None;
    let mut content_digest = None;
    for (name, field) in fields(value, &["persistence_class", "quota_bytes", "content_digest"])? {
        match name.as_str() {
            "persistence_class" => persistence_class = Some(class(&text(field)?)?),
            "quota_bytes" => quota_bytes = Some(field.as_u64().ok_or("expected a number")?),
            _ => content_digest = Some(text(field)?),
        }
    }
    Ok(VolumeInput {
        persistence_class: persistence_class.ok_or("missing persistence class")?,
        snapshot_policy: None,
        quota_bytes,
        content_digest,
    })
}

fn mount(value: &Value) -> Parsed<ServiceVolumeInput> {
    let mut source = None;
    let mut target = None;
    let mut read_only = None;
    for (name, field) in fields(value, &["source", "target", "read_only"])? {
        match name.as_str() {
            "source" => source = Some(text(field)?),
            "target" => target = Some(text(field)?),
            _ => read_only = Some(field.as_bool().ok_or("expected a boolean")?),
        }
    }
    Ok(ServiceVolumeInput {
        source: source.ok_or("missing source")?,
        target: target.ok_or("missing target")?,
        read_only,
    })
}

fn dependency(value: &Value) -> Parsed<DependencyInput> {
    let mut condition = None;
    for (_, field) in fields(value, &["condition"])? {
        condition = Some(match text(field)?.as_str() {
            "service_started" => DependencyCondition::Started,
            "service_healthy" => DependencyCondition::Healthy,
            "service_completed_successfully" => DependencyCondition::CompletedSuccessfully,
            _ => return Err("unknown condition".to_owned()),
        });
    }
    Ok(DependencyInput { condition: condition.ok_or("missing condition")? })
}

fn healthcheck(value: &Value) -> Parsed<HealthcheckInput> {
    let mut test = None;
    for (_, field) in fields(value, &["test"])? {
        test = Some(texts(field)?);
    }
    Ok(HealthcheckInput {
        test: test.ok_or("missing test")?,
        interval_ms: default_interval_ms(),
        timeout_ms: default_timeout_ms(),
        retries: default_retries(),
    })
}

fn plain_service(image: &str) -> ServiceInput {
    ServiceInput {
        image: image.to_owned(),
        command: Vec::new(),
        entrypoint: Vec::new(),
        environment: Table::new(),
        depends_on: Table::new(),
        healthcheck: None,
        networks: Vec::new(),
        user: None,
        working_dir: None,
        read_only: None,
        volumes: Vec::new(),
    }
}

fn service(value: &Value) -> Parsed<ServiceInput> {
    let mut input = plain_service("");
    let mut found = false;
    let known = [
        "image", "command", "entrypoint", "environment", "depends_on", "healthcheck", "networks",
        "working_dir", "read_only", "volumes",
    ];
    for (name, field) in fields(value, &known)? {
        match name.as_str() {
            "image" => {
                input.image = text(field)?;
                found = true;
            }
            "command" => input.command = texts(field)?,
            "entrypoint" => input.entrypoint = texts(field)?,
            "environment" => input.environment = table(field, text)?,
            "depends_on" => input.depends_on = table(field, dependency)?,
            "healthcheck" => input.healthcheck = Some(healthcheck(field)?),
            "networks" => input.networks = texts(field)?,
            "working_dir" => input.working_dir = Some(text(field)?),
            "read_only" => input.read_only = Some(field.as_bool().ok_or("expected a boolean")?),
            _ => {
                for item in field.as_sequence().ok_or("expected a sequence")? {
                    input.volumes.push(mount(item)?);
                }
            }
        }
    }
    if !found {
        return Err("missing image".to_owned());
    }
    Ok(input)
}

fn compose(source: &str) -> Parsed<ComposeInput> {
    let value: Value = serde_yaml::from_str(source).map_err(|error| error.to_string())?;
    let mut input = ComposeInput {
        name: None,
        services: Table::new(),
        networks: Table::new(),
        volumes: Table::new(),
        guest_profile: None,
        network_policy: NetworkPolicy::default(),
    };
    for (name, field) in fields(&value, &["name", "services", "networks", "volumes"])? {
        match name.as_str() {
            "name" => input.name = Some(text(field)?),
            "services" => input.services = table(field, service)?,
            "networks" => input.networks = table(field, network)?,
            _ => input.volumes = table(field, volume)?,
        }
    }
    Ok(input)
}

fn image(reference: &str) -> LockedImage {
    let manifest = LockedDescriptor {
        media_type: "application/vnd.oci.image.manifest.v1+json".to_owned(),
        digest: format!("sha256:{}", "1".repeat(64)),
        size: 1_024,
    };
    let config = LockedDescriptor {
        media_type: "application/vnd.oci.image.config.v1+json".to_owned(),
        digest: format!("sha256:{}", "2".repeat(64)),
        size: 512,
    };
    LockedImage {
        source: reference.to_owned(),
        exact_reference: format!("example/test@{}", manifest.digest),
        image_id: config.digest.clone(),
        index: None,
        manifest,
        config,
        layers: vec![LockedDescriptor {
            media_type: "application/vnd.oci.image.layer.v1.tar+gzip".to_owned(),
            digest: format!("sha256:{}", "3".repeat(64)),
            size: 4_096,
        }],
        operating_system: "linux".to_owned(),
        architecture: "amd64".to_owned(),
        variant: None,
    }
}

fn canonical(lock: &TopologyLock) -> Vec<u8> {
    format!(
        "{}|{}|{:?}|{:?}|{:?}|{:?}|{:?}",
        lock.schema_version,
        lock.name,
        lock.services,
        lock.networks,
        lock.volumes,
        lock.startup_order,
        lock.policy
    )
    .into_bytes()
}

fn build(input: ComposeInput) -> Result<TopologyLock, SandboxError> {
    compile(
        input,
        VOLUME_SPEC_VERSION,
        GuestProfileIdentity { name: "strict".to_owned() },
        |_: &str| -> Result<(), String> { Ok(()) },
        |_: &VolumeSpec| -> Result<(), String> { Ok(()) },
        |reference: &str| -> Result<LockedImage, SandboxError> { Ok(image(reference)) },
        |lock: &TopologyLock| -> Result<Vec<u8>, String> { Ok(canonical(lock)) },
    )
}

fn verified(lock: &TopologyLock) -> Result<(), SandboxError> {
    verify_lock(lock, Ok(canonical(lock)))
}

#[test]
fn compiles_dependency_order_and_stable_digest() {
    let input = compose(
        r#"
name: example
networks:
  private: {}
services:
  server:
    image: example/server:test
    networks: [private]
    healthcheck:
      test: [CMD, /health]
  client:
    image: example/client:test
    networks: [private]
    depends_on:
      server:
        condition: service_healthy
"#,
    )
    .unwrap();
    let lock = build(input).unwrap();
    assert_eq!(lock.startup_order, ["server", "client"]);
    for index in 0..lock.services.len() {
        let service = lock.services.value(index);
        assert!(service.root_filesystem == RootFilesystemMode::ReadOnly);
    }
    verified(&lock).unwrap();
    assert_eq!(lock.topology_digest, identity(&canonical(&lock)));
}

#[test]
fn a_lock_that_was_changed_does_not_verify() {
    let input = compose("name: x\nservices:\n  only:\n    image: x\n").unwrap();
    let mut lock = build(input).unwrap();
    verified(&lock).unwrap();
    let sealed = lock.topology_digest.clone();
    lock.topology_digest = identity(b"other");
    assert!(matches!(verified(&lock), Err(SandboxError::Lock(reason)) if reason.contains(&sealed)));
    lock.topology_digest = sealed;
    lock.schema_version += 1;
    assert!(matches!(
        verified(&lock),
        Err(SandboxError::Lock(reason)) if reason.starts_with("unsupported schema version")
    ));
}

#[test]
fn a_reference_is_resolved_once() {
    let mut seen = Table::new();
    let failed = |_: &str| -> Result<LockedImage, SandboxError> {
        Err(SandboxError::ImageProvider("unreachable".to_owned()))
    };
    assert!(resolve_once(&mut seen, "example/a", failed).is_err());
    assert_eq!(seen.len(), 0);
    let first = resolve_once(&mut seen, "example/a", |name: &str| Ok(image(name))).unwrap();
    assert_eq!(resolve_once(&mut seen, "example/a", failed).unwrap(), first);
    assert!(resolve_once(&mut seen, "example/b", failed).is_err());
    assert_eq!(seen.len(), 1);
}

#[test]
fn writable_root_requires_an_explicit_compose_request() {
    let input = compose(
        "name: x\nservices:\n  writable:\n    image: x\n    read_only: false\n  default:\n    image: x\n",
    )
    .unwrap();
    let lock = build(input).unwrap();
    assert_eq!(
        lock.services.get("writable").unwrap().root_filesystem,
        RootFilesystemMode::Writable
    );
    assert_eq!(
        lock.services.get("default").unwrap().root_filesystem,
        RootFilesystemMode::ReadOnly
    );
}

#[test]
fn compiles_typed_named_volumes_without_host_paths() {
    let input = compose(
        r#"
name: x
volumes:
  shared:
    persistence_class: persistent
    quota_bytes: 8388608
services:
  app:
    image: x
    volumes:
      - source: shared
        target: /var/lib/app
"#,
    )
    .expect("compose");
    let lock = build(input).expect("lock");
    let mount = &lock.services.get("app").unwrap().volumes[0];
    assert_eq!(mount.volume_id.as_str(), "shared");
    assert_eq!(mount.destination, "/var/lib/app");
    assert!(!mount.read_only);
    assert_eq!(mount.snapshot_policy, VolumeSnapshotPolicy::Required);
    assert!(String::from_utf8(canonical(&lock)).expect("lock json").find("/host").is_none());
    verified(&lock).expect("verified lock");
}

#[test]
fn rejects_bind_mounts_crossing_the_provider_boundary() {
    for source in [
        "name: x\nservices:\n  app:\n    image: x\n    volumes: [/host:/guest]\n",
        "name: x\nvolumes: {}\nservices:\n  app:\n    image: x\n    volumes:\n      - source: /host\n        target: /guest\n",
    ] {
        match compose(source) {
            Err(_) => {}
            Ok(input) => assert!(build(input).is_err()),
        }
    }
}

#[test]
fn rejects_ambient_or_privileged_compose_fields() {
    for source in [
        "name: x\nservices:\n  app:\n    image: x\n    privileged: true\n",
        "name: x\nservices:\n  app:\n    image: x\n    volumes: [/host:/guest]\n",
        "name: x\nservices:\n  app:\n    image: x\n    network_mode: host\n",
    ] {
        assert!(compose(source).is_err());
    }
}

#[test]
fn rejects_environment_file_injection() {
    let input = compose(
        "name: x\nservices:\n  app:\n    image: x\n    environment:\n      SAFE: |-\n        value\n        INJECTED=bad\n",
    )
    .unwrap();
    assert!(matches!(build(input), Err(SandboxError::Compose(_))));
}

#[test]
fn rejects_external_network_and_cycles() {
    let outside = compose(
        "name: x\nnetworks:\n  default:\n    internal: false\nservices:\n  app:\n    image: x\n",
    )
    .unwrap();
    assert!(matches!(build(outside), Err(SandboxError::Unsupported(_))));

    let cycle = compose(
        "name: x\nservices:\n  a:\n    image: x\n    depends_on:\n      b:\n        condition: service_started\n  b:\n    image: x\n    depends_on:\n      a:\n        condition: service_started\n",
    )
    .unwrap();
    assert!(matches!(build(cycle), Err(SandboxError::Compose(_))));
}

#[test]
fn a_topology_needs_a_name_and_services() {
    let unnamed = compose("services:\n  app:\n    image: x\n").unwrap();
    match build(unnamed) {
        Err(SandboxError::Compose(reason)) => assert_eq!(reason, "top-level `name` is required"),
        _ => panic!("a topology without a name"),
    }
    let empty = compose("name: x\nservices: {}\n").unwrap();
    match build(empty) {
        Err(SandboxError::Compose(reason)) => {
            assert_eq!(reason, "service count must be between 1 and 32")
        }
        _ => panic!("a topology without services"),
    }
}

#[test]
fn too_many_services_are_refused() {
    let mut services = Table::new();
    for index in 0..33 {
        services.insert(format!("app{index}"), plain_service("x"));
    }
    let input = ComposeInput {
        name: Some("x".to_owned()),
        services,
        networks: Table::new(),
        volumes: Table::new(),
        guest_profile: None,
        network_policy: NetworkPolicy::default(),
    };
    assert!(matches!(build(input), Err(SandboxError::Compose(_))));
}

#[test]
fn a_changed_lock_is_not_verified() {
    let mut lock = build(compose("name: x\nservices:\n  app:\n    image: x\n").unwrap()).unwrap();
    verified(&lock).unwrap();
    lock.policy.pids_per_service += 1;
    assert!(matches!(verified(&lock), Err(SandboxError::Lock(_))));
    lock.policy.pids_per_service -= 1;
    verified(&lock).unwrap();
    lock.schema_version += 1;
    assert!(matches!(verified(&lock), Err(SandboxError::Lock(_))));
}

#[test]
fn a_lock_that_cannot_be_encoded_is_not_verified() {
    let lock = build(compose("name: x\nservices:\n  app:\n    image: x\n").unwrap()).unwrap();
    assert!(verify_lock(&lock, Err("no encoding".to_owned())).is_err());
}

#[test]
fn standard_policy_has_the_documented_limits() {
    let lock = build(compose("name: x\nservices:\n  app:\n    image: x\n").unwrap()).unwrap();
    assert_eq!(lock.policy.runtime, "runsc");
    assert_eq!(lock.policy.memory_bytes_per_service, 128 * 1024 * 1024);
    assert_eq!(lock.policy.cpu_per_service_millis, 500);
    assert_eq!(lock.policy.pids_per_service, 96);
    assert_eq!(lock.policy.tmpfs_bytes, 16 * 1024 * 1024);
    assert_eq!(lock.policy.writable_root_bytes_per_service, 64 * 1024 * 1024);
    assert_eq!(lock.policy.maximum_output_bytes, 1024 * 1024);
    assert_eq!(default_interval_ms(), 100);
    assert_eq!(default_timeout_ms(), 1_000);
    assert_eq!(default_retries(), 30);
}

#[test]
fn services_start_after_what_they_depend_on() {
    let lock = build(
        compose(
            "name: x\nservices:\n  a:\n    image: x\n    depends_on:\n      c:\n        condition: service_started\n  b:\n    image: x\n  c:\n    image: x\n    depends_on:\n      b:\n        condition: service_completed_successfully\n",
        )
        .unwrap(),
    )
    .unwrap();
    assert_eq!(lock.startup_order, ["b", "c", "a"]);
    assert_eq!(startup_order(&lock.services).unwrap(), ["b", "c", "a"]);
}

#[test]
fn a_service_waits_only_for_services_that_exist() {
    let input = compose(
        "name: x\nservices:\n  a:\n    image: x\n    depends_on:\n      missing:\n        condition: service_started\n",
    )
    .unwrap();
    assert!(matches!(build(input), Err(SandboxError::Compose(_))));
}

#[test]
fn a_failed_resolution_is_handed_on() {
    let input = compose("name: x\nservices:\n  app:\n    image: x\n").unwrap();
    let result = compile(
        input,
        VOLUME_SPEC_VERSION,
        GuestProfileIdentity { name: "strict".to_owned() },
        |_: &str| -> Result<(), String> { Ok(()) },
        |_: &VolumeSpec| -> Result<(), String> { Ok(()) },
        |_: &str| -> Result<LockedImage, SandboxError> {
            Err(SandboxError::ImageProvider("no such image".to_owned()))
        },
        |lock: &TopologyLock| -> Result<Vec<u8>, String> { Ok(canonical(lock)) },
    );
    match result {
        Err(SandboxError::ImageProvider(reason)) => assert_eq!(reason, "no such image"),
        _ => panic!("the resolution failed"),
    }
}

#[test]
fn values_are_bounded() {
    assert!(validate_identifier("service name", "api_worker-1").is_ok());
    assert!(validate_identifier("service name", "").is_err());
    assert!(validate_identifier("service name", "a/b").is_err());
    assert!(validate_value("command", "run").is_ok());
    assert!(validate_value("command", "").is_err());
    assert!(validate_value("command", "a\0b").is_err());
    assert!(validate_value("command", &"a".repeat(16 * 1024)).is_ok());
    assert!(validate_value("command", &"a".repeat(16 * 1024 + 1)).is_err());
    assert!(validate_values("command", &["a".to_owned()], 1).is_ok());
    match validate_values("command", &["a".to_owned(), "b".to_owned()], 1) {
        Err(SandboxError::Compose(reason)) => assert_eq!(reason, "too many command values"),
        _ => panic!("two values where one is allowed"),
    }
    assert!(validate_environment("NAME_1", "value").is_ok());
    assert!(validate_environment("1NAME", "value").is_err());
    assert!(validate_environment("NAME", "a\nb").is_err());
    assert!(validate_image_reference("registry.example/app:1").is_ok());
    match validate_image_reference("-app") {
        Err(SandboxError::Compose(reason)) => {
            assert_eq!(reason, "image reference `-app` has unsupported syntax")
        }
        _ => panic!("a reference that looks like an option"),
    }
}

#[test]
fn errors_are_told_in_words() {
    let told = SandboxError::Io { path: "/etc".to_owned(), source: "denied".to_owned() }.message();
    assert!(told.contains("/etc") && told.contains("denied"));
    for error in [
        SandboxError::Compose("reason".to_owned()),
        SandboxError::Lock("reason".to_owned()),
        SandboxError::Docker("reason".to_owned()),
        SandboxError::ImageProvider("reason".to_owned()),
        SandboxError::Timeout("reason".to_owned()),
        SandboxError::Runtime("reason".to_owned()),
        SandboxError::Unsupported("reason".to_owned()),
    ] {
        assert!(error.message().contains("reason"));
    }
}

#[test]
fn a_compose_file_is_read_up_to_its_limit() {
    assert!(check_compose_size(1024 * 1024).is_ok());
    let refused = check_compose_size(1024 * 1024 + 1).unwrap_err();
    assert!(refused.message().contains("exceeds 1 MiB"));
}
