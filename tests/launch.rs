use subuidless::launch::{base_args, launch_request, trial_requests, ConfigError};
use subuidless::setup::dockerfile;
use subuidless::syscall::{Operation, Syscall};

fn dev() -> Operation {
    Operation::Fstatat { path: "/dev".to_string(), dir: None, flags: 0 }
}

#[test]
fn request_runs_executor_with_descriptor_last() {
    let base = vec!["--network=none".to_string()];
    let extra = vec!["--runtime".to_string(), "crun".to_string()];
    let r = launch_request(&base, &extra, &dev());
    assert_eq!(r.image, "subuidless/executor:latest");
    assert_eq!(r.command, "executor");
    assert!(r.remove);
    assert_eq!(
        r.args,
        vec![
            "--network=none".to_string(),
            "--runtime".to_string(),
            "crun".to_string(),
            r#"{"type":"Fstatat","path":"/dev","dir":null,"flags":0}"#.to_string()
        ]
    );
}

#[test]
fn trial_differs_only_in_extra_arguments() {
    let base = vec!["-e".to_string(), "A=1".to_string()];
    let extra = vec!["--userns=host".to_string()];
    let (test, baseline) = trial_requests(&base, &extra, &dev());
    assert_eq!(test.args.len(), 4);
    assert_eq!(baseline.args, vec!["-e".to_string(), "A=1".to_string(), dev().encode()]);
    assert_eq!(test.args[2], "--userns=host");
    assert!(test.remove && baseline.remove);
}

#[test]
fn every_request_removes_its_sandbox() {
    let base: Vec<String> = vec![];
    for i in 0..100 {
        let op = Operation::Fstatat { path: format!("/p{}", i), dir: None, flags: 0 };
        assert!(launch_request(&base, &base, &op).remove);
    }
}

#[test]
fn configured_arguments_are_a_json_list() {
    assert_eq!(base_args(None), Ok(vec![]));
    assert_eq!(
        base_args(Some(r#"["--runtime", "sysbox-runc"]"#)),
        Ok(vec!["--runtime".to_string(), "sysbox-runc".to_string()])
    );
    assert_eq!(base_args(Some("--runtime")), Err(ConfigError::InvalidArguments));
}

#[test]
fn dockerfile_builds_executor_from_first_path() {
    let paths = vec!["executor".to_string(), "protocol".to_string(), "Cargo.toml".to_string()];
    assert_eq!(
        dockerfile(&paths).unwrap(),
        "\n    FROM rust:slim-buster\n    WORKDIR /usr/src/executor\n    COPY protocol protocol\nCOPY Cargo.toml Cargo.toml\n    WORKDIR /usr/src/executor/executor\n    RUN cargo install --bin executor --path ."
    );
    assert_eq!(dockerfile(&vec![]), None);
    assert_eq!(
        dockerfile(&vec!["bin".to_string()]).unwrap(),
        "\n    FROM rust:slim-buster\n    WORKDIR /usr/src/executor\n    \n    WORKDIR /usr/src/executor/bin\n    RUN cargo install --bin executor --path ."
    );
}
