use tgcp::shell::{
    console_url, ssh_command_args, validate_gcp_resource_name, validate_ssh_extra_args, SshOptions,
};

#[test]
fn test_ssh_args_valid_basic() {
    let args = vec![
        "-oStrictHostKeyChecking=no".to_string(),
        "-i".to_string(),
        "/path/to/key".to_string(),
    ];
    assert!(validate_ssh_extra_args(&args).is_ok());
}

#[test]
fn test_ssh_args_valid_with_separate_o() {
    let args = vec!["-o".to_string(), "StrictHostKeyChecking=no".to_string()];
    assert!(validate_ssh_extra_args(&args).is_ok());
}

#[test]
fn test_ssh_args_blocked_proxycommand_attached() {
    let args = vec!["-oProxyCommand=nc %h %p".to_string()];
    let result = validate_ssh_extra_args(&args);
    assert!(result.is_err());
    assert!(result.unwrap_err().to_string().contains("proxycommand"));
}

#[test]
fn test_ssh_args_blocked_proxycommand_separate() {
    let args = vec!["-o".to_string(), "ProxyCommand=nc %h %p".to_string()];
    let result = validate_ssh_extra_args(&args);
    assert!(result.is_err());
    assert!(result.unwrap_err().to_string().contains("proxycommand"));
}

#[test]
fn test_ssh_args_blocked_localcommand() {
    let args = vec!["-oLocalCommand=whoami".to_string()];
    let result = validate_ssh_extra_args(&args);
    assert!(result.is_err());
    assert!(result.unwrap_err().to_string().contains("localcommand"));
}

#[test]
fn test_ssh_args_blocked_permitlocalcommand() {
    let args = vec!["-oPermitLocalCommand=yes".to_string()];
    let result = validate_ssh_extra_args(&args);
    assert!(result.is_err());
    let err_msg = result.unwrap_err().to_string();
    assert!(
        err_msg.to_lowercase().contains("permitlocalcommand"),
        "Expected error to contain 'permitlocalcommand', got: {}",
        err_msg
    );
}

#[test]
fn test_ssh_args_blocked_unknown_arg() {
    let args = vec!["--execute-command".to_string()];
    let result = validate_ssh_extra_args(&args);
    assert!(result.is_err());
    assert!(result
        .unwrap_err()
        .to_string()
        .contains("not in the allowed list"));
}

#[test]
fn test_ssh_args_case_insensitive_blocking() {
    let args = vec!["-oPROXYCOMMAND=bad".to_string()];
    assert!(validate_ssh_extra_args(&args).is_err());

    let args = vec!["-oProxyCommand=bad".to_string()];
    assert!(validate_ssh_extra_args(&args).is_err());
}

#[test]
fn test_ssh_args_empty() {
    let args: Vec<String> = vec![];
    assert!(validate_ssh_extra_args(&args).is_ok());
}

#[test]
fn test_ssh_args_multiple_valid() {
    let args = vec![
        "-v".to_string(),
        "-o".to_string(),
        "ConnectTimeout=10".to_string(),
        "-L".to_string(),
        "8080:localhost:80".to_string(),
        "--internal-ip".to_string(),
    ];
    let result = validate_ssh_extra_args(&args);
    assert!(result.is_ok(), "Expected Ok, got: {:?}", result.unwrap_err());
}

#[test]
fn test_ssh_args_o_at_end() {
    let args = vec!["-o".to_string()];
    assert!(validate_ssh_extra_args(&args).is_ok());
}

#[test]
fn test_resource_name_valid() {
    assert!(validate_gcp_resource_name("my-instance", "Instance").is_ok());
    assert!(validate_gcp_resource_name("instance-1", "Instance").is_ok());
    assert!(validate_gcp_resource_name("a", "Instance").is_ok());
    assert!(validate_gcp_resource_name("a1b2c3", "Instance").is_ok());
}

#[test]
fn test_resource_name_empty() {
    let result = validate_gcp_resource_name("", "Instance");
    assert!(result.is_err());
    assert!(result.unwrap_err().to_string().contains("cannot be empty"));
}

#[test]
fn test_resource_name_too_long() {
    let long_name = "a".repeat(64);
    let result = validate_gcp_resource_name(&long_name, "Instance");
    assert!(result.is_err());
    assert!(result
        .unwrap_err()
        .to_string()
        .contains("exceeds maximum length"));
}

#[test]
fn test_resource_name_invalid_chars() {
    let result = validate_gcp_resource_name("MyInstance", "Instance");
    assert!(result.is_err());
    assert!(result
        .unwrap_err()
        .to_string()
        .contains("invalid characters"));

    let result = validate_gcp_resource_name("my instance", "Instance");
    assert!(result.is_err());

    let result = validate_gcp_resource_name("my_instance", "Instance");
    assert!(result.is_err());

    let result = validate_gcp_resource_name("my-instance!", "Instance");
    assert!(result.is_err());
}

#[test]
fn test_resource_name_must_start_with_letter() {
    let result = validate_gcp_resource_name("1-instance", "Instance");
    assert!(result.is_err());
    assert!(result
        .unwrap_err()
        .to_string()
        .contains("must start with a lowercase letter"));

    let result = validate_gcp_resource_name("-instance", "Instance");
    assert!(result.is_err());
}

#[test]
fn test_resource_name_cannot_end_with_hyphen() {
    let result = validate_gcp_resource_name("my-instance-", "Instance");
    assert!(result.is_err());
    assert!(result
        .unwrap_err()
        .to_string()
        .contains("must not end with a hyphen"));
}

#[test]
fn test_resource_name_injection_attempts() {
    assert!(validate_gcp_resource_name("instance; rm -rf /", "Instance").is_err());
    assert!(validate_gcp_resource_name("instance$(whoami)", "Instance").is_err());
    assert!(validate_gcp_resource_name("instance`id`", "Instance").is_err());
    assert!(validate_gcp_resource_name("instance|cat /etc/passwd", "Instance").is_err());
}

#[test]
fn test_resource_name_boundary() {
    let max_name = "a".repeat(63);
    assert!(validate_gcp_resource_name(&max_name, "Instance").is_ok());
}

#[test]
fn resource_name_error_messages_are_exact() {
    assert_eq!(
        validate_gcp_resource_name("", "Zone").unwrap_err().to_string(),
        "Zone name cannot be empty"
    );
    assert_eq!(
        validate_gcp_resource_name("x-", "Disk").unwrap_err().to_string(),
        "Disk name 'x-' must not end with a hyphen"
    );
}

#[test]
fn multibyte_names_are_measured_in_bytes() {
    let name = "é".repeat(40);
    let result = validate_gcp_resource_name(&name, "Instance");
    assert!(result.unwrap_err().to_string().contains("exceeds maximum length"));
}

#[test]
fn value_of_i_flag_is_not_checked_as_an_argument() {
    let args = vec!["-i".to_string(), "--anything".to_string(), "-q".to_string()];
    assert!(validate_ssh_extra_args(&args).is_ok());
}

#[test]
fn ssh_arguments_are_built_in_order() {
    let mut opts = SshOptions::new("my-vm", "us-central1-a", "proj-1").with_iap();
    opts.extra_args = vec!["-v".to_string()];
    let args = ssh_command_args(&opts).ok().unwrap();
    assert_eq!(
        args,
        vec![
            "compute",
            "ssh",
            "my-vm",
            "--zone",
            "us-central1-a",
            "--project",
            "proj-1",
            "--tunnel-through-iap",
            "-v"
        ]
    );
}

#[test]
fn ssh_refuses_bad_instance_and_unsafe_args() {
    let opts = SshOptions::new("Bad_VM", "us-central1-a", "proj-1");
    assert!(ssh_command_args(&opts).is_err());
    let mut opts = SshOptions::new("vm", "us-central1-a", "proj-1");
    opts.extra_args = vec!["-oProxyCommand=x".to_string()];
    assert!(ssh_command_args(&opts).is_err());
    let opts = SshOptions::new("vm", "", "proj-1");
    assert!(ssh_command_args(&opts).is_err());
}

#[test]
fn console_urls_encode_dynamic_parts() {
    assert_eq!(
        console_url("compute-instances", "my-vm", "proj", "us-east1-b"),
        "https://console.cloud.google.com/compute/instancesDetail/zones/us-east1-b/instances/my-vm?project=proj"
    );
    assert_eq!(
        console_url("storage-buckets", "a b", "p&q", "z"),
        "https://console.cloud.google.com/storage/browser/a%20b?project=p%26q"
    );
    assert_eq!(
        console_url("something-else", "n", "proj", "z"),
        "https://console.cloud.google.com/home/dashboard?project=proj"
    );
}

#[test]
fn short_flags_without_values_do_not_swallow_the_next_argument() {
    let args = vec!["-v".to_string(), "--execute".to_string()];
    assert!(validate_ssh_extra_args(&args).is_err());
    let args = vec!["--ssh-flag".to_string(), "anything".to_string()];
    assert!(validate_ssh_extra_args(&args).is_ok());
}

#[test]
fn project_ids_are_checked() {
    assert!(tgcp::shell::validate_project_id("my-project-1"));
    assert!(!tgcp::shell::validate_project_id("short"));
    assert!(!tgcp::shell::validate_project_id("1project"));
    assert!(!tgcp::shell::validate_project_id("project-"));
    assert!(!tgcp::shell::validate_project_id("Project-x"));
    assert!(!tgcp::shell::validate_project_id(&"a".repeat(31)));
}

#[test]
fn console_pages_from_encoded_parts() {
    assert_eq!(
        tgcp::shell::console_url_encoded("gke-clusters", "c1", "p", "europe-west1"),
        "https://console.cloud.google.com/kubernetes/clusters/details/europe-west1/c1?project=p"
    );
    assert_eq!(
        tgcp::shell::console_url_encoded("compute-disks", "d", "p", "z"),
        "https://console.cloud.google.com/compute/disksDetail/zones/z/disks/d?project=p"
    );
}
