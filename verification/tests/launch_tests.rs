use base64::Engine;
use github_actions_runner_aws::launch::{instance_request, launched_instance_id, runner_user_data};
use github_actions_runner_aws::runner::{run_config, RunConfig, Architecture};

fn decode(text: &str) -> String {
    let bytes = base64::prelude::BASE64_STANDARD.decode(text).unwrap();
    String::from_utf8(bytes).unwrap()
}

const EXPECTED_SCRIPT: &str = "#!/bin/sh

sysctl vm.swappiness=1
mkswap /dev/nvme1n1
swapon /dev/nvme1n1

add-apt-repository ppa:ansible/ansible # https://github.com/ansible/ansible/issues/77624
apt-get update
apt-get -y install ansible-core awscli
apt-get clean
ansible-galaxy collection install amazon.aws community.general
ansible-pull --url https://github.com/drakon64/github-actions-runner-aws.git --extra-vars 'url=https://github.com/drakon64/example' --extra-vars 'token=ABCDEF' --extra-vars 'ebs_volume_size=30' ansible/runner.yml";

#[test]
fn runner_user_data_is_the_encoded_script() {
    let data = runner_user_data("drakon64/example", "ABCDEF", 30);
    assert_eq!(decode(&data), EXPECTED_SCRIPT);
    assert_eq!(data, base64::prelude::BASE64_STANDARD.encode(EXPECTED_SCRIPT));
}

#[test]
fn runner_user_data_with_negative_size_and_unicode_name() {
    let data = runner_user_data("ö/ä", "t", -1);
    let script = decode(&data);
    assert!(script.contains("'url=https://github.com/ö/ä' --extra-vars 'token=t' --extra-vars 'ebs_volume_size=-1' ansible/runner.yml"));
}

#[test]
fn base64_padding_lengths() {
    for name in ["a", "ab", "abc", "abcd"] {
        let data = runner_user_data(name, "", 14);
        assert_eq!(data.len() % 4, 0);
        assert!(decode(&data).contains(&format!("github.com/{}'", name)));
    }
}

#[test]
fn instance_request_fields() {
    let cfg = run_config(&vec!["X64".to_string(), "EC2-c7i.large".to_string(), "EBS-30GB".to_string(), "EC2-Spot".to_string()]).unwrap();
    let request = instance_request(&cfg, "drakon64/example", "ABCDEF");
    assert_eq!(request.instance_type, "c7i.large");
    assert_eq!(request.min_count, 1);
    assert_eq!(request.max_count, 1);
    assert_eq!(request.block_devices.len(), 2);
    let root = &request.block_devices[0];
    assert_eq!(root.device_name, "/dev/sda1");
    assert_eq!(root.volume_size, 30);
    assert_eq!(root.volume_type, "gp3");
    assert_eq!(root.iops, 3000);
    assert_eq!(root.throughput, 128);
    assert!(root.delete_on_termination);
    let swap = &request.block_devices[1];
    assert_eq!(swap.device_name, "/dev/sdb");
    assert_eq!(swap.volume_size, 16);
    assert!(request.spot);
    assert_eq!(request.launch_template_variable, "X64_LAUNCH_TEMPLATE_ID");
    assert_eq!(request.tags.len(), 2);
    assert_eq!(request.tags[0].key, "Name");
    assert_eq!(request.tags[0].value, "drakon64/example");
    assert_eq!(request.tags[1].key, "GitHubActionsRepository");
    assert_eq!(request.tags[1].value, "drakon64/example");
    assert_eq!(decode(&request.user_data), EXPECTED_SCRIPT);
}

#[test]
fn default_instance_request() {
    let cfg = RunConfig {
        instance_type: "m7g.large".to_string(),
        architecture: Architecture::Arm64,
        volume_size: 14,
        spot: false,
    };
    let request = instance_request(&cfg, "o/r", "t");
    assert_eq!(request.launch_template_variable, "ARM64_LAUNCH_TEMPLATE_ID");
    assert!(!request.spot);
    assert_eq!(request.block_devices[0].volume_size, 14);
}

#[test]
fn first_instance_id_is_reported() {
    let ids = vec![Some("i-0123".to_string()), Some("i-4567".to_string())];
    assert_eq!(launched_instance_id(&ids), "i-0123");
    let ids = vec![Some("i-89".to_string()), None];
    assert_eq!(launched_instance_id(&ids), "i-89");
}
