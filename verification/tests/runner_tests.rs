use github_actions_runner_aws::runner::{run_config, Architecture, InvalidVolumeLabel};

fn labels(items: &[&str]) -> Vec<String> {
    items.iter().map(|s| s.to_string()).collect()
}

#[test]
fn no_labels_give_the_default_instance() {
    let cfg = run_config(&labels(&[])).unwrap();
    assert_eq!(cfg.instance_type, "m7g.large");
    assert_eq!(cfg.architecture, Architecture::Arm64);
    assert_eq!(cfg.volume_size, 14);
    assert!(!cfg.spot);
}

#[test]
fn unrelated_labels_change_nothing() {
    let cfg = run_config(&labels(&["self-hosted", "drakon64/github-actions-runner-aws", "ARM64"]))
        .unwrap();
    assert_eq!(cfg.instance_type, "m7g.large");
    assert_eq!(cfg.architecture, Architecture::Arm64);
    assert_eq!(cfg.volume_size, 14);
    assert!(!cfg.spot);
}

#[test]
fn labels_choose_the_instance() {
    let cfg = run_config(&labels(&["X64", "EC2-c7i.xlarge", "EBS-30GB", "EC2-Spot"])).unwrap();
    assert_eq!(cfg.instance_type, "c7i.xlarge");
    assert_eq!(cfg.architecture, Architecture::X64);
    assert_eq!(cfg.volume_size, 30);
    assert!(cfg.spot);
}

#[test]
fn spot_label_is_not_an_instance_type() {
    let cfg = run_config(&labels(&["EC2-Spot"])).unwrap();
    assert_eq!(cfg.instance_type, "m7g.large");
    assert!(cfg.spot);
}

#[test]
fn last_label_of_a_kind_wins() {
    let cfg = run_config(&labels(&["EC2-a", "EBS-20GB", "EC2-b", "EBS-40GB"])).unwrap();
    assert_eq!(cfg.instance_type, "b");
    assert_eq!(cfg.volume_size, 40);
}

#[test]
fn volume_size_is_parsed_as_i32() {
    assert_eq!(run_config(&labels(&["EBS-+8GB"])).unwrap().volume_size, 8);
    assert_eq!(run_config(&labels(&["EBS--5GB"])).unwrap().volume_size, -5);
    assert_eq!(run_config(&labels(&["EBS-030GB"])).unwrap().volume_size, 30);
}

#[test]
fn malformed_volume_label_is_refused() {
    assert_eq!(run_config(&labels(&["EBS-GB"])).unwrap_err(), InvalidVolumeLabel);
    assert_eq!(run_config(&labels(&["EBS-lotsGB"])).unwrap_err(), InvalidVolumeLabel);
    assert_eq!(
        run_config(&labels(&["EBS-99999999999GB", "EBS-10GB"])).unwrap_err(),
        InvalidVolumeLabel
    );
    assert_eq!(run_config(&labels(&["EBS-1 GB"])).unwrap_err(), InvalidVolumeLabel);
}

#[test]
fn other_ebs_labels_are_ignored() {
    let cfg = run_config(&labels(&["EBS-30", "EBS30GB"])).unwrap();
    assert_eq!(cfg.volume_size, 14);
}

#[test]
fn launch_template_variables() {
    assert_eq!(Architecture::Arm64.launch_template_variable(), "ARM64_LAUNCH_TEMPLATE_ID");
    assert_eq!(Architecture::X64.launch_template_variable(), "X64_LAUNCH_TEMPLATE_ID");
}
