//! The `RunInstances` request for a queued job, and the instance id that the
//! service reports once EC2 has answered.

use crate::runner::{spec_launch_template_variable, RunConfig};
use crate::text::{contains_text, i32_to_decimal, lemma_contains_middle, lemma_middle_determined, spec_signed_decimal};
use crate::user_data::{base64_encode, lemma_base64_utf8_injective, spec_base64_encode};
use vstd::prelude::*;
use vstd::string::*;
use vstd::utf8::encode_utf8;

verus! {

/// Text of the boot script before the repository's name.
pub const RUNNER_SCRIPT_HEAD: &'static str = "#!/bin/sh\n\nsysctl vm.swappiness=1\nmkswap /dev/nvme1n1\nswapon /dev/nvme1n1\n\nadd-apt-repository ppa:ansible/ansible # https://github.com/ansible/ansible/issues/77624\napt-get update\napt-get -y install ansible-core awscli\napt-get clean\nansible-galaxy collection install amazon.aws community.general\nansible-pull --url https://github.com/drakon64/github-actions-runner-aws.git --extra-vars 'url=https://github.com/";

/// Text between the repository's name and the registration token.
pub const RUNNER_SCRIPT_TOKEN: &'static str = "' --extra-vars 'token=";

/// Text between the registration token and the volume size.
pub const RUNNER_SCRIPT_VOLUME: &'static str = "' --extra-vars 'ebs_volume_size=";

/// Text after the volume size.
pub const RUNNER_SCRIPT_END: &'static str = "' ansible/runner.yml";

/// The boot script of a runner: swap on the second volume, Ansible, and the
/// playbook that registers the runner with the repository.
pub open spec fn spec_runner_script(full_name: Seq<char>, token: Seq<char>, volume_size: i32) -> Seq<
    char,
> {
    RUNNER_SCRIPT_HEAD@ + full_name + RUNNER_SCRIPT_TOKEN@ + token + RUNNER_SCRIPT_VOLUME@
        + spec_signed_decimal(volume_size as int) + RUNNER_SCRIPT_END@
}

/// The Base64-encoded boot script of a runner for repository `full_name`.
pub fn runner_user_data(full_name: &str, registration_token: &str, volume_size: i32) -> (r: String)
    ensures
        r@ == spec_base64_encode(
            encode_utf8(spec_runner_script(full_name@, registration_token@, volume_size)),
        ),
{
    let mut script = String::from_str(RUNNER_SCRIPT_HEAD);
    script.append(full_name);
    script.append(RUNNER_SCRIPT_TOKEN);
    script.append(registration_token);
    script.append(RUNNER_SCRIPT_VOLUME);
    let size = i32_to_decimal(volume_size);
    script.append(size.as_str());
    script.append(RUNNER_SCRIPT_END);
    base64_encode(script.as_str())
}

/// An EBS volume attached at launch.
#[derive(Debug)]
pub struct BlockDevice {
    pub device_name: String,
    /// Size in GiB.
    pub volume_size: i32,
    /// EBS volume type, such as `gp3`.
    pub volume_type: String,
    pub iops: i32,
    /// MiB/s.
    pub throughput: i32,
    pub delete_on_termination: bool,
}

/// A tag put on the instance.
#[derive(Debug)]
pub struct InstanceTag {
    pub key: String,
    pub value: String,
}

/// What the service asks EC2 to launch for one job.
#[derive(Debug)]
pub struct InstanceRequest {
    pub instance_type: String,
    pub min_count: i32,
    pub max_count: i32,
    pub block_devices: Vec<BlockDevice>,
    /// A one-time Spot instance that is terminated on interruption, rather
    /// than an on-demand one.
    pub spot: bool,
    /// Environment variable that holds the launch template's id.
    pub launch_template_variable: &'static str,
    pub tags: Vec<InstanceTag>,
    /// Base64-encoded boot script.
    pub user_data: String,
}

/// Device name of the root volume.
pub const ROOT_DEVICE: &'static str = "/dev/sda1";

/// Device name of the swap volume.
pub const SWAP_DEVICE: &'static str = "/dev/sdb";

/// Size in GiB of the swap volume.
pub const SWAP_VOLUME_SIZE: i32 = 16;

/// Provisioned IOPS of each volume.
pub const VOLUME_IOPS: i32 = 3000;

/// Provisioned throughput of each volume in MiB/s.
pub const VOLUME_THROUGHPUT: i32 = 128;

/// EBS volume type of each volume.
pub const VOLUME_TYPE: &'static str = "gp3";

/// Tag key for the instance's name.
pub const NAME_TAG: &'static str = "Name";

/// Tag key for the repository the runner serves.
pub const REPOSITORY_TAG: &'static str = "GitHubActionsRepository";

/// `device` is a `gp3` volume of `size` GiB with 3000 IOPS and 128 MiB/s,
/// deleted with the instance.
pub open spec fn is_runner_volume(device: BlockDevice, name: Seq<char>, size: i32) -> bool {
    &&& device.device_name@ == name
    &&& device.volume_size == size
    &&& device.volume_type@ == VOLUME_TYPE@
    &&& device.iops == VOLUME_IOPS
    &&& device.throughput == VOLUME_THROUGHPUT
    &&& device.delete_on_termination
}

fn runner_volume(name: &str, size: i32) -> (r: BlockDevice)
    ensures
        is_runner_volume(r, name@, size),
{
    BlockDevice {
        device_name: String::from_str(name),
        volume_size: size,
        volume_type: String::from_str(VOLUME_TYPE),
        iops: VOLUME_IOPS,
        throughput: VOLUME_THROUGHPUT,
        delete_on_termination: true,
    }
}

fn tag(key: &str, value: &str) -> (r: InstanceTag)
    ensures
        r.key@ == key@,
        r.value@ == value@,
{
    InstanceTag { key: String::from_str(key), value: String::from_str(value) }
}

/// The request that launches one runner of configuration `config` for
/// repository `full_name`, which registers itself with `registration_token`.
pub fn instance_request(config: &RunConfig, full_name: &str, registration_token: &str) -> (r:
    InstanceRequest)
    ensures
        r.instance_type@ == config.instance_type@,
        r.min_count == 1,
        r.max_count == 1,
        r.block_devices@.len() == 2,
        is_runner_volume(r.block_devices@[0], ROOT_DEVICE@, config.volume_size),
        is_runner_volume(r.block_devices@[1], SWAP_DEVICE@, SWAP_VOLUME_SIZE),
        r.spot == config.spot,
        r.launch_template_variable@ == spec_launch_template_variable(config.architecture),
        r.tags@.len() == 2,
        r.tags@[0].key@ == NAME_TAG@,
        r.tags@[0].value@ == full_name@,
        r.tags@[1].key@ == REPOSITORY_TAG@,
        r.tags@[1].value@ == full_name@,
        r.user_data@ == spec_base64_encode(
            encode_utf8(spec_runner_script(full_name@, registration_token@, config.volume_size)),
        ),
{
    let mut block_devices: Vec<BlockDevice> = Vec::new();
    block_devices.push(runner_volume(ROOT_DEVICE, config.volume_size));
    block_devices.push(runner_volume(SWAP_DEVICE, SWAP_VOLUME_SIZE));
    let mut tags: Vec<InstanceTag> = Vec::new();
    tags.push(tag(NAME_TAG, full_name));
    tags.push(tag(REPOSITORY_TAG, full_name));
    InstanceRequest {
        instance_type: config.instance_type.clone(),
        min_count: 1,
        max_count: 1,
        block_devices,
        spot: config.spot,
        launch_template_variable: config.architecture.launch_template_variable(),
        tags,
        user_data: runner_user_data(full_name, registration_token, config.volume_size),
    }
}

/// The id of the instance that EC2 launched: the first instance of the
/// answer, which must have one with an id.
pub fn launched_instance_id(instance_ids: &Vec<Option<String>>) -> (r: String)
    requires
        instance_ids@.len() > 0,
        instance_ids@[0] is Some,
    ensures
        r@ == instance_ids@[0]->0@,
{
    match &instance_ids[0] {
        Some(id) => id.clone(),
        None => String::new(),
    }
}

/// The boot script carries the whole registration token, between the text
/// that introduces it and the volume size option.
pub proof fn lemma_runner_script_carries_token(full_name: Seq<char>, token: Seq<char>, volume_size: i32)
    ensures
        contains_text(
            spec_runner_script(full_name, token, volume_size),
            RUNNER_SCRIPT_TOKEN@ + token + RUNNER_SCRIPT_VOLUME@,
        ),
{
    let a = RUNNER_SCRIPT_HEAD@ + full_name;
    let b = RUNNER_SCRIPT_TOKEN@ + token + RUNNER_SCRIPT_VOLUME@;
    let c = spec_signed_decimal(volume_size as int) + RUNNER_SCRIPT_END@;
    assert(spec_runner_script(full_name, token, volume_size) =~= a + b + c);
    lemma_contains_middle(a, b, c);
}

/// The boot script carries the whole repository name in the repository's
/// URL, followed by the token option.
pub proof fn lemma_runner_script_carries_repository(full_name: Seq<char>, token: Seq<char>, volume_size: i32)
    ensures
        contains_text(
            spec_runner_script(full_name, token, volume_size),
            "https://github.com/"@ + full_name + RUNNER_SCRIPT_TOKEN@,
        ),
{
    reveal_strlit("#!/bin/sh\n\nsysctl vm.swappiness=1\nmkswap /dev/nvme1n1\nswapon /dev/nvme1n1\n\nadd-apt-repository ppa:ansible/ansible # https://github.com/ansible/ansible/issues/77624\napt-get update\napt-get -y install ansible-core awscli\napt-get clean\nansible-galaxy collection install amazon.aws community.general\nansible-pull --url https://github.com/drakon64/github-actions-runner-aws.git --extra-vars 'url=https://github.com/");
    reveal_strlit("https://github.com/");
    let head = RUNNER_SCRIPT_HEAD@;
    let before = head.subrange(0, head.len() - 19);
    assert(head.subrange(head.len() - 19, head.len() as int) =~= "https://github.com/"@);
    assert(head =~= before + "https://github.com/"@);
    let b = "https://github.com/"@ + full_name + RUNNER_SCRIPT_TOKEN@;
    let c = token + RUNNER_SCRIPT_VOLUME@ + spec_signed_decimal(volume_size as int) + RUNNER_SCRIPT_END@;
    assert(spec_runner_script(full_name, token, volume_size) =~= before + b + c);
    lemma_contains_middle(before, b, c);
}

/// Two different registration tokens give different user data, all else
/// being equal.
pub proof fn lemma_runner_user_data_distinguishes_tokens(full_name: Seq<char>, t1: Seq<char>, t2: Seq<char>, volume_size: i32)
    requires
        t1 != t2,
    ensures
        spec_base64_encode(encode_utf8(spec_runner_script(full_name, t1, volume_size)))
            != spec_base64_encode(encode_utf8(spec_runner_script(full_name, t2, volume_size))),
{
    let p = RUNNER_SCRIPT_HEAD@ + full_name + RUNNER_SCRIPT_TOKEN@;
    let q = RUNNER_SCRIPT_VOLUME@ + spec_signed_decimal(volume_size as int) + RUNNER_SCRIPT_END@;
    let s1 = spec_runner_script(full_name, t1, volume_size);
    let s2 = spec_runner_script(full_name, t2, volume_size);
    assert(s1 =~= p + t1 + q);
    assert(s2 =~= p + t2 + q);
    if s1 == s2 {
        lemma_middle_determined(p, t1, t2, q);
    }
    lemma_base64_utf8_injective(s1, s2);
}

/// Two different repositories give different user data, all else being
/// equal.
pub proof fn lemma_runner_user_data_distinguishes_repositories(f1: Seq<char>, f2: Seq<char>, token: Seq<char>, volume_size: i32)
    requires
        f1 != f2,
    ensures
        spec_base64_encode(encode_utf8(spec_runner_script(f1, token, volume_size)))
            != spec_base64_encode(encode_utf8(spec_runner_script(f2, token, volume_size))),
{
    let p = RUNNER_SCRIPT_HEAD@;
    let q = RUNNER_SCRIPT_TOKEN@ + token + RUNNER_SCRIPT_VOLUME@ + spec_signed_decimal(volume_size as int)
        + RUNNER_SCRIPT_END@;
    let s1 = spec_runner_script(f1, token, volume_size);
    let s2 = spec_runner_script(f2, token, volume_size);
    assert(s1 =~= p + f1 + q);
    assert(s2 =~= p + f2 + q);
    if s1 == s2 {
        lemma_middle_determined(p, f1, f2, q);
    }
    lemma_base64_utf8_injective(s1, s2);
}

} // verus!
