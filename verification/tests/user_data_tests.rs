use base64::Engine;
use github_actions_runner_aws::user_data::create_user_data;
use github_actions_runner_aws::webhook::{
    Action, Installation, Owner, Repository, Webhook, WorkflowJob,
};

fn decode(text: &str) -> String {
    let bytes = base64::prelude::BASE64_STANDARD.decode(text).unwrap();
    String::from_utf8(bytes).unwrap()
}

fn webhook() -> Webhook {
    Webhook {
        action: Action::Queued,
        installation: Installation { id: 42 },
        workflow_job: WorkflowJob { labels: vec![], runner_name: None },
        repository: Repository {
            full_name: "drakon64/example".to_string(),
            owner: Owner { login: "drakon64".to_string() },
        },
    }
}

#[test]
fn user_data_holds_the_tag_script_and_the_playbook() {
    let data = create_user_data(&webhook(), true, &20, "TOKEN123", "eu-west-2", "#!/bin/bash\necho base");
    let script = decode(&data);
    let tag_script = "#!/bin/sh

TOKEN=$(curl -X PUT http://169.254.169.254/latest/api/token -H 'X-aws-ec2-metadata-token-ttl-seconds: 21600')
INSTANCE_ID=$(curl -H 'X-aws-ec2-metadata-token: $TOKEN' http://169.254.169.254/latest/meta-data/instance-id/)

aws ec2 create-tags --region eu-west-2 --resources $INSTANCE_ID --tags Key=Name,Value=\"${GITHUB_REPOSITORY}/${GITHUB_RUN_ID}/${GITHUB_RUN_NUMBER}/${GITHUB_RUN_ATTEMPT}/${GITHUB_JOB}\"";
    let encoded_tag = base64::prelude::BASE64_STANDARD.encode(tag_script);
    let expected = format!("#!/bin/bash\necho base

base64 -d '{encoded_tag}' > /home/runner/tag.sh
chown runner:runner /home/runner/tag.sh

ansible-pull --url https://github.com/drakon64/github-actions-runner-aws.git --checkout canary --extra-vars 'url=https://github.com/drakon64/example' --extra-vars 'token=TOKEN123' --extra-vars '{{ \"spot\": true }}' --extra-vars 'ebs_volume_size=20' ansible/runner.yml");
    assert_eq!(script, expected);
}

#[test]
fn user_data_on_demand() {
    let data = create_user_data(&webhook(), false, &14, "T", "us-east-1", "");
    let script = decode(&data);
    assert!(script.contains("'{ \"spot\": false }'"));
    assert!(script.contains("'ebs_volume_size=14'"));
    assert!(script.starts_with("\n\nbase64 -d '"));
}
