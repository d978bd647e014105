# github-actions-runner-aws

A serverless function that runs ephemeral GitHub Actions runners on EC2: a
`workflow_job` webhook for a queued job launches an instance that registers
itself as a runner, and the webhook for the completed job terminates it.

- `src/` is the verified library: webhook authentication (HMAC-SHA256),
  the decision taken for each delivery, the instance a job's labels ask for,
  the boot script, the `RunInstances` request, and the GitHub App token and
  REST requests.
- `app/` is the Lambda function around it: reading the delivery and the
  environment, the HTTP calls to GitHub and the EC2 calls.
- `tests/` runs the library on concrete deliveries.
