//! The packs compiled into the tool: a name and the manifest text of each.

use vstd::prelude::*;
use vstd::string::*;

verus! {

/// A pack whose manifest text is part of the tool.
#[derive(Debug, Clone, Copy)]
pub struct BuiltinPack {
    pub name: &'static str,
    pub yaml_content: &'static str,
}

/// The manifest of the compiled-in `aws-cloudwatch` pack.
pub const AWS_CLOUDWATCH_PACK: &'static str = r#"api_version: "jev-ops/v1"
kind: "DiagnosticPack"

metadata:
  name: "aws-cloudwatch"
  version: "0.1.0"
  description: "AWS CloudWatch diagnostics for ECS, ALB, Lambda, and RDS"
  author: "jev-ops"

spec:
  input:
    type: "text"
    max_bytes: 2097152

  decisions:
    health:
      type: "choice"
      values:
        - healthy
        - degraded
        - unhealthy
        - unknown

    service:
      type: "choice"
      values:
        - ecs
        - alb
        - lambda
        - rds
        - ec2
        - unknown

    root_cause:
      type: "choice"
      values:
        - oom_killed
        - health_check_failure
        - throttling
        - timeout
        - permissions
        - configuration
        - dependency
        - unknown

    severity:
      type: "score"
      min: 0
      max: 5
      levels:
        - "Normal: no errors or anomalies in the signals"
        - "Informational: notable events with no impact on service"
        - "Minor: isolated errors or warnings with no user-visible impact"
        - "Degraded: partial impairment, elevated errors or latency for some users or requests"
        - "Serious: a major component is failing or most requests are affected; urgent action needed"
        - "Critical: outage, data loss or corruption risk, or active security compromise"

    recommended_action:
      type: "choice"
      values:
        - none
        - ssm_restart
        - scale_out
        - rollback
        - investigate
        - escalate

  instructions: |
    Analyze AWS CloudWatch log streams and alarm payloads from ECS, ALB, Lambda, and RDS.
    Classify service health, the affected service, and the most probable root cause.
    Recommend the safest next action for an on-call engineer.
"#;

/// The manifest of the compiled-in `azure-monitor` pack.
pub const AZURE_MONITOR_PACK: &'static str = r#"api_version: "jev-ops/v1"
kind: "DiagnosticPack"

metadata:
  name: "azure-monitor"
  version: "0.1.0"
  description: "Azure Monitor alert triage for AKS, App Gateway, and CosmosDB"
  author: "jev-ops"

spec:
  input:
    type: "text"
    max_bytes: 2097152

  decisions:
    health:
      type: "choice"
      values:
        - healthy
        - degraded
        - unhealthy
        - unknown

    resource_type:
      type: "choice"
      values:
        - aks
        - app_gateway
        - cosmosdb
        - vm
        - app_service
        - unknown

    root_cause:
      type: "choice"
      values:
        - probe_failure
        - capacity
        - throttling
        - certificate
        - configuration
        - dependency
        - unknown

    severity:
      type: "score"
      min: 0
      max: 5
      levels:
        - "Normal: no errors or anomalies in the signals"
        - "Informational: notable events with no impact on service"
        - "Minor: isolated errors or warnings with no user-visible impact"
        - "Degraded: partial impairment, elevated errors or latency for some users or requests"
        - "Serious: a major component is failing or most requests are affected; urgent action needed"
        - "Critical: outage, data loss or corruption risk, or active security compromise"

    recommended_action:
      type: "choice"
      values:
        - none
        - auto_heal
        - scale_out
        - failover
        - investigate
        - escalate

  instructions: |
    Analyze Azure Monitor alert context in the Common Alert Schema and resource logs.
    Classify resource health, the affected resource type, and the most probable root cause.
    Recommend the safest next action for an on-call engineer.
"#;

/// The manifest of the compiled-in `checkmk` pack.
pub const CHECKMK_PACK: &'static str = r#"api_version: "jev-ops/v1"
kind: "DiagnosticPack"

metadata:
  name: "checkmk"
  version: "0.1.0"
  description: "CheckMK alert de-noising and triage"
  author: "jev-ops"

spec:
  input:
    type: "text"
    max_bytes: 1048576

  decisions:
    action:
      type: "choice"
      values:
        - ignore
        - watch
        - notify
        - auto_repair
        - escalate

    root_domain:
      type: "choice"
      values:
        - storage
        - memory
        - cpu
        - network
        - service
        - hardware
        - unknown

    urgency:
      type: "score"
      min: 0
      max: 5
      levels:
        - "Watch: no action beyond observation"
        - "Ticket: handle in working hours"
        - "Notify: tell the owning team now"
        - "Act: remediate within the hour"
        - "Escalate: page the on-call engineer"
        - "Emergency: all hands, customer impact confirmed"

  instructions: |
    Analyze a CheckMK service check output with its performance data.
    Decide whether the alert is transient noise or needs action, which domain it
    belongs to, and how urgently an operator must respond.
"#;

/// The manifest of the compiled-in `ci-canary` pack.
pub const CI_CANARY_PACK: &'static str = r#"api_version: "jev-ops/v1"
kind: "DiagnosticPack"

metadata:
  name: "ci-canary"
  version: "0.1.0"
  description: "Canary deployment verification for CI/CD rollouts"
  author: "jev-ops"

spec:
  input:
    type: "text"
    max_bytes: 1048576

  decisions:
    rollout_action:
      type: "choice"
      values:
        - promote
        - watch
        - rollback

    error_spike:
      type: "boolean"

    risk_score:
      type: "score"
      min: 0
      max: 5
      levels:
        - "Normal: no errors or anomalies in the signals"
        - "Informational: notable events with no impact on service"
        - "Minor: isolated errors or warnings with no user-visible impact"
        - "Degraded: partial impairment, elevated errors or latency for some users or requests"
        - "Serious: a major component is failing or most requests are affected; urgent action needed"
        - "Critical: outage, data loss or corruption risk, or active security compromise"

    rollback_now:
      type: "boolean"

  instructions: |
    Analyze canary metrics and logs collected during a progressive rollout.
    Compare error rates and latency of the canary against the baseline and decide
    whether to promote, keep watching, or roll back.
"#;

/// The manifest of the compiled-in `docker` pack.
pub const DOCKER_PACK: &'static str = r#"api_version: "jev-ops/v1"
kind: "DiagnosticPack"

metadata:
  name: "docker"
  version: "0.1.0"
  description: "Docker container and daemon diagnostics"
  author: "jev-ops"

spec:
  input:
    type: "text"
    max_bytes: 2097152

  decisions:
    health:
      type: "choice"
      values:
        - healthy
        - degraded
        - unhealthy
        - unknown

    failure_mode:
      type: "choice"
      values:
        - oom_killed
        - crash_loop
        - unhealthy_probe
        - image_pull
        - network
        - storage
        - none
        - unknown

    severity:
      type: "score"
      min: 0
      max: 5
      levels:
        - "Normal: no errors or anomalies in the signals"
        - "Informational: notable events with no impact on service"
        - "Minor: isolated errors or warnings with no user-visible impact"
        - "Degraded: partial impairment, elevated errors or latency for some users or requests"
        - "Serious: a major component is failing or most requests are affected; urgent action needed"
        - "Critical: outage, data loss or corruption risk, or active security compromise"

    needs_attention:
      type: "boolean"

  instructions: |
    Analyze Docker container logs, docker inspect output, and daemon journal entries.
    Classify container health and the most probable failure mode.
"#;

/// The manifest of the compiled-in `example` pack.
pub const EXAMPLE_PACK: &'static str = r#"api_version: "jev-ops/v1"
kind: "DiagnosticPack"

metadata:
  name: "example"
  version: "0.1.0"
  description: "Generic example diagnostic pack demonstrating the pack format"
  author: "jev-ops"

spec:
  input:
    type: "text"
    max_bytes: 1048576

  decisions:
    health:
      type: "choice"
      values:
        - healthy
        - degraded
        - unhealthy
        - unknown

    severity:
      type: "score"
      min: 0
      max: 5
      levels:
        - "Normal: no errors or anomalies in the signals"
        - "Informational: notable events with no impact on service"
        - "Minor: isolated errors or warnings with no user-visible impact"
        - "Degraded: partial impairment, elevated errors or latency for some users or requests"
        - "Serious: a major component is failing or most requests are affected; urgent action needed"
        - "Critical: outage, data loss or corruption risk, or active security compromise"

    needs_attention:
      type: "boolean"

  instructions: |
    Analyze the supplied diagnostic signals.
    Classify the operational health, severity level, and whether immediate
    operator intervention is needed.
"#;

/// The manifest of the compiled-in `gcp-cloud-ops` pack.
pub const GCP_CLOUD_OPS_PACK: &'static str = r#"api_version: "jev-ops/v1"
kind: "DiagnosticPack"

metadata:
  name: "gcp-cloud-ops"
  version: "0.1.0"
  description: "GCP Cloud Operations diagnostics for Cloud Run, GKE, and BigQuery"
  author: "jev-ops"

spec:
  input:
    type: "text"
    max_bytes: 2097152

  decisions:
    health:
      type: "choice"
      values:
        - healthy
        - degraded
        - unhealthy
        - unknown

    service:
      type: "choice"
      values:
        - cloud_run
        - gke
        - bigquery
        - cloud_sql
        - pubsub
        - unknown

    root_cause:
      type: "choice"
      values:
        - container_exited_137
        - cold_start
        - quota
        - permissions
        - configuration
        - dependency
        - unknown

    severity:
      type: "score"
      min: 0
      max: 5
      levels:
        - "Normal: no errors or anomalies in the signals"
        - "Informational: notable events with no impact on service"
        - "Minor: isolated errors or warnings with no user-visible impact"
        - "Degraded: partial impairment, elevated errors or latency for some users or requests"
        - "Serious: a major component is failing or most requests are affected; urgent action needed"
        - "Critical: outage, data loss or corruption risk, or active security compromise"

    recommended_action:
      type: "choice"
      values:
        - none
        - restart_revision
        - raise_memory
        - scale_out
        - rollback
        - escalate

  instructions: |
    Analyze Google Cloud Logging entries and error reports from Cloud Run, GKE, and BigQuery.
    Classify service health, the affected service, and the most probable root cause.
    Recommend the safest next action for an on-call engineer.
"#;

/// The manifest of the compiled-in `kubernetes` pack.
pub const KUBERNETES_PACK: &'static str = r#"api_version: "jev-ops/v1"
kind: "DiagnosticPack"

metadata:
  name: "kubernetes"
  version: "0.1.0"
  description: "Kubernetes pod, event, and cluster diagnostics"
  author: "jev-ops"

spec:
  input:
    type: "text"
    max_bytes: 2097152

  decisions:
    health:
      type: "choice"
      values:
        - healthy
        - degraded
        - unhealthy
        - unknown

    root_cause:
      type: "choice"
      values:
        - scheduling
        - image_pull
        - crashloop
        - resources
        - networking
        - storage
        - application
        - unknown

    needs_attention:
      type: "boolean"

    severity:
      type: "score"
      min: 0
      max: 5
      levels:
        - "Normal: no errors or anomalies in the signals"
        - "Informational: notable events with no impact on service"
        - "Minor: isolated errors or warnings with no user-visible impact"
        - "Degraded: partial impairment, elevated errors or latency for some users or requests"
        - "Serious: a major component is failing or most requests are affected; urgent action needed"
        - "Critical: outage, data loss or corruption risk, or active security compromise"

  instructions: |
    Analyze Kubernetes diagnostic output such as pod statuses, events, describe outputs, and logs.
    Classify whether the workload is healthy, degraded, or unhealthy.
    Identify the most probable root cause from the domain options.
"#;

/// The manifest of the compiled-in `linux` pack.
pub const LINUX_PACK: &'static str = r#"api_version: "jev-ops/v1"
kind: "DiagnosticPack"

metadata:
  name: "linux"
  version: "0.1.0"
  description: "General Linux diagnostic classification of kernel and system logs"
  author: "jev-ops"

spec:
  input:
    type: "text"
    max_bytes: 1048576

  decisions:
    health:
      type: "choice"
      values:
        - healthy
        - degraded
        - unhealthy
        - unknown

    category:
      type: "choice"
      values:
        - normal
        - memory
        - filesystem
        - network
        - security
        - hardware
        - application
        - unknown

    severity:
      type: "score"
      min: 0
      max: 5
      levels:
        - "Normal: no errors or anomalies in the signals"
        - "Informational: notable events with no impact on service"
        - "Minor: isolated errors or warnings with no user-visible impact"
        - "Degraded: partial impairment, elevated errors or latency for some users or requests"
        - "Serious: a major component is failing or most requests are affected; urgent action needed"
        - "Critical: outage, data loss or corruption risk, or active security compromise"

    needs_attention:
      type: "boolean"

  instructions: |
    Analyze Linux kernel messages, journal entries, and system logs.
    Classify the operational health, the problem category, the severity level,
    and whether immediate operator intervention is needed.
"#;

/// The manifest of the compiled-in `mysql` pack.
pub const MYSQL_PACK: &'static str = r#"api_version: "jev-ops/v1"
kind: "DiagnosticPack"

metadata:
  name: "mysql"
  version: "0.1.0"
  description: "MySQL database and replica diagnostics"
  author: "jev-ops"

spec:
  input:
    type: "text"
    max_bytes: 2097152

  decisions:
    health:
      type: "choice"
      values:
        - healthy
        - degraded
        - unhealthy
        - unknown

    bottleneck:
      type: "choice"
      values:
        - connections
        - deadlock
        - slow_queries
        - replication
        - disk
        - memory
        - none
        - unknown

    severity:
      type: "score"
      min: 0
      max: 5
      levels:
        - "Normal: no errors or anomalies in the signals"
        - "Informational: notable events with no impact on service"
        - "Minor: isolated errors or warnings with no user-visible impact"
        - "Degraded: partial impairment, elevated errors or latency for some users or requests"
        - "Serious: a major component is failing or most requests are affected; urgent action needed"
        - "Critical: outage, data loss or corruption risk, or active security compromise"

    needs_attention:
      type: "boolean"

  instructions: |
    Analyze MySQL error logs, slow query logs, and replica status output.
    Classify database health and the most probable bottleneck.
"#;

/// The manifest of the compiled-in `nginx` pack.
pub const NGINX_PACK: &'static str = r#"api_version: "jev-ops/v1"
kind: "DiagnosticPack"

metadata:
  name: "nginx"
  version: "0.1.0"
  description: "Nginx web proxy and ingress diagnostics"
  author: "jev-ops"

spec:
  input:
    type: "text"
    max_bytes: 2097152

  decisions:
    health:
      type: "choice"
      values:
        - healthy
        - degraded
        - unhealthy
        - unknown

    issue_type:
      type: "choice"
      values:
        - 502_504
        - timeout
        - ssl
        - rate_limit
        - configuration
        - upstream
        - none
        - unknown

    severity:
      type: "score"
      min: 0
      max: 5
      levels:
        - "Normal: no errors or anomalies in the signals"
        - "Informational: notable events with no impact on service"
        - "Minor: isolated errors or warnings with no user-visible impact"
        - "Degraded: partial impairment, elevated errors or latency for some users or requests"
        - "Serious: a major component is failing or most requests are affected; urgent action needed"
        - "Critical: outage, data loss or corruption risk, or active security compromise"

    needs_attention:
      type: "boolean"

  instructions: |
    Analyze Nginx access and error logs from web proxies and ingress controllers.
    Classify proxy health and the most probable issue type.
"#;

/// The manifest of the compiled-in `terraform-plan` pack.
pub const TERRAFORM_PLAN_PACK: &'static str = r#"api_version: "jev-ops/v1"
kind: "DiagnosticPack"

metadata:
  name: "terraform-plan"
  version: "0.1.0"
  description: "Terraform plan change review and blast-radius gate"
  author: "jev-ops"

spec:
  input:
    type: "text"
    max_bytes: 2097152

  decisions:
    change_risk:
      type: "score"
      min: 0
      max: 5
      levels:
        - "Normal: no errors or anomalies in the signals"
        - "Informational: notable events with no impact on service"
        - "Minor: isolated errors or warnings with no user-visible impact"
        - "Degraded: partial impairment, elevated errors or latency for some users or requests"
        - "Serious: a major component is failing or most requests are affected; urgent action needed"
        - "Critical: outage, data loss or corruption risk, or active security compromise"

    blast_radius:
      type: "choice"
      values:
        - none
        - single_resource
        - service
        - environment
        - account

    destroys_stateful_resource:
      type: "boolean"

  instructions: |
    Analyze a summary of a Terraform plan in JSON form.
    Judge the risk of the change, how far its effects reach, and whether it
    destroys or replaces a stateful resource such as a database or a volume.
"#;

/// The compiled-in packs, in the order in which they are listed.
pub open spec fn builtin_catalog() -> Seq<BuiltinPack> {
    seq![
        BuiltinPack { name: "aws-cloudwatch", yaml_content: AWS_CLOUDWATCH_PACK },
        BuiltinPack { name: "azure-monitor", yaml_content: AZURE_MONITOR_PACK },
        BuiltinPack { name: "checkmk", yaml_content: CHECKMK_PACK },
        BuiltinPack { name: "ci-canary", yaml_content: CI_CANARY_PACK },
        BuiltinPack { name: "docker", yaml_content: DOCKER_PACK },
        BuiltinPack { name: "example", yaml_content: EXAMPLE_PACK },
        BuiltinPack { name: "gcp-cloud-ops", yaml_content: GCP_CLOUD_OPS_PACK },
        BuiltinPack { name: "kubernetes", yaml_content: KUBERNETES_PACK },
        BuiltinPack { name: "linux", yaml_content: LINUX_PACK },
        BuiltinPack { name: "mysql", yaml_content: MYSQL_PACK },
        BuiltinPack { name: "nginx", yaml_content: NGINX_PACK },
        BuiltinPack { name: "terraform-plan", yaml_content: TERRAFORM_PLAN_PACK },
    ]
}

/// The compiled-in packs, in the order in which they are listed.
pub fn builtin_packs() -> (r: Vec<BuiltinPack>)
    ensures
        r@ == builtin_catalog(),
{
    let r = vec![
        BuiltinPack { name: "aws-cloudwatch", yaml_content: AWS_CLOUDWATCH_PACK },
        BuiltinPack { name: "azure-monitor", yaml_content: AZURE_MONITOR_PACK },
        BuiltinPack { name: "checkmk", yaml_content: CHECKMK_PACK },
        BuiltinPack { name: "ci-canary", yaml_content: CI_CANARY_PACK },
        BuiltinPack { name: "docker", yaml_content: DOCKER_PACK },
        BuiltinPack { name: "example", yaml_content: EXAMPLE_PACK },
        BuiltinPack { name: "gcp-cloud-ops", yaml_content: GCP_CLOUD_OPS_PACK },
        BuiltinPack { name: "kubernetes", yaml_content: KUBERNETES_PACK },
        BuiltinPack { name: "linux", yaml_content: LINUX_PACK },
        BuiltinPack { name: "mysql", yaml_content: MYSQL_PACK },
        BuiltinPack { name: "nginx", yaml_content: NGINX_PACK },
        BuiltinPack { name: "terraform-plan", yaml_content: TERRAFORM_PLAN_PACK },
    ];
    assert(r@ =~= builtin_catalog());
    r
}

/// Whether a compiled-in pack is called `name`.
pub open spec fn is_builtin_name(name: Seq<char>) -> bool {
    exists|i: int| 0 <= i < builtin_catalog().len() && (#[trigger] builtin_catalog()[i]).name@ == name
}

/// The compiled-in pack called `name`, if there is one. Its manifest text is read by the
/// caller, which names it `<embedded:NAME>`.
pub fn get_builtin_pack(name: &str) -> (r: Option<BuiltinPack>)
    ensures
        r is Some <==> is_builtin_name(name@),
        r matches Some(p) ==> p.name@ == name@ && builtin_catalog().contains(p),
{
    let packs = builtin_packs();
    let wanted = String::from_str(name);
    let n = packs.len();
    let mut i: usize = 0;
    while i < n
        invariant
            n == packs@.len(),
            packs@ == builtin_catalog(),
            wanted@ == name@,
            i <= n,
            forall|j: int| 0 <= j < i ==> (#[trigger] builtin_catalog()[j]).name@ != name@,
        decreases n - i,
    {
        let p = packs[i];
        if String::from_str(p.name) == wanted {
            assert(builtin_catalog()[i as int] == p);
            return Some(p);
        }
        i = i + 1;
    }
    None
}

} // verus!
