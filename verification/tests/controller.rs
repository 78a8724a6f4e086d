use libthere::controller::{
    auth_password_decision, auth_publickey_decision, bootstrap_accepts, bootstrap_reply, bootstrap_url_line,
    controller_port, generate_token, is_bootstrap_address, next_handler_id, token_from_bytes, AuthDecision, IpAddress,
};
use libthere::ipc::http::{finished_status, log_entries, JobState, JobStatus, LogEntry};
use libthere::plan::host::HostConfig;
use libthere::plan::Plan;

#[test]
fn tokens_are_32_alphanumerics() {
    let a = generate_token();
    let b = generate_token();
    assert_eq!(a.len(), 32);
    assert!(a.chars().all(|c| c.is_ascii_alphanumeric()));
    assert_ne!(a, b);
}

#[test]
fn bootstrap_addresses() {
    assert!(!is_bootstrap_address(&IpAddress::V4(127, 0, 0, 1)));
    assert!(!is_bootstrap_address(&IpAddress::V4(169, 254, 1, 1)));
    assert!(!is_bootstrap_address(&IpAddress::V4(172, 16, 0, 1)));
    assert!(!is_bootstrap_address(&IpAddress::V4(172, 31, 255, 1)));
    assert!(is_bootstrap_address(&IpAddress::V4(172, 32, 0, 1)));
    assert!(is_bootstrap_address(&IpAddress::V4(192, 168, 1, 10)));
    assert!(!is_bootstrap_address(&IpAddress::V6(0, 0, 0, 0, 0, 0, 0, 1)));
    assert!(!is_bootstrap_address(&IpAddress::V6(0xfe80, 0, 0, 0, 0, 0, 0, 5)));
    assert!(is_bootstrap_address(&IpAddress::V6(0x2001, 0xdb8, 0, 0, 0, 0, 0, 1)));
    assert_eq!(
        bootstrap_url_line("10.0.0.2", controller_port(), "tok"),
        "  - http://10.0.0.2:2345/api/bootstrap?token=tok"
    );
}

#[test]
fn bootstrap_answers() {
    assert!(bootstrap_accepts(&"t".to_string(), &"t".to_string()));
    assert!(!bootstrap_accepts(&"t".to_string(), &"u".to_string()));
    assert_eq!(bootstrap_reply(true, "AAAA"), (200, "ssh-ed25519 AAAA there-controller".to_string()));
    assert_eq!(bootstrap_reply(false, "AAAA"), (401, "invalid token".to_string()));
}

#[test]
fn ssh_server_authentication() {
    assert_eq!(auth_password_decision("root", "hackmepls"), AuthDecision::Accept);
    assert_eq!(auth_password_decision("root", "nope"), AuthDecision::Reject);
    assert_eq!(auth_password_decision("admin", "hackmepls"), AuthDecision::Reject);
    assert_eq!(auth_publickey_decision("root"), AuthDecision::Reject);
    assert_eq!(next_handler_id(4), (4, 5));
}

#[test]
fn job_states() {
    assert_eq!(finished_status(true), JobStatus::Completed);
    assert_eq!(finished_status(false), JobStatus::Failed);
    let mut job = JobState::started(Plan::new("p".into(), vec![]), HostConfig::default());
    assert_eq!(job.status, JobStatus::Running);
    assert!(!job.has_logs_for(&"id".to_string()));
    job.logs.push(("id".to_string(), vec![]));
    let entries = log_entries(&"web1".to_string(), &vec!["a".to_string(), "b".to_string()]);
    assert_eq!(entries.len(), 2);
    assert_eq!(entries[1].hostname, "web1");
    assert_eq!(entries[1].log, "b");
    job.append_logs(&"id".to_string(), entries);
    job.append_logs(&"id".to_string(), vec![LogEntry { hostname: "web2".into(), log: "c".into() }]);
    assert!(job.has_logs_for(&"id".to_string()));
    let logs: Vec<&str> = job.logs[0].1.iter().map(|e| e.log.as_str()).collect();
    assert_eq!(logs, vec!["a", "b", "c"]);
}

#[test]
fn tokens_are_the_drawn_bytes_as_text() {
    let bytes = b"aB3xYz09aB3xYz09aB3xYz09aB3xYz09".to_vec();
    assert_eq!(token_from_bytes(&bytes), "aB3xYz09aB3xYz09aB3xYz09aB3xYz09");
    assert_eq!(token_from_bytes(&vec![]), "");
}
