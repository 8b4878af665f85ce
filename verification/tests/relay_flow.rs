use synalux_relay::config::{
    claim_endpoint, configured_message, deep_link_token, setup_failure, split_setup_token,
    with_keychain_secret, RelayConfig,
};
use synalux_relay::job::{
    completion_report, decode_payload, payload_from_decoded, plan_job, refused_claim,
    Base64DecodeError, PrintJob, PrintRoute,
};
use synalux_relay::relay::{
    after_poll, backoff_over, bearer_authorization, claim_job_endpoint, complete_job_endpoint,
    relay_started, relay_stopped, supervise, PollStep, RelayStatus, SupervisorStep,
};

fn sample_config() -> RelayConfig {
    RelayConfig {
        supabase_url: "https://abc.supabase.co".to_string(),
        supabase_key: "key-1".to_string(),
        venue_id: "venue-9".to_string(),
        relay_hmac_secret: "file-secret".to_string(),
    }
}

fn empty_job() -> PrintJob {
    PrintJob {
        id: None,
        printer_ip: None,
        printer_type: None,
        payload_base64: None,
        has_http_url: false,
        http_url: None,
        http_method: None,
        http_headers: Vec::new(),
        http_body: None,
    }
}

#[test]
fn keychain_secret_wins() {
    let cfg = with_keychain_secret(sample_config(), Some("chain-secret".to_string()));
    assert_eq!(cfg.relay_hmac_secret, "chain-secret");
    assert_eq!(cfg.venue_id, "venue-9");
    assert_eq!(cfg.supabase_url, "https://abc.supabase.co");
    assert_eq!(cfg.supabase_key, "key-1");
    let cfg = with_keychain_secret(sample_config(), None);
    assert_eq!(cfg.relay_hmac_secret, "file-secret");
}

#[test]
fn plain_token_uses_default_server() {
    let t = split_setup_token("abc123");
    assert_eq!(t.base_url, "https://pos.synalux.ai");
    assert_eq!(t.token, "abc123");
}

#[test]
fn token_with_server() {
    let t = split_setup_token("https://pos.example.com|tok|en");
    assert_eq!(t.base_url, "https://pos.example.com");
    assert_eq!(t.token, "tok|en");
    let joined = format!("{}|{}", t.base_url, t.token);
    assert_eq!(joined, "https://pos.example.com|tok|en");
    let t = split_setup_token("|");
    assert_eq!(t.base_url, "");
    assert_eq!(t.token, "");
}

#[test]
fn setup_addresses_and_messages() {
    assert_eq!(
        claim_endpoint("https://pos.synalux.ai"),
        "https://pos.synalux.ai/api/v1/pos/settings/relay/claim"
    );
    assert_eq!(setup_failure(401, "bad token"), "Setup failed: 401 Unauthorized — bad token");
    assert_eq!(configured_message("venue-9"), "Configured for venue venue-9");
}

#[test]
fn deep_links() {
    assert_eq!(deep_link_token("synalux-relay://setup?token=abc"), Some("abc".to_string()));
    assert_eq!(deep_link_token("\"synalux-relay://setup?token=abc\""), None);
    assert_eq!(deep_link_token("synalux-relay://setup?token=abc\""), Some("abc".to_string()));
    assert_eq!(deep_link_token("synalux-relay://setup?token=\"\"x\"\""), Some("x".to_string()));
    assert_eq!(deep_link_token("synalux-relay://setup?token=\"\"\""), Some(String::new()));
    assert_eq!(deep_link_token("synalux-relay://other"), None);
    assert_eq!(deep_link_token("synalux-relay://setup?token=a\"b"), Some("a\"b".to_string()));
}

#[test]
fn no_job_in_empty_reply() {
    assert!(plan_job(Vec::new()).is_none());
}

#[test]
fn job_without_id_is_skipped() {
    let mut job = empty_job();
    job.printer_ip = Some("192.168.1.50".to_string());
    assert!(plan_job(vec![job]).is_none());
    let mut job = empty_job();
    job.id = Some(String::new());
    assert!(plan_job(vec![job]).is_none());
}

#[test]
fn generic_job_goes_over_tcp() {
    let mut job = empty_job();
    job.id = Some("job-1".to_string());
    job.printer_ip = Some("192.168.1.50".to_string());
    job.payload_base64 = Some("aGk=".to_string());
    job.has_http_url = true;
    job.http_url = Some("http://192.168.1.50/".to_string());
    let plan = plan_job(vec![job, empty_job()]).unwrap();
    assert_eq!(plan.job_id, "job-1");
    match plan.route {
        PrintRoute::Tcp { host, port, payload_base64 } => {
            assert_eq!(host, "192.168.1.50");
            assert_eq!(port, 9100);
            assert_eq!(payload_base64, "aGk=");
        }
        PrintRoute::Http { .. } => panic!("expected a TCP route"),
    }
}

#[test]
fn typed_job_without_url_goes_over_tcp() {
    let mut job = empty_job();
    job.id = Some("job-2".to_string());
    job.printer_type = Some("star".to_string());
    let plan = plan_job(vec![job]).unwrap();
    match plan.route {
        PrintRoute::Tcp { host, port, payload_base64 } => {
            assert_eq!(host, "");
            assert_eq!(port, 9100);
            assert_eq!(payload_base64, "");
        }
        PrintRoute::Http { .. } => panic!("expected a TCP route"),
    }
}

#[test]
fn typed_job_with_url_goes_over_http() {
    let mut job = empty_job();
    job.id = Some("job-3".to_string());
    job.printer_type = Some("epson".to_string());
    job.has_http_url = true;
    job.http_url = None;
    job.http_headers = vec![("Content-Type".to_string(), Some("text/xml".to_string()))];
    job.http_body = Some("<x/>".to_string());
    let plan = plan_job(vec![job]).unwrap();
    assert_eq!(plan.job_id, "job-3");
    match plan.route {
        PrintRoute::Http { url, method, headers, body } => {
            assert_eq!(url, "");
            assert_eq!(method, "POST");
            assert_eq!(headers, vec![("Content-Type".to_string(), Some("text/xml".to_string()))]);
            assert_eq!(body, "<x/>");
        }
        PrintRoute::Tcp { .. } => panic!("expected an HTTP route"),
    }
}

#[test]
fn refused_claims() {
    assert_eq!(refused_claim(404, ""), Ok(false));
    assert_eq!(refused_claim(406, "JSON object requested, no rows returned"), Ok(false));
    assert_eq!(
        refused_claim(500, "boom"),
        Err("Claim failed: 500 Internal Server Error — boom".to_string())
    );
}

#[test]
fn payload_decoding() {
    assert_eq!(decode_payload("aGk="), Ok(vec![104, 105]));
    assert_eq!(decode_payload(""), Ok(Vec::new()));
    assert_eq!(decode_payload("!!!!"), Err("Base64 decode: Invalid symbol 33, offset 0.".to_string()));
    assert_eq!(
        payload_from_decoded(Err(Base64DecodeError::InvalidLength(5))),
        Err("Base64 decode: Invalid input length: 5".to_string())
    );
    assert_eq!(
        payload_from_decoded(Err(Base64DecodeError::InvalidLastSymbol(3, 66))),
        Err("Base64 decode: Invalid last symbol 66, offset 3.".to_string())
    );
    assert_eq!(
        payload_from_decoded(Err(Base64DecodeError::InvalidPadding)),
        Err("Base64 decode: Invalid padding".to_string())
    );
    assert_eq!(payload_from_decoded(Ok(vec![1, 2])), Ok(vec![1, 2]));
}

#[test]
fn completion_reports() {
    let r = completion_report("job-1".to_string(), &Ok(()));
    assert_eq!(r.job_id, "job-1");
    assert!(r.success);
    assert_eq!(r.error, None);
    let r = completion_report("job-2".to_string(), &Err("Host 8.8.8.8 not allowed".to_string()));
    assert!(!r.success);
    assert_eq!(r.error, Some("Host 8.8.8.8 not allowed".to_string()));
}

#[test]
fn status_counts_printed_jobs() {
    let mut s = RelayStatus::new();
    assert!(!s.connected);
    assert_eq!(s.venue_id, None);
    assert_eq!(s.print_count, 0);
    s.record_completion(true);
    s.record_completion(false);
    s.record_completion(true);
    assert_eq!(s.print_count, 2);
}

#[test]
fn supervisor_steps() {
    let mut s = RelayStatus::new();
    assert_eq!(supervise(&mut s, &None), SupervisorStep::AwaitSetup { seconds: 10 });
    assert!(!s.connected);
    assert_eq!(supervise(&mut s, &Some(sample_config())), SupervisorStep::RunRelay);
    assert!(s.connected);
    assert_eq!(s.venue_id, Some("venue-9".to_string()));
    assert_eq!(relay_stopped(&mut s), 5);
    assert!(!s.connected);
    assert_eq!(s.venue_id, Some("venue-9".to_string()));
    relay_started(&mut s);
    assert!(s.connected);
    assert_eq!(s.venue_id, Some("venue-9".to_string()));
}

#[test]
fn poll_steps() {
    let mut s = RelayStatus::new();
    supervise(&mut s, &Some(sample_config()));
    assert_eq!(after_poll(&mut s, &Ok(true)), PollStep::PollAgain);
    assert!(s.connected);
    assert_eq!(after_poll(&mut s, &Ok(false)), PollStep::Idle { seconds: 2 });
    assert!(s.connected);
    assert_eq!(after_poll(&mut s, &Err("HTTP error".to_string())), PollStep::Backoff { seconds: 5 });
    assert!(!s.connected);
    backoff_over(&mut s);
    assert!(s.connected);
}

#[test]
fn queue_addresses() {
    assert_eq!(
        claim_job_endpoint("https://abc.supabase.co"),
        "https://abc.supabase.co/rest/v1/rpc/claim_print_job"
    );
    assert_eq!(
        complete_job_endpoint("https://abc.supabase.co"),
        "https://abc.supabase.co/rest/v1/rpc/complete_print_job"
    );
    assert_eq!(bearer_authorization("key-1"), "Bearer key-1");
}
