use picotui::api::{
    describe_failure, login_error, parse_error, request_error, token_parse_error, ApiRequest,
    CallFailure, Endpoint, Worker, WorkerStep,
};
use picotui::instances::{format_failure_domain, matches_filter, sorted_instances};
use picotui::models::{
    InstanceInfo, MemoryInfo, ReplicasetInfo, StateVariant, TierInfo, TokenResponse,
};
use picotui::text::{decimal, format_bytes};
use picotui::view::{SortField, SortOrder, ViewMode};

fn instance(name: &str, domain: &[(&str, &str)]) -> InstanceInfo {
    InstanceInfo {
        http_address: String::new(),
        version: String::new(),
        failure_domain: domain
            .iter()
            .map(|(k, v)| (k.to_string(), v.to_string()))
            .collect(),
        is_leader: false,
        current_state: StateVariant::Online,
        target_state: StateVariant::Online,
        name: name.to_string(),
        binary_address: format!("{}.host:3301", name),
        pg_address: String::new(),
    }
}

fn one_tier(instances: Vec<InstanceInfo>) -> Vec<TierInfo> {
    vec![TierInfo {
        replicasets: vec![ReplicasetInfo {
            version: String::new(),
            state: StateVariant::Online,
            instance_count: instances.len(),
            uuid: String::new(),
            instances,
            capacity_usage_tenths: 0,
            memory: MemoryInfo { usable: 0, used: 0 },
            name: "rs".to_string(),
        }],
        replicaset_count: 1,
        rf: 1,
        bucket_count: 0,
        instance_count: 0,
        can_vote: false,
        name: "tier".to_string(),
        services: Vec::new(),
        memory: MemoryInfo { usable: 0, used: 0 },
        capacity_usage_tenths: 0,
    }]
}

fn names(v: &[(&str, &str, &InstanceInfo)]) -> Vec<String> {
    v.iter().map(|r| r.2.name.clone()).collect()
}

#[test]
fn sort_by_name_ascending_and_descending() {
    let tiers = one_tier(vec![
        instance("b", &[]),
        instance("a", &[]),
        instance("c", &[]),
    ]);
    let asc = sorted_instances(&tiers, "", SortField::Name, SortOrder::Asc);
    assert_eq!(names(&asc), vec!["a", "b", "c"]);
    let desc = sorted_instances(&tiers, "", SortField::Name, SortOrder::Desc);
    assert_eq!(names(&desc), vec!["c", "b", "a"]);
}

#[test]
fn reversed_ascending_name_sort_matches_descending_on_names() {
    let tiers = one_tier(vec![
        instance("x", &[("dc", "1")]),
        instance("a", &[]),
        instance("x", &[("dc", "2")]),
        instance("m", &[]),
    ]);
    let asc = sorted_instances(&tiers, "", SortField::Name, SortOrder::Asc);
    let desc = sorted_instances(&tiers, "", SortField::Name, SortOrder::Desc);
    let mut reversed = names(&asc);
    reversed.reverse();
    assert_eq!(reversed, names(&desc));
    // equal names keep their data order in both directions
    assert_eq!(asc[2].2.failure_domain[0].1, "1");
    assert_eq!(desc[0].2.failure_domain[0].1, "1");
}

#[test]
fn sort_by_failure_domain_breaks_ties_by_name() {
    let tiers = one_tier(vec![
        instance("i2", &[("rack", "r1"), ("datacenter", "dc1")]),
        instance("i3", &[("datacenter", "dc2")]),
        instance("i1", &[("datacenter", "dc1"), ("rack", "r1")]),
    ]);
    let asc = sorted_instances(&tiers, "", SortField::FailureDomain, SortOrder::Asc);
    assert_eq!(names(&asc), vec!["i1", "i2", "i3"]);
    let desc = sorted_instances(&tiers, "", SortField::FailureDomain, SortOrder::Desc);
    assert_eq!(names(&desc), vec!["i3", "i2", "i1"]);
}

#[test]
fn failure_domain_text_sorts_keys() {
    let d = vec![
        ("rack".to_string(), "r2".to_string()),
        ("datacenter".to_string(), "dc1".to_string()),
    ];
    assert_eq!(format_failure_domain(&d), "datacenter:dc1, rack:r2");
    assert_eq!(format_failure_domain(&Vec::new()), "");
    let one = vec![("zone".to_string(), "z".to_string())];
    assert_eq!(format_failure_domain(&one), "zone:z");
}

#[test]
fn filter_ignores_case_of_filter_text() {
    let tiers = one_tier(vec![
        instance("i1", &[("datacenter", "dc1")]),
        instance("i2", &[("datacenter", "dc2")]),
        instance("i3", &[("datacenter", "DC1")]),
    ]);
    let upper = sorted_instances(&tiers, "DC1", SortField::Name, SortOrder::Asc);
    let lower = sorted_instances(&tiers, "dc1", SortField::Name, SortOrder::Asc);
    assert_eq!(names(&upper), vec!["i1", "i3"]);
    assert_eq!(names(&upper), names(&lower));
}

#[test]
fn filter_matches_each_field() {
    let inst = instance("Alpha", &[("dc", "North")]);
    assert!(matches_filter("", "t", "r", &inst));
    assert!(matches_filter("alp", "t", "r", &inst));
    assert!(matches_filter("tier", "MyTier", "r", &inst));
    assert!(matches_filter("set", "t", "ReplicaSet", &inst));
    assert!(matches_filter("host:33", "t", "r", &inst));
    assert!(matches_filter("nor", "t", "r", &inst));
    assert!(!matches_filter("dc", "t", "r", &inst), "keys are not searched");
    assert!(!matches_filter("zzz", "t", "r", &inst));
}

#[test]
fn filter_with_no_match_gives_empty_list() {
    let tiers = one_tier(vec![instance("i1", &[])]);
    assert!(sorted_instances(&tiers, "nothing", SortField::Name, SortOrder::Asc).is_empty());
    let none: Vec<TierInfo> = Vec::new();
    assert!(sorted_instances(&none, "", SortField::Name, SortOrder::Asc).is_empty());
}

#[test]
fn bytes_in_binary_units() {
    assert_eq!(format_bytes(0), "0 B");
    assert_eq!(format_bytes(512), "512.0 B");
    assert_eq!(format_bytes(1536), "1.5 KiB");
    assert_eq!(format_bytes(1280), "1.2 KiB");
    assert_eq!(format_bytes(1048575), "1024.0 KiB");
    assert_eq!(format_bytes(4294967296), "4.0 GiB");
    assert_eq!(format_bytes(1288490188), "1.2 GiB");
    assert_eq!(format_bytes(1u64 << 50), "1.0 PiB");
    assert_eq!(format_bytes(u64::MAX), "16384.0 PiB");
}

#[test]
fn decimal_digits() {
    assert_eq!(decimal(0), "0");
    assert_eq!(decimal(401), "401");
    assert_eq!(decimal(u64::MAX), "18446744073709551615");
}

#[test]
fn labels_and_cycles() {
    assert_eq!(ViewMode::Tiers.cycle_next(), ViewMode::Replicasets);
    assert_eq!(ViewMode::Instances.cycle_next(), ViewMode::Tiers);
    assert_eq!(ViewMode::Replicasets.label(), "Replicasets");
    assert_eq!(SortField::Name.cycle_next(), SortField::FailureDomain);
    assert_eq!(SortField::FailureDomain.label(), "Domain");
    assert_eq!(SortOrder::Asc.toggle(), SortOrder::Desc);
    assert_eq!(SortOrder::Asc.arrow(), "↑");
    assert_eq!(SortOrder::Desc.arrow(), "↓");
    assert_eq!(StateVariant::Expelled.label(), "Expelled");
    assert_eq!(ViewMode::default(), ViewMode::Tiers);
}

#[test]
fn worker_strips_trailing_slashes_and_builds_urls() {
    let mut w = Worker::new("http://h:8080//");
    assert_eq!(w.base_url, "http://h:8080");
    match w.plan(ApiRequest::GetTiers) {
        WorkerStep::Get { endpoint, url, authorization } => {
            assert_eq!(endpoint, Endpoint::Tiers);
            assert_eq!(url, "http://h:8080/api/v1/tiers");
            assert!(authorization.is_none());
        }
        other => panic!("unexpected {:?}", other),
    }
    assert!(matches!(w.plan(ApiRequest::Shutdown), WorkerStep::Stop));
}

#[test]
fn set_token_then_cluster_info_carries_that_token() {
    let mut w = Worker::new("http://h:8080");
    let step = w.plan(ApiRequest::SetToken {
        auth: "my-test-token".to_string(),
        refresh: "refresh-token".to_string(),
    });
    assert!(matches!(step, WorkerStep::SaveToken { ref auth, .. } if auth == "my-test-token"));
    match w.plan(ApiRequest::GetClusterInfo) {
        WorkerStep::Get { url, authorization, .. } => {
            assert_eq!(url, "http://h:8080/api/v1/cluster");
            assert_eq!(authorization.as_deref(), Some("Bearer my-test-token"));
        }
        other => panic!("unexpected {:?}", other),
    }
}

#[test]
fn login_adopts_token_for_later_requests() {
    let mut w = Worker::new("http://h");
    match w.plan(ApiRequest::Login {
        username: "admin".to_string(),
        password: "secret".to_string(),
        remember_me: false,
    }) {
        WorkerStep::PostLogin { url, body, remember_me } => {
            assert_eq!(url, "http://h/api/v1/session");
            assert_eq!(body.username, "admin");
            assert_eq!(body.password, "secret");
            assert!(!remember_me);
        }
        other => panic!("unexpected {:?}", other),
    }
    let save = w.login_succeeded(
        &TokenResponse { auth: "test-auth-token-12345".to_string(), refresh: "x".to_string() },
        false,
    );
    assert!(!save, "not remembered, not saved");
    match w.plan(ApiRequest::GetConfig) {
        WorkerStep::Get { authorization, .. } => {
            assert_eq!(authorization.as_deref(), Some("Bearer test-auth-token-12345"))
        }
        other => panic!("unexpected {:?}", other),
    }
}

#[test]
fn error_texts() {
    assert_eq!(describe_failure(&CallFailure::Status(401)), "http status: 401");
    assert_eq!(
        request_error(Endpoint::Cluster, &CallFailure::Status(500)),
        "Failed to get cluster info: http status: 500"
    );
    assert_eq!(
        request_error(Endpoint::Config, &CallFailure::Transport("Connection refused".to_string())),
        "Failed to get config: Connection refused"
    );
    assert_eq!(parse_error(Endpoint::Tiers, "eof"), "Failed to parse tiers: eof");
    assert_eq!(token_parse_error("eof"), "Failed to parse tokens: eof");
    assert_eq!(login_error(&CallFailure::Status(401)), "Login failed: HTTP 401");
    assert_eq!(
        login_error(&CallFailure::Transport("timeout".to_string())),
        "Login failed: timeout"
    );
}

#[test]
fn replicasets_view_lists_every_tier_in_order() {
    let mut tiers = one_tier(vec![instance("a", &[])]);
    let mut second = tiers[0].clone();
    second.name = "storage".to_string();
    second.replicasets[0].name = "s1".to_string();
    tiers.push(second);
    let list = picotui::instances::replicaset_list(&tiers);
    let names: Vec<(&str, &str)> = list.iter().map(|(t, r)| (*t, r.name.as_str())).collect();
    assert_eq!(names, vec![("tier", "rs"), ("storage", "s1")]);
    assert!(picotui::instances::replicaset_list(&Vec::new()).is_empty());
}

#[test]
fn empty_filter_keeps_every_instance() {
    let tiers = one_tier(vec![instance("b", &[]), instance("a", &[])]);
    assert_eq!(picotui::instances::count_visible(&tiers, ""), 2);
    assert_eq!(names(&sorted_instances(&tiers, "", SortField::Name, SortOrder::Asc)), vec!["a", "b"]);
}
