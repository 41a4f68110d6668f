use picotui::api::{ApiRequest, ApiResponse};
use picotui::app::{App, Effect, Key};
use picotui::models::{
    ClusterInfo, InstanceInfo, MemoryInfo, ReplicasetInfo, StateVariant, TierInfo, TokenEntry,
    TokenResponse, UiConfig,
};
use picotui::view::{InputMode, LoginFocus, SortField, SortOrder, TreeItem, ViewMode};

fn instance(name: &str, addr: &str, domain: &[(&str, &str)]) -> InstanceInfo {
    InstanceInfo {
        http_address: format!("{}:8080", addr),
        version: "25.6.0".to_string(),
        failure_domain: domain
            .iter()
            .map(|(k, v)| (k.to_string(), v.to_string()))
            .collect(),
        is_leader: false,
        current_state: StateVariant::Online,
        target_state: StateVariant::Online,
        name: name.to_string(),
        binary_address: format!("{}:3301", addr),
        pg_address: String::new(),
    }
}

fn replicaset(name: &str, instances: Vec<InstanceInfo>) -> ReplicasetInfo {
    ReplicasetInfo {
        version: "1".to_string(),
        state: StateVariant::Online,
        instance_count: instances.len(),
        uuid: format!("uuid-{}", name),
        instances,
        capacity_usage_tenths: 300,
        memory: MemoryInfo { usable: 1073741824, used: 322122547 },
        name: name.to_string(),
    }
}

fn tier(name: &str, replicasets: Vec<ReplicasetInfo>) -> TierInfo {
    TierInfo {
        replicaset_count: replicasets.len(),
        replicasets,
        rf: 3,
        bucket_count: 3000,
        instance_count: 0,
        can_vote: true,
        name: name.to_string(),
        services: Vec::new(),
        memory: MemoryInfo { usable: 2147483648, used: 644245094 },
        capacity_usage_tenths: 300,
    }
}

fn mock_tiers() -> Vec<TierInfo> {
    vec![
        tier(
            "default",
            vec![
                replicaset(
                    "r1",
                    vec![
                        instance("i1", "10.0.0.1", &[("datacenter", "dc1"), ("rack", "r1")]),
                        instance("i2", "10.0.0.2", &[("datacenter", "dc1"), ("rack", "r2")]),
                    ],
                ),
                replicaset(
                    "r2",
                    vec![
                        instance("i3", "10.0.0.3", &[("datacenter", "dc2"), ("rack", "r1")]),
                        instance("i4", "10.0.0.4", &[("datacenter", "dc2"), ("rack", "r2")]),
                    ],
                ),
            ],
        ),
        tier(
            "storage",
            vec![replicaset(
                "s1",
                vec![
                    instance("s1-i1", "10.0.1.1", &[("datacenter", "dc1")]),
                    instance("s1-i2", "10.0.1.2", &[("datacenter", "dc2")]),
                ],
            )],
        ),
    ]
}

fn cluster_info() -> ClusterInfo {
    ClusterInfo {
        capacity_usage_tenths: 305,
        cluster_name: "test-cluster".to_string(),
        cluster_version: "1.0.0".to_string(),
        current_instance_version: "25.6.0".to_string(),
        replicasets_count: 2,
        instances_current_state_offline: 1,
        instances_current_state_online: 5,
        memory: MemoryInfo { usable: 4294967296, used: 1288490188 },
        plugins: vec!["plugin1".to_string()],
    }
}

/// Create a test app with saved token state
fn test_app_with_saved_token() -> App {
    let mut app = App::new("http://test:8080".to_string(), None);
    app.has_saved_token = true;
    app.loading = true;
    app.auth_enabled = true;
    app.input_mode = InputMode::Normal;
    app
}

fn is_refresh(effects: &[Effect]) -> bool {
    effects.len() == 2
        && matches!(effects[0], Effect::Send(ApiRequest::GetClusterInfo))
        && matches!(effects[1], Effect::Send(ApiRequest::GetTiers))
}

#[test]
fn test_401_error_on_cluster_info_allows_relogin() {
    let mut app = test_app_with_saved_token();

    // Simulate receiving a 401 error from ClusterInfo
    app.handle_response(ApiResponse::ClusterInfo(Err("HTTP 401 Unauthorized".to_string())));

    // Verify the app is ready for login
    assert!(!app.loading, "loading should be false to allow login submission");
    assert!(!app.has_saved_token, "has_saved_token should be cleared");
    assert_eq!(app.input_mode, InputMode::Login, "should switch to login mode");
    assert!(app.login_error.is_some(), "should have login error message");
    assert!(
        app.login_error.as_ref().unwrap().contains("Session expired"),
        "error should mention session expired"
    );
}

#[test]
fn test_401_error_on_tiers_allows_relogin() {
    let mut app = test_app_with_saved_token();

    // Simulate receiving a 401 error from Tiers
    app.handle_response(ApiResponse::Tiers(Err("HTTP 401 Unauthorized".to_string())));

    // Verify the app is ready for login
    assert!(!app.loading, "loading should be false to allow login submission");
    assert!(!app.has_saved_token, "has_saved_token should be cleared");
    assert_eq!(app.input_mode, InputMode::Login, "should switch to login mode");
    assert!(app.login_error.is_some(), "should have login error message");
}

#[test]
fn test_non_401_error_does_not_trigger_relogin() {
    let mut app = test_app_with_saved_token();

    // Simulate receiving a non-401 error
    app.handle_response(ApiResponse::ClusterInfo(Err(
        "HTTP 500 Internal Server Error".to_string(),
    )));

    // Should NOT switch to login mode
    assert!(app.has_saved_token, "has_saved_token should remain true");
    assert_eq!(app.input_mode, InputMode::Normal, "should stay in normal mode");
    assert!(app.login_error.is_none(), "should not have login error");
    assert!(app.last_error.is_some(), "should have last_error set");
}

#[test]
fn expired_session_asks_to_delete_saved_token() {
    let mut app = test_app_with_saved_token();
    app.handle_response(ApiResponse::ClusterInfo(Err(
        "Failed to get cluster info: http status: 401".to_string(),
    )));
    let effects = app.take_effects();
    assert_eq!(effects.len(), 1);
    assert!(matches!(effects[0], Effect::DeleteSavedToken));
    assert_eq!(
        app.login_error.as_deref(),
        Some("Session expired, please login again")
    );
}

#[test]
fn unauthorized_word_in_any_case_counts_as_auth_failure() {
    assert!(picotui::app::auth_failure("UnAuthorized access"));
    assert!(picotui::app::auth_failure("http status: 401"));
    assert!(!picotui::app::auth_failure("http status: 500"));
}

#[test]
fn auth_failure_without_saved_token_is_a_passive_error() {
    let mut app = test_app_with_saved_token();
    app.has_saved_token = false;
    app.handle_response(ApiResponse::ClusterInfo(Err("HTTP 401 Unauthorized".to_string())));
    assert_eq!(app.input_mode, InputMode::Normal);
    assert!(app.login_error.is_none());
    assert_eq!(app.last_error.as_deref(), Some("Cluster: HTTP 401 Unauthorized"));
    assert!(app.take_effects().is_empty());
}

#[test]
fn tiers_error_keeps_earlier_error() {
    let mut app = test_app_with_saved_token();
    app.handle_response(ApiResponse::ClusterInfo(Err("boom".to_string())));
    app.handle_response(ApiResponse::Tiers(Err("bang".to_string())));
    assert_eq!(app.last_error.as_deref(), Some("Cluster: boom"));
    let mut other = test_app_with_saved_token();
    other.handle_response(ApiResponse::Tiers(Err("bang".to_string())));
    assert_eq!(other.last_error.as_deref(), Some("Tiers: bang"));
}

#[test]
fn config_failure_is_reported() {
    let mut app = App::new("http://x".to_string(), None);
    app.start_init();
    app.handle_response(ApiResponse::Config(Err("refused".to_string())));
    assert!(!app.loading);
    assert!(!app.pending_init);
    assert_eq!(app.last_error.as_deref(), Some("Failed to connect: refused"));
}

#[test]
fn full_flow_without_auth() {
    let mut app = App::new("http://test:8080".to_string(), None);
    app.start_init();
    let effects = app.take_effects();
    assert_eq!(effects.len(), 1);
    assert!(matches!(effects[0], Effect::Send(ApiRequest::GetConfig)));
    assert!(app.loading);

    app.handle_response(ApiResponse::Config(Ok(UiConfig { is_auth_enabled: false })));
    assert!(is_refresh(&app.take_effects()));
    assert!(!app.pending_init);

    app.handle_response(ApiResponse::ClusterInfo(Ok(cluster_info())));
    app.handle_response(ApiResponse::Tiers(Ok(mock_tiers())));
    assert!(!app.loading);
    assert!(!app.tree_items.is_empty());
    assert_eq!(app.tree_items.len(), 2);
}

#[test]
fn full_flow_with_auth_and_no_saved_token() {
    let mut app = App::new("http://test:8080".to_string(), None);
    app.start_init();
    app.take_effects();
    app.handle_response(ApiResponse::Config(Ok(UiConfig { is_auth_enabled: true })));
    assert_eq!(app.input_mode, InputMode::Login);
    assert!(app.take_effects().is_empty(), "no refresh before login");

    for c in "admin".chars() {
        app.handle_key(Key::Char(c));
    }
    app.handle_key(Key::Tab);
    assert_eq!(app.login_focus, LoginFocus::Password);
    for c in "secret".chars() {
        app.handle_key(Key::Char(c));
    }
    app.handle_key(Key::Enter);
    let effects = app.take_effects();
    assert_eq!(effects.len(), 1);
    match &effects[0] {
        Effect::Send(ApiRequest::Login { username, password, remember_me }) => {
            assert_eq!(username, "admin");
            assert_eq!(password, "secret");
            assert!(*remember_me);
        }
        other => panic!("unexpected effect {:?}", other),
    }

    app.handle_response(ApiResponse::Login(Ok(TokenResponse {
        auth: "test-auth-token-12345".to_string(),
        refresh: "r".to_string(),
    })));
    assert_eq!(app.input_mode, InputMode::Normal);
    assert!(app.login_password.is_empty());
    assert!(is_refresh(&app.take_effects()));
}

#[test]
fn saved_token_is_handed_over_and_refresh_is_optimistic() {
    let saved = TokenEntry { auth: "a".to_string(), refresh: "b".to_string(), saved_at: 7 };
    let mut app = App::new("http://test:8080".to_string(), Some(saved));
    assert!(app.has_saved_token);
    let effects = app.take_effects();
    assert!(matches!(&effects[0], Effect::Send(ApiRequest::SetToken { auth, .. }) if auth == "a"));
    app.start_init();
    app.take_effects();
    app.handle_response(ApiResponse::Config(Ok(UiConfig { is_auth_enabled: true })));
    assert_eq!(app.input_mode, InputMode::Normal);
    assert!(app.has_saved_token);
    assert!(is_refresh(&app.take_effects()));
}

#[test]
fn login_failure_is_shown_in_form() {
    let mut app = App::new("http://test:8080".to_string(), None);
    app.input_mode = InputMode::Login;
    app.loading = true;
    app.handle_response(ApiResponse::Login(Err("Login failed: HTTP 401".to_string())));
    assert!(!app.loading);
    assert_eq!(app.input_mode, InputMode::Login);
    assert_eq!(app.login_error.as_deref(), Some("Login failed: HTTP 401"));
}

#[test]
fn selection_clamps_after_shorter_refresh() {
    let mut app = App::new("http://test:8080".to_string(), None);
    app.handle_response(ApiResponse::Tiers(Ok(mock_tiers())));
    app.expanded_tiers.push(0);
    app.expanded_replicasets.push((0, 0));
    app.rebuild_tree();
    assert_eq!(app.tree_items.len(), 6);
    app.selected_index = 100;
    app.rebuild_tree();
    assert_eq!(app.selected_index, 5);

    let mut short = mock_tiers();
    short.truncate(1);
    short[0].replicasets.truncate(1);
    app.handle_response(ApiResponse::Tiers(Ok(short)));
    assert_eq!(app.tree_items.len(), 4);
    assert_eq!(app.selected_index, 3);

    app.handle_response(ApiResponse::Tiers(Ok(Vec::new())));
    assert!(app.tree_items.is_empty());
    assert_eq!(app.selected_index, 3);
    app.select_next();
    app.select_previous();
    assert_eq!(app.selected_index, 3);
}

#[test]
fn expanding_a_tier_inserts_its_replicasets_after_it() {
    let mut app = App::new("http://test:8080".to_string(), None);
    app.handle_response(ApiResponse::Tiers(Ok(mock_tiers())));
    assert_eq!(app.tree_items, vec![TreeItem::Tier(0), TreeItem::Tier(1)]);
    app.selected_index = 1;
    app.expand_selected();
    assert_eq!(
        app.tree_items,
        vec![TreeItem::Tier(0), TreeItem::Tier(1), TreeItem::Replicaset(1, 0)]
    );
    app.selected_index = 0;
    app.expand_selected();
    assert_eq!(
        app.tree_items,
        vec![
            TreeItem::Tier(0),
            TreeItem::Replicaset(0, 0),
            TreeItem::Replicaset(0, 1),
            TreeItem::Tier(1),
            TreeItem::Replicaset(1, 0)
        ]
    );
    app.selected_index = 2;
    app.expand_selected();
    assert_eq!(app.tree_items[3], TreeItem::Instance(0, 1, 0));
    assert_eq!(app.tree_items[4], TreeItem::Instance(0, 1, 1));
    assert_eq!(app.tree_items.len(), 7);

    app.selected_index = 3;
    assert_eq!(app.get_selected_instance().map(|i| i.name.as_str()), Some("i3"));
    app.expand_selected();
    assert!(app.show_detail);
    app.show_detail = false;
    app.collapse_selected();
    assert_eq!(app.tree_items.len(), 5);

    app.selected_index = 0;
    app.collapse_selected();
    assert_eq!(app.tree_items, vec![TreeItem::Tier(0), TreeItem::Tier(1), TreeItem::Replicaset(1, 0)]);
    assert!(app.expanded_replicasets.is_empty());
}

#[test]
fn rebuilding_twice_gives_the_same_list() {
    let mut app = App::new("http://test:8080".to_string(), None);
    app.tiers = mock_tiers();
    app.expanded_tiers = vec![0, 1];
    app.expanded_replicasets = vec![(1, 0)];
    app.selected_index = 42;
    app.rebuild_tree();
    let first = app.tree_items.clone();
    let sel = app.selected_index;
    app.rebuild_tree();
    assert_eq!(app.tree_items, first);
    assert_eq!(app.selected_index, sel);
}

#[test]
fn stale_expansion_indices_are_harmless() {
    let mut app = App::new("http://test:8080".to_string(), None);
    app.tiers = mock_tiers();
    app.expanded_tiers = vec![7];
    app.expanded_replicasets = vec![(9, 9)];
    app.rebuild_tree();
    assert_eq!(app.tree_items, vec![TreeItem::Tier(0), TreeItem::Tier(1)]);
}

#[test]
fn item_count_follows_the_view_mode() {
    let mut app = App::new("http://test:8080".to_string(), None);
    app.handle_response(ApiResponse::Tiers(Ok(mock_tiers())));
    assert_eq!(app.get_item_count(), 2);
    app.view_mode = ViewMode::Replicasets;
    assert_eq!(app.get_item_count(), 3);
    app.view_mode = ViewMode::Instances;
    assert_eq!(app.get_item_count(), 6);
    app.filter_text = "DC2".to_string();
    assert_eq!(app.get_item_count(), 3);
}

#[test]
fn navigation_wraps_and_pages_stop_at_ends() {
    let mut app = App::new("http://test:8080".to_string(), None);
    app.handle_response(ApiResponse::Tiers(Ok(mock_tiers())));
    app.view_mode = ViewMode::Instances;
    app.select_previous();
    assert_eq!(app.selected_index, 5);
    app.select_next();
    assert_eq!(app.selected_index, 0);
    app.select_page_down(20);
    assert_eq!(app.selected_index, 5);
    app.select_half_page_up(4);
    assert_eq!(app.selected_index, 3);
    app.select_page_up(20);
    assert_eq!(app.selected_index, 0);
    app.select_last();
    assert_eq!(app.selected_index, 5);
    app.select_first();
    assert_eq!(app.selected_index, 0);
    app.select_half_page_down(20);
    assert_eq!(app.selected_index, 5);
}

#[test]
fn keys_switch_views_and_clear_filter() {
    let mut app = App::new("http://test:8080".to_string(), None);
    app.handle_response(ApiResponse::Tiers(Ok(mock_tiers())));
    app.handle_key(Key::Char('3'));
    assert_eq!(app.view_mode, ViewMode::Instances);
    app.handle_key(Key::Char('/'));
    assert!(app.filter_active);
    app.handle_key(Key::Char('d'));
    app.handle_key(Key::Char('c'));
    app.handle_key(Key::Char('1'));
    assert_eq!(app.filter_text, "dc1");
    app.handle_key(Key::Backspace);
    assert_eq!(app.filter_text, "dc");
    app.handle_key(Key::Enter);
    assert!(!app.filter_active);
    assert_eq!(app.filter_text, "dc");
    app.handle_key(Key::Char('s'));
    assert_eq!(app.sort_field, SortField::FailureDomain);
    app.handle_key(Key::Char('S'));
    assert_eq!(app.sort_order, SortOrder::Desc);
    app.selected_index = 2;
    app.handle_key(Key::Char('g'));
    assert_eq!(app.view_mode, ViewMode::Tiers);
    assert!(app.filter_text.is_empty());
    assert_eq!(app.selected_index, 0);
    app.handle_key(Key::Char('q'));
    assert!(!app.running);
}

#[test]
fn refresh_key_is_ignored_while_loading() {
    let mut app = App::new("http://test:8080".to_string(), None);
    app.loading = true;
    app.handle_key(Key::Char('r'));
    assert!(app.take_effects().is_empty());
    app.loading = false;
    app.handle_key(Key::Char('r'));
    assert!(is_refresh(&app.take_effects()));
}

#[test]
fn logout_deletes_token_and_exits() {
    let mut app = App::new("http://test:8080".to_string(), None);
    app.auth_enabled = true;
    app.handle_key(Key::Char('X'));
    assert!(!app.running);
    let effects = app.take_effects();
    assert!(matches!(effects[0], Effect::DeleteSavedToken));
}

#[test]
fn login_form_keys() {
    let mut app = App::new("http://test:8080".to_string(), None);
    app.input_mode = InputMode::Login;
    app.handle_key(Key::Enter);
    assert!(app.take_effects().is_empty(), "empty username is not submitted");
    app.handle_key(Key::BackTab);
    assert_eq!(app.login_focus, LoginFocus::RememberMe);
    app.handle_key(Key::Char(' '));
    assert!(!app.login_remember_me);
    app.handle_key(Key::Enter);
    assert!(app.login_remember_me);
    app.handle_key(Key::Ctrl('s'));
    assert!(app.login_show_password);
    app.handle_key(Key::Esc);
    assert!(!app.running);
}

#[test]
fn detail_popup_opens_in_instances_view_and_closes_on_esc() {
    let mut app = App::new("http://test:8080".to_string(), None);
    app.handle_response(ApiResponse::Tiers(Ok(mock_tiers())));
    app.handle_key(Key::Char('3'));
    app.handle_key(Key::Enter);
    assert!(app.show_detail);
    assert_eq!(app.get_selected_instance().map(|i| i.name.as_str()), Some("i1"));
    app.handle_key(Key::Esc);
    assert!(!app.show_detail);
    app.view_mode = ViewMode::Replicasets;
    assert!(app.get_selected_instance().is_none());
    app.toggle_detail();
    assert!(!app.show_detail);
}

#[test]
fn disconnect_is_reported() {
    let mut app = App::new("http://test:8080".to_string(), None);
    app.handle_disconnect();
    assert_eq!(app.last_error.as_deref(), Some("API worker disconnected"));
    app.shutdown();
    assert!(matches!(app.take_effects()[0], Effect::Send(ApiRequest::Shutdown)));
}

#[test]
fn control_is_ignored_where_no_control_binding_exists() {
    let mut app = App::new("http://test:8080".to_string(), None);
    app.handle_response(ApiResponse::Tiers(Ok(mock_tiers())));
    app.handle_key(Key::Ctrl('k'));
    assert_eq!(app.selected_index, 1);
    app.handle_key(Key::Ctrl('q'));
    assert!(!app.running);

    let mut login = App::new("http://test:8080".to_string(), None);
    login.input_mode = InputMode::Login;
    login.handle_key(Key::Ctrl('a'));
    assert_eq!(login.login_username, "a");
    login.handle_key(Key::Ctrl('q'));
    assert!(!login.running);
}

#[test]
fn timer_refreshes_only_when_idle_in_normal_mode() {
    let mut app = App::new("http://test:8080".to_string(), None);
    assert!(!app.tick(false));
    assert!(app.tick(true));
    assert!(is_refresh(&app.take_effects()));
    assert!(!app.tick(true), "still loading");
    app.loading = false;
    app.input_mode = InputMode::Login;
    assert!(!app.tick(true));
    assert!(app.take_effects().is_empty());
}

#[test]
fn expanding_keeps_the_selection_on_the_row() {
    let mut app = App::new("http://test:8080".to_string(), None);
    app.handle_response(ApiResponse::Tiers(Ok(mock_tiers())));
    app.selected_index = 1;
    app.expand_selected();
    assert_eq!(app.selected_index, 1);
    assert_eq!(app.tree_items[1], TreeItem::Tier(1));
    assert_eq!(app.tree_items[2], TreeItem::Replicaset(1, 0));
    app.selected_index = 2;
    app.expand_selected();
    assert_eq!(app.selected_index, 2);
    assert_eq!(app.tree_items[3], TreeItem::Instance(1, 0, 0));
}

#[test]
fn enter_without_username_changes_nothing() {
    let mut app = App::new("http://test:8080".to_string(), None);
    app.input_mode = InputMode::Login;
    app.login_error = Some("earlier".to_string());
    app.handle_key(Key::Enter);
    assert_eq!(app.login_error.as_deref(), Some("earlier"));
    assert!(!app.loading);
    assert!(app.take_effects().is_empty());
}

#[test]
fn login_failure_keeps_saved_token_flag() {
    let mut app = test_app_with_saved_token();
    app.input_mode = InputMode::Login;
    app.handle_response(ApiResponse::Login(Err("Login failed: HTTP 403".to_string())));
    assert!(app.has_saved_token);
    assert!(app.last_error.is_none());
    assert_eq!(app.login_error.as_deref(), Some("Login failed: HTTP 403"));
}
