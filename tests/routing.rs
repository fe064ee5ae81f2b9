use countdown::config::{Config, ConfigError};
use countdown::router::{
    git_redirect_location, mentions_html, method_allowed, wants_html, HostRule, Route, Router, Site,
};

fn strings(v: &[&str]) -> Vec<String> {
    v.iter().map(|s| s.to_string()).collect()
}

fn service_router() -> Router {
    Router::new(
        strings(&["localhost:3003", "127.0.0.1:3003"]),
        strings(&["ugh.kominick.com"]),
        strings(&["git.jaemk.me"]),
        strings(&["ip.kominick.com"]),
    )
}

fn isolated(site: Site, hosts: &[&str]) -> Router {
    Router {
        loopback: strings(&["localhost:3003", "127.0.0.1:3003"]),
        rules: vec![HostRule { site, hosts: strings(hosts) }],
    }
}

#[test]
fn loopback_reaches_every_site() {
    let h = Some("127.0.0.1:3003");
    assert_eq!(isolated(Site::Countdown, &["ugh.kominick.com"]).route(h, "/"), Route::CountdownIndex);
    assert_eq!(isolated(Site::Countdown, &[]).route(h, "/dates/end"), Route::CountdownDates);
    assert_eq!(isolated(Site::Git, &["git.jaemk.me"]).route(h, "/mono"), Route::GitRedirect);
    assert_eq!(isolated(Site::Ip, &["other.example"]).route(h, "/"), Route::IpEcho);
    assert_eq!(isolated(Site::Ip, &[]).route(Some("localhost:3003"), "/"), Route::IpEcho);
}

#[test]
fn public_hosts_reach_their_site() {
    let r = service_router();
    assert_eq!(r.route(Some("ugh.kominick.com"), "/"), Route::CountdownIndex);
    assert_eq!(r.route(Some("ugh.kominick.com"), "/dates/end"), Route::CountdownDates);
    assert_eq!(r.route(Some("ugh.kominick.com"), "/other"), Route::NotFound);
    assert_eq!(r.route(Some("git.jaemk.me"), "/mono"), Route::GitRedirect);
    assert_eq!(r.route(Some("ip.kominick.com"), "/"), Route::IpEcho);
}

#[test]
fn first_matching_rule_wins() {
    let r = service_router();
    let h = Some("localhost:3003");
    assert_eq!(r.route(h, "/"), Route::CountdownIndex);
    assert_eq!(r.route(h, "/dates/end"), Route::CountdownDates);
    assert_eq!(r.route(h, "/anything"), Route::GitRedirect);
}

#[test]
fn global_routes_ignore_host() {
    let r = service_router();
    assert_eq!(r.route(Some("git.jaemk.me"), "/status"), Route::Status);
    assert_eq!(r.route(Some("nowhere.example"), "/favicon.ico"), Route::Favicon);
    assert_eq!(r.route(None, "/status"), Route::Status);
}

#[test]
fn unmatched_host_is_not_found() {
    let r = service_router();
    assert_eq!(r.route(Some("nowhere.example"), "/"), Route::NotFound);
    assert_eq!(r.route(Some("localhost:8080"), "/x"), Route::NotFound);
    assert_eq!(r.route(None, "/"), Route::NotFound);
}

#[test]
fn redirect_location() {
    assert_eq!(git_redirect_location("/mono/tree"), "https://github.com/jaemk/mono/tree");
    assert_eq!(git_redirect_location("/"), "https://github.com/jaemk/");
    assert_eq!(git_redirect_location("x"), "https://github.com/jaemk/x");
}

fn config(start: &str, end: &str) -> Result<Config, ConfigError> {
    Config::from_settings(
        "abc".to_string(),
        "localhost".to_string(),
        3003,
        "info".to_string(),
        false,
        start,
        end,
    )
}

#[test]
fn config_accepts_window() {
    let c = config("2021-01-01T00:00:00Z", "2022-01-01T00:00:00Z").unwrap();
    assert_eq!(c.start_date.secs, 1609459200);
    assert_eq!(c.end_date.secs, 1640995200);
    assert_eq!(c.window().start, c.start_date);
    assert_eq!(c.get_host_port(), "localhost:3003");
    assert_eq!(c.get_localhost_port(), "localhost:3003");
    assert_eq!(c.get_127_port(), "127.0.0.1:3003");
}

#[test]
fn config_errors() {
    assert_eq!(config("bad", "2022-01-01T00:00:00Z").err(), Some(ConfigError::InvalidStartDate));
    assert_eq!(config("2021-01-01T00:00:00Z", "bad").err(), Some(ConfigError::InvalidEndDate));
    assert_eq!(
        config("2022-01-01T00:00:00Z", "2021-01-01T00:00:00Z").err(),
        Some(ConfigError::StartAfterEnd)
    );
    assert!(config("2021-01-01T00:00:00Z", "2021-01-01T00:00:00Z").is_ok());
}

#[test]
fn port_formatting_edges() {
    for (port, text) in [(0u16, "0"), (9, "9"), (10, "10"), (65535, "65535")] {
        let mut c = config("2021-01-01T00:00:00Z", "2022-01-01T00:00:00Z").unwrap();
        c.port = port;
        assert_eq!(c.get_127_port(), format!("127.0.0.1:{text}"));
    }
}

#[test]
fn methods_allowed_per_route() {
    assert!(method_allowed(Route::Status, true));
    assert!(!method_allowed(Route::Status, false));
    assert!(!method_allowed(Route::CountdownDates, false));
    assert!(!method_allowed(Route::GitRedirect, false));
    assert!(method_allowed(Route::CountdownIndex, false));
    assert!(method_allowed(Route::NotFound, false));
}

#[test]
fn accept_header_asks_for_html() {
    assert!(wants_html(Some("text/html,application/xhtml+xml")));
    assert!(wants_html(Some("Text/HTML; q=0.9")));
    assert!(!wants_html(Some("application/json")));
    assert!(!wants_html(Some("text/htm")));
    assert!(!wants_html(None));
}

#[test]
fn lowered_accept_mentions_html() {
    assert!(mentions_html("text/html"));
    assert!(mentions_html("*/*, text/html"));
    assert!(!mentions_html("TEXT/HTML"));
    assert!(!mentions_html(""));
}
