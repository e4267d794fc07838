use order::telemetry::{metrics_endpoint, otlp_url, traces_endpoint};

#[test]
fn telemetry_goes_to_this_machine_by_default() {
    assert_eq!(otlp_url(None), "http://localhost:4318");
    assert_eq!(metrics_endpoint(&otlp_url(None)), "http://localhost:4318/v1/metrics");
    assert_eq!(traces_endpoint(&otlp_url(None)), "http://localhost:4318/v1/traces");
}

#[test]
fn telemetry_goes_where_it_is_configured_to_go() {
    assert_eq!(otlp_url(Some("http://collector:4318/".to_string())), "http://collector:4318/");
    assert_eq!(otlp_url(Some(String::new())), "");
}

#[test]
fn slashes_at_the_end_make_no_difference() {
    assert_eq!(metrics_endpoint("http://collector"), "http://collector/v1/metrics");
    assert_eq!(metrics_endpoint("http://collector/"), "http://collector/v1/metrics");
    assert_eq!(traces_endpoint("http://collector///"), "http://collector/v1/traces");
    assert_eq!(traces_endpoint("http://collector/é//"), "http://collector/é/v1/traces");
}

#[test]
fn nothing_but_slashes_leaves_the_path() {
    assert_eq!(metrics_endpoint("///"), "/v1/metrics");
    assert_eq!(traces_endpoint(""), "/v1/traces");
}
