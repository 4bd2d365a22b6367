//! Unit tests for name generation, path-parameter extraction and URL
//! building.

use mcp_pangolin::swagger::build_url;
use mcp_pangolin::swagger::extract_path_params;
use mcp_pangolin::swagger::generate_tool_name;
use mcp_pangolin::types::HttpMethod;

#[test]
fn test_generate_tool_name() {
    assert_eq!(
        generate_tool_name("/org/{orgId}/site", HttpMethod::Get),
        "org_by_orgId_site"
    );
    assert_eq!(
        generate_tool_name("/org/{orgId}/site", HttpMethod::Put),
        "create_org_by_orgId_site"
    );
    assert_eq!(
        generate_tool_name("/site/{siteId}", HttpMethod::Delete),
        "delete_site_by_siteId"
    );
    assert_eq!(generate_tool_name("/", HttpMethod::Get), "health_check");
}

#[test]
fn test_generate_tool_name_replaces_dashes() {
    assert_eq!(
        generate_tool_name("/site-resources", HttpMethod::Get),
        "site_resources"
    );
    assert_eq!(
        generate_tool_name("/org/{orgId}/access-token", HttpMethod::Post),
        "update_org_by_orgId_access_token"
    );
}

#[test]
fn test_generate_tool_name_root_prefixes() {
    assert_eq!(generate_tool_name("/", HttpMethod::Put), "create_health_check");
    assert_eq!(generate_tool_name("", HttpMethod::Get), "health_check");
}

#[test]
fn test_extract_path_params() {
    let params = extract_path_params("/org/{orgId}/site/{siteId}/resource/{resourceId}");
    assert_eq!(params, vec!["orgId", "siteId", "resourceId"]);
}

#[test]
fn test_extract_path_params_none() {
    let params = extract_path_params("/org/site");
    assert!(params.is_empty());
}

#[test]
fn test_build_url() {
    let mut params: Vec<(String, String)> = Vec::new();
    params.push(("orgId".to_string(), "org123".to_string()));
    params.push(("siteId".to_string(), "site456".to_string()));

    let url = build_url(
        "https://api.pangolin.example.com/v1",
        "/org/{orgId}/site/{siteId}",
        &params,
    );
    assert_eq!(url, "https://api.pangolin.example.com/v1/org/org123/site/site456");
}

#[test]
fn test_build_url_strips_trailing_slash() {
    let params: Vec<(String, String)> = Vec::new();
    let url = build_url("https://api.example.com/v1/", "/orgs", &params);
    assert_eq!(url, "https://api.example.com/v1/orgs");
}
