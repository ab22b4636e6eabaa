use beam_tunnel::cert::{cert_file_name, key_file_name, sanitize_domain_for_filename, stored_pair};

fn has_path_traversal(domain: &str) -> bool {
    domain.contains("..") || domain.contains("%2e%2e") || domain.contains("%2f")
}

fn is_valid_port(port: u32) -> bool {
    port >= 1 && port <= 65535
}

fn has_header_injection(host: &str) -> bool {
    host.contains('\r') || host.contains('\n') || host.contains("%0d") || host.contains("%0a")
}

#[test]
fn test_domain_validation_no_path_traversal() {
    let dangerous_domains = ["../../../etc/passwd", "..%2f..%2fetc/passwd", "test/../admin"];

    for domain in &dangerous_domains {
        assert!(has_path_traversal(domain), "Should detect path traversal in: {}", domain);
    }
}

#[test]
fn test_domain_validation_safe_domains() {
    let safe_domains = ["myapp.local", "test-app.example.com", "api.v1.service.local", "localhost"];

    for domain in &safe_domains {
        assert!(!has_path_traversal(domain), "Should accept safe domain: {}", domain);
    }
}

#[test]
fn test_port_bounds() {
    assert!(is_valid_port(1));
    assert!(is_valid_port(80));
    assert!(is_valid_port(443));
    assert!(is_valid_port(3000));
    assert!(is_valid_port(8080));
    assert!(is_valid_port(65535));

    assert!(!is_valid_port(0));
    assert!(!is_valid_port(65536));
}

#[test]
fn test_host_header_injection_prevention() {
    let dangerous_hosts = [
        "localhost\r\nX-Injected: malicious",
        "localhost\nX-Injected: malicious",
        "localhost%0d%0aX-Injected: malicious",
    ];

    for host in &dangerous_hosts {
        assert!(has_header_injection(host), "Should detect injection in: {}", host);
    }
}

#[test]
fn test_domain_to_filename_sanitization() {
    assert_eq!(sanitize_domain_for_filename("test.local"), "test_local");
    assert_eq!(sanitize_domain_for_filename("api.v1.service.com"), "api_v1_service_com");
    assert_eq!(sanitize_domain_for_filename("localhost"), "localhost");
}

#[test]
fn certificate_files_are_named_after_the_domain() {
    assert_eq!(cert_file_name("beam-tunnel.local"), "beam-tunnel_local.cert");
    assert_eq!(key_file_name("beam-tunnel.local"), "beam-tunnel_local.key");
    assert_eq!(cert_file_name(""), ".cert");
    assert_eq!(key_file_name("..a."), "__a_.key");
}

#[test]
fn stored_certificate_needs_both_files() {
    assert_eq!(stored_pair(Some(vec![1]), Some(vec![2])), Some((vec![1], vec![2])));
    assert_eq!(stored_pair(Some(vec![1]), None), None);
    assert_eq!(stored_pair(None, Some(vec![2])), None);
    assert_eq!(stored_pair(None, None), None);
}
