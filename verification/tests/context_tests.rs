use beam_tunnel::context::{AccessContext, ContextDetector, SourceIp};
use beam_tunnel::net::parse_ipv4_text;

fn ip(text: &str) -> SourceIp {
    SourceIp::V4(parse_ipv4_text(text).unwrap())
}

fn is_local_ip(ip: SourceIp) -> bool {
    ContextDetector::new().is_local_ip(ip)
}

// The detector takes the indicators as they are written. Deliveries write
// their names in either case, so the lowercase form is asked for as well.
fn is_webhook_user_agent(ua: &str) -> bool {
    let detector = ContextDetector::new();
    detector.is_webhook_service(ua, None) || detector.is_webhook_service(&ua.to_lowercase(), None)
}

fn is_browser_user_agent(ua: &str) -> bool {
    ContextDetector::new().is_browser_user_agent(ua)
}

#[test]
fn test_webhook_detection() {
    let detector = ContextDetector::new();

    assert_eq!(
        detector.detect_context(
            Some("Stripe/1.0 (+https://stripe.com/docs/webhooks)"),
            ip("1.2.3.4"),
            None
        ),
        AccessContext::WebhookService
    );

    assert_eq!(
        detector.detect_context(Some("GitHub-Hookshot/123abc"), ip("1.2.3.4"), None),
        AccessContext::WebhookService
    );
}

#[test]
fn test_local_browser_detection() {
    let detector = ContextDetector::new();

    assert_eq!(
        detector.detect_context(
            Some("Mozilla/5.0 (Macintosh; Intel Mac OS X 10_15_7) AppleWebKit/537.36"),
            ip("127.0.0.1"),
            None
        ),
        AccessContext::LocalBrowser
    );

    assert_eq!(
        detector.detect_context(Some("curl/7.68.0"), ip("127.0.0.1"), None),
        AccessContext::APIClient
    );
}

#[test]
fn test_external_access_detection() {
    let detector = ContextDetector::new();

    assert_eq!(
        detector.detect_context(Some("Mozilla/5.0 Chrome/91.0"), ip("1.2.3.4"), None),
        AccessContext::ExternalAccess
    );

    assert_eq!(
        detector.detect_context(Some("MyApp/1.0"), ip("1.2.3.4"), None),
        AccessContext::APIClient
    );
}

#[test]
fn test_local_ip_detection() {
    let detector = ContextDetector::new();

    assert!(detector.is_local_ip(ip("127.0.0.1")));
    assert!(detector.is_local_ip(ip("192.168.1.100")));
    assert!(detector.is_local_ip(ip("10.0.0.50")));
    assert!(detector.is_local_ip(ip("172.16.0.10")));

    assert!(!detector.is_local_ip(ip("8.8.8.8")));
    assert!(!detector.is_local_ip(ip("1.2.3.4")));
}

#[test]
fn test_localhost_detection() {
    assert!(is_local_ip(ip("127.0.0.1")));
}

#[test]
fn test_private_192_168_detection() {
    assert!(is_local_ip(ip("192.168.1.100")));
}

#[test]
fn test_private_10_detection() {
    assert!(is_local_ip(ip("10.0.0.50")));
}

#[test]
fn test_private_172_detection() {
    assert!(is_local_ip(ip("172.16.0.1")));
    assert!(is_local_ip(ip("172.31.255.255")));
}

#[test]
fn test_external_ip_detection() {
    assert!(!is_local_ip(ip("8.8.8.8")));
    assert!(!is_local_ip(ip("1.2.3.4")));
}

#[test]
fn test_stripe_webhook_detection() {
    assert!(is_webhook_user_agent("Stripe/1.0 (+https://stripe.com/docs/webhooks)"));
}

#[test]
fn test_github_webhook_detection() {
    assert!(is_webhook_user_agent("GitHub-Hookshot/abc123"));
}

#[test]
fn test_slack_webhook_detection() {
    assert!(is_webhook_user_agent("Slackbot 1.0 (+https://api.slack.com/robots)"));
}

#[test]
fn test_discord_webhook_detection() {
    assert!(is_webhook_user_agent("Discord-Webhook"));
}

#[test]
fn test_non_webhook_detection() {
    assert!(!is_webhook_user_agent("Mozilla/5.0 Chrome/91.0"));
    assert!(!is_webhook_user_agent("curl/7.68.0"));
    assert!(!is_webhook_user_agent("MyApp/1.0"));
}

#[test]
fn test_chrome_browser_detection() {
    assert!(is_browser_user_agent("Mozilla/5.0 (Windows NT 10.0; Win64; x64) AppleWebKit/537.36 (KHTML, like Gecko) Chrome/91.0.4472.124 Safari/537.36"));
}

#[test]
fn test_firefox_browser_detection() {
    assert!(is_browser_user_agent(
        "Mozilla/5.0 (Windows NT 10.0; Win64; x64; rv:89.0) Gecko/20100101 Firefox/89.0"
    ));
}

#[test]
fn test_safari_browser_detection() {
    assert!(is_browser_user_agent("Mozilla/5.0 (Macintosh; Intel Mac OS X 10_15_7) AppleWebKit/605.1.15 (KHTML, like Gecko) Version/14.1.1 Safari/605.1.15"));
}

#[test]
fn test_curl_not_browser() {
    assert!(!is_browser_user_agent("curl/7.68.0"));
}

#[test]
fn test_wget_not_browser() {
    assert!(!is_browser_user_agent("Wget/1.20.3"));
}

#[test]
fn webhook_indicators_match_case_as_written() {
    let detector = ContextDetector::new();
    assert!(!detector.is_webhook_service("Discord-Webhook", None));
    assert!(detector.is_webhook_service("discord-webhook", None));
    assert!(!detector.is_webhook_service("stripe/1.0", None));
    assert!(!detector.is_webhook_service("STRIPE/1.0", None));
    for ua in [
        "Stripe/1", "GitHub-Hookshot/1", "x twilio y", "my webhook", "slack", "discord bot",
        "zapier", "webhook.site",
    ] {
        assert!(detector.is_webhook_service(ua, None), "{}", ua);
    }
    assert!(!detector.is_webhook_service("", None));
    assert!(!detector.is_webhook_service("Stripe", None));
}

#[test]
fn every_browser_indicator_is_known() {
    let detector = ContextDetector::new();
    for ua in [
        "Mozilla/", "Chrome/", "Safari/", "Firefox/", "Edge/", "Opera/", "Brave/", "Vivaldi/",
        "Chromium/",
    ] {
        assert!(detector.is_browser_user_agent(ua), "{}", ua);
        assert!(detector.is_browser_user_agent(&format!("x {}1.0 y", ua)), "{}", ua);
    }
    assert!(!detector.is_browser_user_agent("mozilla/5.0"));
    assert!(!detector.is_browser_user_agent("Mozilla"));
    assert!(!detector.is_browser_user_agent(""));
}

#[test]
fn referer_alone_makes_a_webhook() {
    let detector = ContextDetector::new();
    assert!(detector.is_webhook_service("curl/1", Some("https://webhook.site/x")));
    assert!(!detector.is_webhook_service("curl/1", Some("https://example.com/")));
    assert_eq!(
        detector.detect_context(Some("Mozilla/5.0"), ip("127.0.0.1"), Some("https://zapier.com")),
        AccessContext::WebhookService
    );
    assert_eq!(
        detector.detect_context(None, ip("8.8.8.8"), Some("hooks.slack.com")),
        AccessContext::WebhookService
    );
}

#[test]
fn webhook_wins_over_address_and_browser() {
    let detector = ContextDetector::new();
    assert_eq!(
        detector.detect_context(Some("Mozilla/5.0 webhook"), ip("127.0.0.1"), None),
        AccessContext::WebhookService
    );
    assert_eq!(
        detector.detect_context(Some("Mozilla/5.0 webhook"), ip("9.9.9.9"), None),
        AccessContext::WebhookService
    );
}

#[test]
fn missing_user_agent_is_an_api_client() {
    let detector = ContextDetector::new();
    assert_eq!(detector.detect_context(None, ip("127.0.0.1"), None), AccessContext::APIClient);
    assert_eq!(detector.detect_context(None, ip("8.8.8.8"), None), AccessContext::APIClient);
}

#[test]
fn private_ranges_end_where_they_should() {
    let detector = ContextDetector::new();
    for local in [
        [127, 0, 0, 0], [127, 255, 255, 255], [10, 0, 0, 0], [10, 255, 255, 255],
        [172, 16, 0, 0], [172, 31, 255, 255], [192, 168, 0, 0], [192, 168, 255, 255],
    ] {
        assert!(detector.is_local_ip(SourceIp::V4(local)), "{:?}", local);
    }
    for public in [
        [126, 255, 255, 255], [128, 0, 0, 0], [9, 255, 255, 255], [11, 0, 0, 0],
        [172, 15, 255, 255], [172, 32, 0, 0], [192, 167, 255, 255], [192, 169, 0, 0],
        [54, 187, 174, 169], [0, 0, 0, 0], [255, 255, 255, 255],
    ] {
        assert!(!detector.is_local_ip(SourceIp::V4(public)), "{:?}", public);
    }
}

#[test]
fn ipv6_loopback_and_link_local_are_local() {
    let detector = ContextDetector::new();
    assert!(detector.is_local_ip(SourceIp::V6([0, 0, 0, 0, 0, 0, 0, 1])));
    assert!(detector.is_local_ip(SourceIp::V6([0xfe80, 0, 0, 0, 0, 0, 0, 1])));
    assert!(detector.is_local_ip(SourceIp::V6([0xfebf, 1, 2, 3, 4, 5, 6, 7])));
    assert!(!detector.is_local_ip(SourceIp::V6([0xfec0, 0, 0, 0, 0, 0, 0, 1])));
    assert!(!detector.is_local_ip(SourceIp::V6([0xfe7f, 0, 0, 0, 0, 0, 0, 1])));
    assert!(!detector.is_local_ip(SourceIp::V6([0, 0, 0, 0, 0, 0, 0, 2])));
    assert!(!detector.is_local_ip(SourceIp::V6([0, 0, 0, 0, 0, 0, 0, 0])));
    assert!(!detector.is_local_ip(SourceIp::V6([0x2001, 0xdb8, 0, 0, 0, 0, 0, 1])));
    assert_eq!(
        detector.detect_context(Some("Firefox/1"), SourceIp::V6([0, 0, 0, 0, 0, 0, 0, 1]), None),
        AccessContext::LocalBrowser
    );
}

#[test]
fn same_request_gets_the_same_label() {
    let detector = ContextDetector::new();
    let other = ContextDetector::new();
    for ua in [None, Some("curl/7"), Some("Mozilla/5.0"), Some("Stripe/1")] {
        for src in [ip("127.0.0.1"), ip("8.8.8.8")] {
            for referer in [None, Some("https://slack.com")] {
                let first = detector.detect_context(ua, src, referer);
                assert_eq!(first, detector.detect_context(ua, src, referer));
                assert_eq!(first, other.detect_context(ua, src, referer));
            }
        }
    }
}
