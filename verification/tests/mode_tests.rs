use beam_tunnel::config::{
    cache_enabled, default_https_port, default_listen_port, honors_geo_preferences,
    parse_geo_preferences, prebuild_count_for, tor_mode_for,
};
use beam_tunnel::errors::{react, ErrorKind, Phase, Reaction};
use beam_tunnel::mode::{PerformanceConfig, TunnelMode};
use beam_tunnel::tor::TorMode;

#[test]
fn modes_have_their_names() {
    assert_eq!(TunnelMode::Fast.name(), "fast");
    assert_eq!(TunnelMode::Balanced.name(), "balanced");
    assert_eq!(TunnelMode::Private.name(), "private");
    assert_eq!(TunnelMode::default(), TunnelMode::Balanced);
}

#[test]
fn modes_are_named_by_many_words() {
    for word in ["fast", "f", "quick", "direct", "FAST", "Quick"] {
        assert_eq!(TunnelMode::parse(word), Ok(TunnelMode::Fast), "{}", word);
    }
    for word in ["balanced", "b", "normal", "default", "Balanced", "B"] {
        assert_eq!(TunnelMode::parse(word), Ok(TunnelMode::Balanced), "{}", word);
    }
    for word in ["private", "p", "secure", "tor", "full", "TOR", "Full"] {
        assert_eq!(TunnelMode::parse(word), Ok(TunnelMode::Private), "{}", word);
    }
    assert_eq!("private".parse::<TunnelMode>(), Ok(TunnelMode::Private));
    assert_eq!(TunnelMode::for_keyword("fast"), Some(TunnelMode::Fast));
    assert_eq!(TunnelMode::for_keyword("Fast"), None);
}

#[test]
fn unknown_mode_is_quoted_in_the_message() {
    assert_eq!(
        TunnelMode::parse("Turbo"),
        Err("Invalid tunnel mode 'Turbo'. Use: fast, balanced, or private".to_string())
    );
    assert_eq!(
        TunnelMode::parse(""),
        Err("Invalid tunnel mode ''. Use: fast, balanced, or private".to_string())
    );
    assert!(TunnelMode::parse(" fast").is_err());
    assert!("fastest".parse::<TunnelMode>().is_err());
}

#[test]
fn latency_ranges_are_ordered() {
    assert_eq!(TunnelMode::Fast.expected_latency(), (30, 50));
    assert_eq!(TunnelMode::Balanced.expected_latency(), (80, 150));
    assert_eq!(TunnelMode::Private.expected_latency(), (200, 500));
    for mode in [TunnelMode::Fast, TunnelMode::Balanced, TunnelMode::Private] {
        let (least, most) = mode.expected_latency();
        assert!(least < most);
    }
}

#[test]
fn modes_describe_themselves() {
    assert_eq!(TunnelMode::Fast.privacy_level(), "Low - IP visible to peer");
    assert_eq!(TunnelMode::Balanced.privacy_level(), "Medium - Server exposed, clients hidden");
    assert_eq!(TunnelMode::Private.privacy_level(), "High - Full anonymity");
    assert_eq!(
        TunnelMode::Fast.use_cases(),
        vec![
            "Local development",
            "Trusted team environments",
            "Low-latency requirements",
            "Real-time applications"
        ]
    );
    assert_eq!(
        TunnelMode::Balanced.use_cases(),
        vec!["Webhook testing", "API development", "Client demos", "General tunneling"]
    );
    assert_eq!(
        TunnelMode::Private.use_cases(),
        vec![
            "Sensitive data handling",
            "Journalist/activist use",
            "Maximum privacy needs",
            "Censorship circumvention"
        ]
    );
}

#[test]
fn only_the_fast_mode_does_without_the_onion_network() {
    assert!(!TunnelMode::Fast.requires_tor());
    assert!(TunnelMode::Balanced.requires_tor());
    assert!(TunnelMode::Private.requires_tor());
    assert!(!TunnelMode::Fast.uses_full_onion_routing());
    assert!(!TunnelMode::Balanced.uses_full_onion_routing());
    assert!(TunnelMode::Private.uses_full_onion_routing());
    assert!(TunnelMode::Fast.supports_direct_p2p());
    assert!(!TunnelMode::Balanced.supports_direct_p2p());
    assert!(!TunnelMode::Private.supports_direct_p2p());
}

fn settings(c: &PerformanceConfig) -> (bool, bool, usize, bool, u64, u64, bool, u32, bool, u32) {
    (
        c.persistent_circuits,
        c.geo_optimization,
        c.preferred_regions.len(),
        c.enable_caching,
        c.cache_ttl,
        c.max_cache_size,
        c.connection_pooling,
        c.max_pooled_connections,
        c.circuit_prebuilding,
        c.prebuild_circuit_count,
    )
}

#[test]
fn each_mode_has_its_settings() {
    assert_eq!(
        settings(&PerformanceConfig::fast()),
        (false, false, 0, true, 60, 50, true, 20, false, 0)
    );
    assert_eq!(
        settings(&PerformanceConfig::balanced()),
        (true, true, 0, true, 300, 100, true, 10, true, 2)
    );
    assert_eq!(
        settings(&PerformanceConfig::private()),
        (true, false, 0, false, 0, 0, true, 5, true, 5)
    );
    assert_eq!(
        settings(&PerformanceConfig::default()),
        (true, true, 0, true, 300, 100, true, 10, true, 3)
    );
    assert_eq!(
        settings(&PerformanceConfig::for_mode(TunnelMode::Fast)),
        settings(&PerformanceConfig::fast())
    );
    assert_eq!(
        settings(&PerformanceConfig::for_mode(TunnelMode::Balanced)),
        settings(&PerformanceConfig::balanced())
    );
    assert_eq!(
        settings(&PerformanceConfig::for_mode(TunnelMode::Private)),
        settings(&PerformanceConfig::private())
    );
}

#[test]
fn listen_port_is_a_thousand_above_or_a_hundred() {
    assert_eq!(default_listen_port(3000), Some(4000));
    assert_eq!(default_listen_port(0), Some(1000));
    assert_eq!(default_listen_port(64535), Some(65535));
    assert_eq!(default_listen_port(64536), Some(64636));
    assert_eq!(default_listen_port(65000), Some(65100));
    assert_eq!(default_listen_port(65435), Some(65535));
    assert_eq!(default_listen_port(65436), None);
    assert_eq!(default_listen_port(65535), None);
    assert_eq!(default_https_port(4000), Some(4001));
    assert_eq!(default_https_port(65534), Some(65535));
    assert_eq!(default_https_port(65535), None);
}

#[test]
fn each_tunnel_mode_has_its_onion_mode() {
    assert_eq!(tor_mode_for(TunnelMode::Fast), None);
    assert_eq!(tor_mode_for(TunnelMode::Balanced), Some(TorMode::SingleHop));
    assert_eq!(tor_mode_for(TunnelMode::Private), Some(TorMode::Full));
    assert_eq!(prebuild_count_for(TunnelMode::Private, 3), 5);
    assert_eq!(prebuild_count_for(TunnelMode::Private, 5), 5);
    assert_eq!(prebuild_count_for(TunnelMode::Private, 9), 9);
    assert_eq!(prebuild_count_for(TunnelMode::Balanced, 3), 3);
    assert_eq!(prebuild_count_for(TunnelMode::Balanced, 0), 0);
    assert_eq!(prebuild_count_for(TunnelMode::Fast, 1), 1);
    assert!(honors_geo_preferences(TunnelMode::Balanced));
    assert!(!honors_geo_preferences(TunnelMode::Private));
    assert!(!honors_geo_preferences(TunnelMode::Fast));
}

#[test]
fn cache_needs_the_flag_and_the_mode() {
    assert!(cache_enabled(true, &PerformanceConfig::balanced()));
    assert!(cache_enabled(true, &PerformanceConfig::fast()));
    assert!(!cache_enabled(true, &PerformanceConfig::private()));
    assert!(!cache_enabled(false, &PerformanceConfig::balanced()));
}

#[test]
fn countries_are_trimmed_and_upper_case() {
    assert_eq!(parse_geo_preferences("de, fr ,US"), vec!["DE", "FR", "US"]);
    assert_eq!(parse_geo_preferences("nl"), vec!["NL"]);
    assert_eq!(parse_geo_preferences(""), vec![""]);
    assert_eq!(parse_geo_preferences("de,,fr,"), vec!["DE", "", "FR", ""]);
}

#[test]
fn each_kind_of_failure_has_its_reaction() {
    let phases = [Phase::Startup, Phase::Prebuild, Phase::Request, Phase::Teardown];
    for phase in phases {
        assert_eq!(react(ErrorKind::Config, phase), Reaction::Abort);
        assert_eq!(react(ErrorKind::Upstream, phase), Reaction::BadGateway);
        assert_eq!(react(ErrorKind::Cache, phase), Reaction::Continue);
        assert_eq!(react(ErrorKind::Shutdown, phase), Reaction::Continue);
    }
    assert_eq!(react(ErrorKind::Control, Phase::Startup), Reaction::Abort);
    assert_eq!(react(ErrorKind::Control, Phase::Prebuild), Reaction::Continue);
    assert_eq!(react(ErrorKind::Control, Phase::Request), Reaction::Continue);
    assert_eq!(react(ErrorKind::Control, Phase::Teardown), Reaction::Continue);
}
