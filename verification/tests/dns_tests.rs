use beam_tunnel::dns::{updated_hosts, DualDNSResolver, ResolutionContext};

#[test]
fn test_local_resolution() {
    let mut resolver = DualDNSResolver::new();
    resolver.configure_dual_resolution("test.local", "abc123xyz.onion");

    assert_eq!(resolver.resolve_local("test.local"), Some([127, 0, 0, 1]));
    assert_eq!(resolver.resolve_local("unknown.local"), None);
}

#[test]
fn test_tor_resolution() {
    let mut resolver = DualDNSResolver::new();
    resolver.configure_dual_resolution("test.local", "abc123xyz.onion");

    assert_eq!(resolver.resolve_tor("test.local").cloned(), Some("abc123xyz.onion".to_string()));
    assert_eq!(resolver.resolve_tor("unknown.local").cloned(), None);
}

#[test]
fn resolution_by_context() {
    let mut resolver = DualDNSResolver::new();
    resolver.configure_dual_resolution("a.local", "aaa.onion");
    resolver.configure_dual_resolution("b.local", "bbb.onion");
    assert_eq!(
        resolver.resolve_with_context("a.local", ResolutionContext::Local),
        Some("127.0.0.1".to_string())
    );
    assert_eq!(
        resolver.resolve_with_context("b.local", ResolutionContext::Tor),
        Some("bbb.onion".to_string())
    );
    assert_eq!(resolver.resolve_with_context("c.local", ResolutionContext::Local), None);
    assert_eq!(resolver.resolve_with_context("c.local", ResolutionContext::Tor), None);
}

#[test]
fn binding_a_name_again_replaces_it() {
    let mut resolver = DualDNSResolver::new();
    resolver.configure_dual_resolution("a.local", "old.onion");
    resolver.configure_dual_resolution("b.local", "bbb.onion");
    resolver.configure_dual_resolution("a.local", "new.onion");
    assert_eq!(resolver.resolve_tor("a.local").cloned(), Some("new.onion".to_string()));
    assert_eq!(resolver.resolve_tor("b.local").cloned(), Some("bbb.onion".to_string()));
    assert_eq!(resolver.resolve_tor("A.local").cloned(), None);
}

#[test]
fn hosts_file_gets_the_binding_under_the_heading() {
    assert_eq!(
        updated_hosts("127.0.0.1 localhost\n10.0.0.1 test.local\n", "test.local", "127.0.0.1"),
        Some("127.0.0.1 localhost\n# Beam local domains\n127.0.0.1 test.local\n".to_string())
    );
    assert_eq!(
        updated_hosts("", "a.local", "127.0.0.1"),
        Some("\n# Beam local domains\n127.0.0.1 a.local\n".to_string())
    );
}

#[test]
fn hosts_file_with_the_binding_stays_as_it_is() {
    assert_eq!(updated_hosts("x\n127.0.0.1 a.local\n", "a.local", "127.0.0.1"), None);
    // Also where the binding is only a part of a longer line.
    assert_eq!(updated_hosts("127.0.0.1 a.local.example", "a.local", "127.0.0.1"), None);
}

#[test]
fn hosts_file_keeps_its_heading_and_its_other_lines() {
    assert_eq!(
        updated_hosts(
            "127.0.0.1 localhost\r\n# Beam local domains\r\n127.0.0.1 b.local\r\n\r\n",
            "a.local",
            "127.0.0.1"
        ),
        Some(
            "127.0.0.1 localhost\n# Beam local domains\n127.0.0.1 b.local\n127.0.0.1 a.local\n"
                .to_string()
        )
    );
    // A carriage return without a line feed after it stays.
    assert_eq!(
        updated_hosts("one\rtwo\r", "a.local", "::1"),
        Some("one\rtwo\r\n# Beam local domains\n::1 a.local\n".to_string())
    );
}

#[test]
fn hosts_file_loses_every_line_that_mentions_the_domain() {
    assert_eq!(
        updated_hosts("1.1.1.1 a.local\nkeep\n2.2.2.2 www.a.local x\nalso\n", "a.local", "127.0.0.1"),
        Some("keep\nalso\n# Beam local domains\n127.0.0.1 a.local\n".to_string())
    );
    assert_eq!(
        updated_hosts("1.1.1.1 a.local", "a.local", "127.0.0.1"),
        Some("\n# Beam local domains\n127.0.0.1 a.local\n".to_string())
    );
}
