use beam_tunnel::time::Span;
use beam_tunnel::tor::{
    add_onion_command, authenticate_command, authenticate_empty_command, circuit_id_in,
    configure_start, configure_step, del_onion_command, extend_circuit_command,
    hostname_from_file, reply_is_failure, reply_is_final_ok, reply_is_success, reply_status,
    saveconf_command, service_id_in, setconf_non_anonymous_command, setconf_single_hop_command,
    setup_start, torrc_content, ConfigureState, ControlError, GeoPreferences, PrebuildState,
    PublishState, SetupAction, SetupError, SetupEvent, SetupStage, TorManager, TorMode,
};

fn published(state: &PublishState) -> Option<&str> {
    match state {
        PublishState::Published(a) => Some(a.as_str()),
        _ => None,
    }
}

fn failed(state: &PublishState) -> Option<ControlError> {
    match state {
        PublishState::Failed(e) => Some(*e),
        _ => None,
    }
}

#[test]
fn commands_are_written_as_the_daemon_reads_them() {
    assert_eq!(authenticate_command(), "AUTHENTICATE\r\n");
    assert_eq!(authenticate_empty_command(), "AUTHENTICATE \"\"\r\n");
    assert_eq!(
        add_onion_command(TorMode::SingleHop, 3000),
        "ADD_ONION NEW:BEST Flags=NonAnonymous Port=80,127.0.0.1:3000\r\n"
    );
    assert_eq!(add_onion_command(TorMode::Full, 65535), "ADD_ONION NEW:BEST Port=80,127.0.0.1:65535\r\n");
    assert_eq!(add_onion_command(TorMode::Full, 0), "ADD_ONION NEW:BEST Port=80,127.0.0.1:0\r\n");
    assert_eq!(setconf_single_hop_command(), "SETCONF HiddenServiceSingleHopMode=1\r\n");
    assert_eq!(setconf_non_anonymous_command(), "SETCONF HiddenServiceNonAnonymousMode=1\r\n");
    assert_eq!(saveconf_command(), "SAVECONF\r\n");
    assert_eq!(extend_circuit_command(false), "EXTENDCIRCUIT 0\r\n");
    assert_eq!(extend_circuit_command(true), "EXTENDCIRCUIT 0 purpose=GENERAL\r\n");
    assert_eq!(del_onion_command("abcdefghijklmnop.onion"), "DEL_ONION abcdefghijklmnop\r\n");
    assert_eq!(del_onion_command("abcdefghijklmnop"), "DEL_ONION abcdefghijklmnop\r\n");
    assert_eq!(del_onion_command(".onion"), "DEL_ONION \r\n");
}

#[test]
fn torrc_names_directories_and_ports() {
    assert_eq!(
        torrc_content("/data/tor", "/data/tor/hs", 3000, 9051),
        "DataDirectory /data/tor\nHiddenServiceDir /data/tor/hs\nHiddenServicePort 80 127.0.0.1:3000\nControlPort 9051\nSocksPort 0\n"
    );
}

#[test]
fn replies_are_read_by_their_status() {
    assert!(reply_is_success("250 OK\r\n"));
    assert!(reply_is_success("250-ServiceID=abc\r\n"));
    assert!(reply_is_success("2500"));
    assert!(!reply_is_success("515 Bad authentication\r\n"));
    assert!(!reply_is_success(" 250 OK"));
    assert!(!reply_is_success("25"));
    assert!(reply_is_final_ok("250 OK\r\n"));
    assert!(!reply_is_final_ok("250-OK\r\n"));
    assert!(!reply_is_final_ok("250 ok"));
    assert_eq!(reply_status("250 OK"), Some(250));
    assert_eq!(reply_status("515 Bad"), Some(515));
    assert_eq!(reply_status("000"), Some(0));
    assert_eq!(reply_status("999x"), Some(999));
    assert_eq!(reply_status("25"), None);
    assert_eq!(reply_status("+25 x"), None);
    assert_eq!(reply_status("2 5"), None);
    assert_eq!(reply_status(""), None);
    assert!(reply_is_failure("400 x"));
    assert!(reply_is_failure("552 Unrecognized option"));
    assert!(!reply_is_failure("399 x"));
    assert!(!reply_is_failure("250 OK"));
    assert!(!reply_is_failure("garbage"));
}

#[test]
fn service_id_is_what_follows_its_name() {
    assert_eq!(service_id_in("250-ServiceID=abcdefghijklmnop\r\n"), Some("abcdefghijklmnop".to_string()));
    assert_eq!(service_id_in("250-ServiceID=  abc  "), Some("abc".to_string()));
    assert_eq!(service_id_in("250-ServiceID=abc ServiceID=def"), Some("abc".to_string()));
    assert_eq!(service_id_in("250-ServiceID=a2z7"), Some("a2z7".to_string()));
    // What is named must be in lowercase base32.
    assert_eq!(service_id_in("ServiceID="), None);
    assert_eq!(service_id_in("250-ServiceID=ABC"), None);
    assert_eq!(service_id_in("250-ServiceID=abc1"), None);
    assert_eq!(service_id_in("250-ServiceID=abc8"), None);
    assert_eq!(service_id_in("250-ServiceID=a b"), None);
    assert_eq!(service_id_in("250-ServiceID=abc.onion"), None);
    assert_eq!(service_id_in("250-PrivateKey=ED25519-V3:xyz"), None);
    assert_eq!(service_id_in("250-serviceid=abc"), None);
    assert_eq!(service_id_in(""), None);
}

#[test]
fn circuit_id_is_the_third_word() {
    assert_eq!(circuit_id_in("250 EXTENDED 17\r\n"), Some("17".to_string()));
    assert_eq!(circuit_id_in("250   EXTENDED\t42   more"), Some("42".to_string()));
    assert_eq!(circuit_id_in("250 EXTENDED"), None);
    assert_eq!(circuit_id_in("250 OK\r\n"), None);
    assert_eq!(circuit_id_in("552 EXTENDED 17"), None);
    assert_eq!(circuit_id_in(" 250 EXTENDED 17"), None);
    assert_eq!(circuit_id_in(""), None);
}

#[test]
fn hostname_file_must_hold_an_onion_address() {
    assert_eq!(hostname_from_file("abc.onion\n"), Some("abc.onion".to_string()));
    assert_eq!(hostname_from_file("  abc.onion  "), Some("abc.onion".to_string()));
    assert_eq!(hostname_from_file(".onion"), Some(".onion".to_string()));
    assert_eq!(hostname_from_file("abc.onion.tmp"), None);
    assert_eq!(hostname_from_file("abc.ONION"), None);
    assert_eq!(hostname_from_file(""), None);
}

#[test]
fn balanced_startup_publishes_the_named_service() {
    // Single-hop mode is configured first.
    let (state, command) = configure_start();
    assert_eq!(command, "AUTHENTICATE\r\n");
    let (state, command) = configure_step(state, "250 OK\r\n");
    assert_eq!(state, ConfigureState::SettingSingleHop);
    assert_eq!(command.as_deref(), Some("SETCONF HiddenServiceSingleHopMode=1\r\n"));
    let (state, command) = configure_step(state, "250 OK\r\n");
    assert_eq!(command.as_deref(), Some("SETCONF HiddenServiceNonAnonymousMode=1\r\n"));
    let (state, command) = configure_step(state, "250 OK\r\n");
    assert_eq!(command.as_deref(), Some("SAVECONF\r\n"));
    let (state, command) = configure_step(state, "250 OK\r\n");
    assert_eq!(state, ConfigureState::Finished);
    assert_eq!(command, None);

    // Then the service is published.
    let mut tor = TorManager::new_with_mode(9051, TorMode::SingleHop);
    tor.set_circuit_prebuilding(false, 0);
    let (state, command) = tor.publish_start();
    assert_eq!(command, "AUTHENTICATE\r\n");
    let (state, command) = tor.publish_step(state, 3000, "250 OK\r\n");
    assert_eq!(
        command.as_deref(),
        Some("ADD_ONION NEW:BEST Flags=NonAnonymous Port=80,127.0.0.1:3000\r\n")
    );
    let (state, command) = tor.publish_step(state, 3000, "250-ServiceID=abcdefghijklmnop\r\n");
    assert_eq!(command, None);
    assert_eq!(published(&state), None);
    assert_eq!(tor.get_onion_address(), None);
    let (state, command) = tor.publish_step(state, 3000, "250 OK\r\n");
    assert_eq!(command, None);
    assert_eq!(published(&state), Some("abcdefghijklmnop.onion"));
    assert_eq!(tor.get_onion_address(), Some("abcdefghijklmnop.onion"));
}

#[test]
fn private_mode_asks_for_an_anonymous_service() {
    let mut tor = TorManager::new(9051);
    assert_eq!(tor.mode(), TorMode::Full);
    let (state, _) = tor.publish_start();
    let (state, command) = tor.publish_step(state, 8080, "250 OK\r\n");
    assert_eq!(command.as_deref(), Some("ADD_ONION NEW:BEST Port=80,127.0.0.1:8080\r\n"));
    let (state, _) = tor.publish_step(state, 8080, "250-ServiceID=xyz\r\n");
    let (state, _) = tor.publish_step(state, 8080, "250-PrivateKey=ED25519-V3:k\r\n");
    let (state, _) = tor.publish_step(state, 8080, "250 OK\r\n");
    assert_eq!(published(&state), Some("xyz.onion"));
}

#[test]
fn authentication_is_tried_twice() {
    let mut tor = TorManager::new(9051);
    let (state, _) = tor.publish_start();
    let (state, command) = tor.publish_step(state, 80, "515 Authentication failed\r\n");
    assert_eq!(command.as_deref(), Some("AUTHENTICATE \"\"\r\n"));
    let (state, command) = tor.publish_step(state, 80, "250 OK\r\n");
    assert_eq!(command.as_deref(), Some("ADD_ONION NEW:BEST Port=80,127.0.0.1:80\r\n"));
    assert!(matches!(state, PublishState::Publishing(None)));

    let (state, _) = tor.publish_start();
    let (state, _) = tor.publish_step(state, 80, "515 no\r\n");
    let (state, command) = tor.publish_step(state, 80, "515 no\r\n");
    assert_eq!(command, None);
    assert_eq!(failed(&state), Some(ControlError::AuthenticationFailed));
    let (state, command) = tor.publish_step(state, 80, "250 OK\r\n");
    assert_eq!(command, None);
    assert_eq!(failed(&state), Some(ControlError::AuthenticationFailed));
    assert_eq!(tor.get_onion_address(), None);
}

#[test]
fn publishing_fails_without_a_service_id_or_on_refusal() {
    let mut tor = TorManager::new(9051);
    let (state, _) = tor.publish_start();
    let (state, _) = tor.publish_step(state, 80, "250 OK\r\n");
    let (state, _) = tor.publish_step(state, 80, "250 OK\r\n");
    assert_eq!(failed(&state), Some(ControlError::NoServiceId));

    let (state, _) = tor.publish_start();
    let (state, _) = tor.publish_step(state, 80, "250 OK\r\n");
    let (state, _) = tor.publish_step(state, 80, "512 Invalid VIRTPORT/TARGET\r\n");
    assert_eq!(failed(&state), Some(ControlError::Refused));

    let (state, _) = tor.publish_start();
    let (state, _) = tor.publish_step(state, 80, "250 OK\r\n");
    let (state, _) = tor.publish_step(state, 80, "250-ServiceID=abc\r\n");
    let state = TorManager::publish_closed(state);
    assert_eq!(failed(&state), Some(ControlError::ConnectionClosed));
    assert_eq!(tor.get_onion_address(), None);

    let done = TorManager::publish_closed(PublishState::Published("a.onion".to_string()));
    assert_eq!(published(&done), Some("a.onion"));
}

#[test]
fn a_malformed_service_id_does_not_count() {
    let mut tor = TorManager::new(9051);
    let (state, _) = tor.publish_start();
    let (state, _) = tor.publish_step(state, 80, "250 OK\r\n");
    let (state, _) = tor.publish_step(state, 80, "250-ServiceID=NOT-AN-ID\r\n");
    assert!(matches!(state, PublishState::Publishing(None)));
    let (state, _) = tor.publish_step(state, 80, "250 OK\r\n");
    assert_eq!(failed(&state), Some(ControlError::NoServiceId));
}

#[test]
fn the_first_service_id_is_kept() {
    let mut tor = TorManager::new(9051);
    let (state, _) = tor.publish_start();
    let (state, _) = tor.publish_step(state, 80, "250 OK\r\n");
    let (state, _) = tor.publish_step(state, 80, "250-ServiceID=first\r\n");
    let (state, _) = tor.publish_step(state, 80, "250-ServiceID=second\r\n");
    let (state, _) = tor.publish_step(state, 80, "250 OK ServiceID=third\r\n");
    assert_eq!(published(&state), Some("first.onion"));
}

#[test]
fn configuring_goes_on_whatever_the_daemon_says() {
    let (state, _) = configure_start();
    let (state, _) = configure_step(state, "250 OK\r\n");
    let (state, command) = configure_step(state, "552 Unrecognized option\r\n");
    assert_eq!(state, ConfigureState::SettingNonAnonymous);
    assert!(command.is_some());
    let (state, command) = configure_step(state, "552 Unrecognized option\r\n");
    assert_eq!(state, ConfigureState::Saving);
    assert!(command.is_some());
    let (state, _) = configure_step(state, "551 Unable to write\r\n");
    assert_eq!(state, ConfigureState::Finished);

    let (state, _) = configure_start();
    let (state, command) = configure_step(state, "515 no\r\n");
    assert_eq!(state, ConfigureState::AuthenticatingAgain);
    assert_eq!(command.as_deref(), Some("AUTHENTICATE \"\"\r\n"));
    let (again, command) = configure_step(state, "250 OK\r\n");
    assert_eq!(again, ConfigureState::SettingSingleHop);
    assert_eq!(command.as_deref(), Some("SETCONF HiddenServiceSingleHopMode=1\r\n"));
    let (state, command) = configure_step(state, "515 no\r\n");
    assert_eq!(state, ConfigureState::Failed(ControlError::AuthenticationFailed));
    assert_eq!(command, None);
    let (state, command) = configure_step(state, "250 OK\r\n");
    assert_eq!(state, ConfigureState::Failed(ControlError::AuthenticationFailed));
    assert_eq!(command, None);
}

#[test]
fn circuits_are_asked_for_exactly_as_often_as_set() {
    for count in [0u32, 1, 2, 3, 7] {
        let mut tor = TorManager::new(9051);
        tor.set_circuit_prebuilding(true, count);
        let (mut state, command) = tor.prebuild_start();
        assert_eq!(command.as_deref(), Some("AUTHENTICATE\r\n"));
        let mut sent = 0;
        let mut reply = "250 OK\r\n".to_string();
        let mut now = 0u64;
        loop {
            let (next, command) = tor.prebuild_step(state, &reply, Span::from_secs(now));
            state = next;
            match command {
                Some(c) => {
                    assert_eq!(c, "EXTENDCIRCUIT 0\r\n");
                    sent += 1;
                    now += 1;
                    reply = format!("250 EXTENDED {}\r\n", 100 + sent);
                }
                None => break,
            }
        }
        assert_eq!(state, PrebuildState::Finished);
        assert_eq!(sent, count);
        assert_eq!(tor.circuit_count(), count as usize);
        if count > 0 {
            assert_eq!(tor.get_prebuilt_circuit(), Some("101".to_string()));
        } else {
            assert_eq!(tor.get_prebuilt_circuit(), None);
        }
    }
}

#[test]
fn circuits_that_fail_are_passed_over() {
    let mut tor = TorManager::new(9051);
    tor.set_circuit_prebuilding(true, 3);
    tor.set_geo_preferences(GeoPreferences {
        preferred_countries: vec!["DE".to_string()],
        excluded_countries: vec![],
        prefer_fast_relays: true,
    });
    let (state, _) = tor.prebuild_start();
    let (state, command) = tor.prebuild_step(state, "250 OK\r\n", Span::zero());
    assert_eq!(command.as_deref(), Some("EXTENDCIRCUIT 0 purpose=GENERAL\r\n"));
    let (state, command) = tor.prebuild_step(state, "552 No router\r\n", Span::zero());
    assert_eq!(state, PrebuildState::Building(2));
    assert!(command.is_some());
    let (state, _) = tor.prebuild_step(state, "250 EXTENDED 5\r\n", Span::zero());
    let (state, command) = tor.prebuild_step(state, "250 EXTENDED 5\r\n", Span::from_secs(1));
    assert_eq!(state, PrebuildState::Finished);
    assert_eq!(command, None);
    assert_eq!(tor.circuit_count(), 1);
}

#[test]
fn prebuilding_can_be_switched_off_or_refused() {
    let mut tor = TorManager::new(9051);
    tor.set_circuit_prebuilding(false, 3);
    let (state, command) = tor.prebuild_start();
    assert_eq!(state, PrebuildState::Finished);
    assert_eq!(command, None);

    tor.set_circuit_prebuilding(true, 3);
    let (state, _) = tor.prebuild_start();
    let (state, command) = tor.prebuild_step(state, "515 no\r\n", Span::zero());
    assert_eq!(state, PrebuildState::AuthenticatingAgain);
    assert_eq!(command.as_deref(), Some("AUTHENTICATE \"\"\r\n"));
    let (again, command) = tor.prebuild_step(state, "250 OK\r\n", Span::zero());
    assert_eq!(again, PrebuildState::Building(3));
    assert_eq!(command.as_deref(), Some("EXTENDCIRCUIT 0\r\n"));
    let (state, command) = tor.prebuild_step(state, "515 no\r\n", Span::zero());
    assert_eq!(state, PrebuildState::Failed(ControlError::AuthenticationFailed));
    assert_eq!(command, None);
    assert_eq!(tor.circuit_count(), 0);
}

#[test]
fn manager_settings() {
    let mut tor = TorManager::new_with_mode(9051, TorMode::SingleHop);
    assert_eq!(tor.expected_latency(), (80, 150));
    assert_eq!(tor.probe_ports(), (9051, 9151));
    assert_eq!(tor.control_port(), 9051);
    tor.set_mode(TorMode::Full);
    assert_eq!(tor.expected_latency(), (200, 500));
    assert_eq!(tor.shutdown_commands(), Vec::<String>::new());
    tor.record_published("abc.onion".to_string());
    assert_eq!(
        tor.shutdown_commands(),
        vec!["AUTHENTICATE\r\n".to_string(), "DEL_ONION abc\r\n".to_string()]
    );
    tor.record_circuit("9".to_string(), Span::from_secs(1));
    tor.record_circuit("9".to_string(), Span::from_secs(2));
    tor.record_circuit("10".to_string(), Span::from_secs(3));
    assert_eq!(tor.circuit_count(), 2);
    assert_eq!(tor.get_prebuilt_circuit(), Some("9".to_string()));
    let prefs = GeoPreferences::default();
    assert!(prefs.preferred_countries.is_empty());
    assert!(prefs.excluded_countries.is_empty());
    assert!(prefs.prefer_fast_relays);
}

#[test]
fn setup_asks_the_running_daemon_first() {
    let mut tor = TorManager::new(9051);
    let (stage, action) = setup_start();
    assert!(matches!(action, SetupAction::CheckInstall));
    let (stage, action) = tor.setup_step(stage, SetupEvent::Installed(true));
    assert!(matches!(action, SetupAction::TryControl));
    let (_, action) = tor.setup_step(stage, SetupEvent::Published("abc.onion".to_string()));
    assert!(matches!(action, SetupAction::Done(a) if a == "abc.onion"));
    assert_eq!(tor.get_onion_address(), Some("abc.onion"));
}

#[test]
fn setup_needs_the_program() {
    let mut tor = TorManager::new(9051);
    let (stage, _) = setup_start();
    let (_, action) = tor.setup_step(stage, SetupEvent::Installed(false));
    assert!(matches!(action, SetupAction::Fail(SetupError::NotInstalled)));
}

#[test]
fn setup_falls_back_to_its_own_daemon_and_then_to_the_file() {
    let mut tor = TorManager::new(9051);
    let (stage, _) = setup_start();
    let (stage, _) = tor.setup_step(stage, SetupEvent::Installed(true));
    let (stage, action) = tor.setup_step(stage, SetupEvent::ControlFailed);
    assert!(matches!(action, SetupAction::StartDaemon));
    let (stage, action) = tor.setup_step(stage, SetupEvent::DaemonStarted(true));
    assert!(matches!(action, SetupAction::WaitThenTryControl(3)));
    let (stage, action) = tor.setup_step(stage, SetupEvent::ControlFailed);
    assert!(matches!(action, SetupAction::ReadHostname));
    assert_eq!(stage, SetupStage::AwaitingHostname(30));
    let (stage, action) = tor.setup_step(stage, SetupEvent::Hostname(None));
    assert!(matches!(action, SetupAction::WaitThenReadHostname(1)));
    let (stage, action) = tor.setup_step(stage, SetupEvent::Hostname(Some("partial".to_string())));
    assert!(matches!(action, SetupAction::WaitThenReadHostname(1)));
    assert_eq!(stage, SetupStage::AwaitingHostname(28));
    let (_, action) = tor.setup_step(stage, SetupEvent::Hostname(Some("xyz.onion\n".to_string())));
    assert!(matches!(action, SetupAction::Done(a) if a == "xyz.onion"));
    assert_eq!(tor.get_onion_address(), Some("xyz.onion"));
}

#[test]
fn setup_gives_up_after_thirty_more_looks() {
    let mut tor = TorManager::new(9051);
    let mut stage = SetupStage::SecondTry;
    let (next, _) = tor.setup_step(stage, SetupEvent::ControlFailed);
    stage = next;
    let mut waits = 0;
    loop {
        let (next, action) = tor.setup_step(stage, SetupEvent::Hostname(None));
        stage = next;
        match action {
            SetupAction::WaitThenReadHostname(1) => waits += 1,
            SetupAction::Fail(SetupError::Timeout) => break,
            _ => panic!("neither a wait nor a timeout"),
        }
    }
    assert_eq!(waits, 30);
    assert_eq!(tor.get_onion_address(), None);
}

#[test]
fn setup_rejects_what_is_out_of_turn() {
    let mut tor = TorManager::new(9051);
    let (_, action) = tor.setup_step(SetupStage::CheckingInstall, SetupEvent::ControlFailed);
    assert!(matches!(action, SetupAction::Fail(SetupError::OutOfTurn)));
    let (_, action) =
        tor.setup_step(SetupStage::StartingDaemon, SetupEvent::Published("a.onion".to_string()));
    assert!(matches!(action, SetupAction::Fail(SetupError::OutOfTurn)));
    assert_eq!(tor.get_onion_address(), None);
    let (_, action) = tor.setup_step(SetupStage::StartingDaemon, SetupEvent::DaemonStarted(false));
    assert!(matches!(action, SetupAction::Fail(SetupError::DaemonNotStarted)));
}
