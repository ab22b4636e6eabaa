//! The client of the onion network's control port: what to say, how to
//! read what is said back, and what to do next at each step of
//! authenticating, configuring, publishing a hidden service and building
//! circuits ahead.
//!
//! Nothing here touches a socket. A caller sends each command that a step
//! hands it and feeds each line that comes back into the next step.

use vstd::prelude::*;
use crate::text::{
    all_digits, chars_of, decimal_digits, digits_value, ends_with, find_from, find_word,
    has_prefix, has_suffix, is_digit, maybe_string, maybe_text, next_occurrence, parse_decimal,
    push_decimal, push_range, push_text, starts_with, string_of, trim_range, trimmed,
    word_bounds,
};
use crate::time::Span;

verus! {

/// How the hidden service is reached.
#[derive(Debug, Clone, Copy, PartialEq, Eq, Structural)]
pub enum TorMode {
    /// Over three hops on the server's side: the server stays hidden.
    Full,
    /// Over one hop on the server's side: faster, the server is exposed.
    SingleHop,
}

/// A circuit that was built ahead.
#[derive(Debug)]
pub struct PersistentCircuit {
    pub circuit_id: String,
    /// When the circuit was built.
    pub created_at: Span,
    pub is_active: bool,
    /// The fingerprints of the relays on the path.
    pub path: Vec<String>,
}

/// What a [`PersistentCircuit`] holds.
pub struct CircuitModel {
    pub circuit_id: Seq<char>,
    pub created_at: Span,
    pub is_active: bool,
    pub path: Seq<Seq<char>>,
}

/// An active circuit that was built at `now`, its path not yet known.
pub open spec fn new_circuit(circuit_id: Seq<char>, now: Span) -> CircuitModel {
    CircuitModel { circuit_id, created_at: now, is_active: true, path: Seq::empty() }
}

impl View for PersistentCircuit {
    type V = CircuitModel;

    open spec fn view(&self) -> CircuitModel {
        CircuitModel {
            circuit_id: self.circuit_id@,
            created_at: self.created_at,
            is_active: self.is_active,
            path: self.path.deep_view(),
        }
    }
}

/// Which relays to prefer.
#[derive(Debug, Clone)]
pub struct GeoPreferences {
    /// Countries to prefer, as two-letter codes.
    pub preferred_countries: Vec<String>,
    /// Countries to avoid, as two-letter codes.
    pub excluded_countries: Vec<String>,
    pub prefer_fast_relays: bool,
}

impl Default for GeoPreferences {
    fn default() -> (r: GeoPreferences)
        ensures
            r.preferred_countries@.len() == 0,
            r.excluded_countries@.len() == 0,
            r.prefer_fast_relays,
    {
        GeoPreferences {
            preferred_countries: Vec::new(),
            excluded_countries: Vec::new(),
            prefer_fast_relays: true,
        }
    }
}

/// Why a dialogue with the control port failed.
#[derive(Debug, Clone, Copy, PartialEq, Eq, Structural)]
pub enum ControlError {
    /// The daemon refused both ways to authenticate.
    AuthenticationFailed,
    /// The daemon answered with a status of 400 or more.
    Refused,
    /// The daemon said all was well but named no service.
    NoServiceId,
    /// The connection ended before the dialogue did.
    ConnectionClosed,
}

/// The reply begins with `250`.
pub open spec fn is_success_reply(line: Seq<char>) -> bool {
    has_prefix(line, "250"@)
}

/// The reply begins with `250 OK`: the last line of a success.
pub open spec fn is_final_ok(line: Seq<char>) -> bool {
    has_prefix(line, "250 OK"@)
}

/// The status that a reply begins with: the number that its first three
/// characters write, where they are digits.
pub open spec fn status_of(line: Seq<char>) -> Option<nat> {
    if line.len() >= 3 && all_digits(line.take(3)) {
        Some(digits_value(line.take(3)))
    } else {
        None
    }
}

/// The reply has a status of 400 or more.
pub open spec fn is_failure_reply(line: Seq<char>) -> bool {
    match status_of(line) {
        Some(n) => n >= 400,
        None => false,
    }
}

/// `c` is a character of the lowercase base32 alphabet: `a` to `z` or `2`
/// to `7`.
pub open spec fn is_base32(c: char) -> bool {
    ('a' <= c <= 'z') || ('2' <= c <= '7')
}

/// `id` is the id of a hidden service: one or more base32 characters.
pub open spec fn is_service_id(id: Seq<char>) -> bool {
    id.len() > 0 && forall|i: int| 0 <= i < id.len() ==> is_base32(#[trigger] id[i])
}

/// What stands in a reply after the first `ServiceID=`, up to the next one
/// or the end, without white space around it.
pub open spec fn named_after_key(line: Seq<char>) -> Option<Seq<char>> {
    let key = "ServiceID="@;
    let p = next_occurrence(line, key, 0);
    if p > line.len() {
        None
    } else {
        let start = p + key.len();
        let q = next_occurrence(line, key, start);
        let end = if q > line.len() {
            line.len() as int
        } else {
            q
        };
        Some(trimmed(line.subrange(start, end)))
    }
}

/// The service that a reply names: what it names after `ServiceID=`, where
/// that is the id of a hidden service.
pub open spec fn service_id_of(line: Seq<char>) -> Option<Seq<char>> {
    match named_after_key(line) {
        Some(id) => if is_service_id(id) {
            Some(id)
        } else {
            None
        },
        None => None,
    }
}

/// The circuit that a reply names: the third word of a reply that begins
/// with `250`.
pub open spec fn circuit_id_of(line: Seq<char>) -> Option<Seq<char>> {
    if is_success_reply(line) {
        match word_bounds(line, 2, 0) {
            Some((a, b)) => Some(line.subrange(a, b)),
            None => None,
        }
    } else {
        None
    }
}

/// The hidden service's address in the contents of its hostname file: the
/// contents without white space around them, where they end with `.onion`.
pub open spec fn hostname_in(contents: Seq<char>) -> Option<Seq<char>> {
    if has_suffix(trimmed(contents), ".onion"@) {
        Some(trimmed(contents))
    } else {
        None
    }
}

/// The command that asks for the first way to authenticate.
pub open spec fn authenticate_text() -> Seq<char> {
    "AUTHENTICATE\r\n"@
}

/// The command that authenticates with an empty password.
pub open spec fn authenticate_empty_text() -> Seq<char> {
    "AUTHENTICATE \"\"\r\n"@
}

/// The command that publishes a hidden service on port 80 for the local
/// port `target_port`; in single-hop mode it asks for a service that is not
/// anonymous.
pub open spec fn add_onion_text(mode: TorMode, target_port: u16) -> Seq<char> {
    match mode {
        TorMode::SingleHop => "ADD_ONION NEW:BEST Flags=NonAnonymous Port=80,127.0.0.1:"@
            + decimal_digits(target_port as nat) + "\r\n"@,
        TorMode::Full => "ADD_ONION NEW:BEST Port=80,127.0.0.1:"@ + decimal_digits(
            target_port as nat,
        ) + "\r\n"@,
    }
}

/// The command that builds a circuit; it names a purpose where countries
/// are preferred.
pub open spec fn extend_circuit_text(with_preferences: bool) -> Seq<char> {
    if with_preferences {
        "EXTENDCIRCUIT 0 purpose=GENERAL\r\n"@
    } else {
        "EXTENDCIRCUIT 0\r\n"@
    }
}

/// The command that takes the hidden service with the given address down.
pub open spec fn del_onion_text(onion_address: Seq<char>) -> Seq<char> {
    let id = if has_suffix(onion_address, ".onion"@) {
        onion_address.take(onion_address.len() - ".onion"@.len())
    } else {
        onion_address
    };
    "DEL_ONION "@ + id + "\r\n"@
}

/// The configuration file for a daemon of our own.
pub open spec fn torrc_text(
    data_dir: Seq<char>,
    service_dir: Seq<char>,
    target_port: u16,
    control_port: u16,
) -> Seq<char> {
    "DataDirectory "@ + data_dir + "\nHiddenServiceDir "@ + service_dir
        + "\nHiddenServicePort 80 127.0.0.1:"@ + decimal_digits(target_port as nat)
        + "\nControlPort "@ + decimal_digits(control_port as nat) + "\nSocksPort 0\n"@
}

fn begins_with(line: &[char], prefix: &str) -> (r: bool)
    ensures
        r == has_prefix(line@, prefix@),
{
    let p = chars_of(prefix);
    starts_with(line, p.as_slice())
}

/// Tells whether a reply begins with `250`.
pub fn reply_is_success(line: &str) -> (r: bool)
    ensures
        r == is_success_reply(line@),
{
    let l = chars_of(line);
    begins_with(l.as_slice(), "250")
}

/// Tells whether a reply begins with `250 OK`.
pub fn reply_is_final_ok(line: &str) -> (r: bool)
    ensures
        r == is_final_ok(line@),
{
    let l = chars_of(line);
    begins_with(l.as_slice(), "250 OK")
}

/// The status that a reply begins with.
pub fn reply_status(line: &str) -> (r: Option<u16>)
    ensures
        match r {
            Some(n) => status_of(line@) == Some(n as nat),
            None => status_of(line@) is None,
        },
{
    let l = chars_of(line);
    let l = l.as_slice();
    if l.len() < 3 {
        return None;
    }
    let ghost head = l@.take(3);
    if l[0] == '+' {
        assert(!is_digit(head[0]));
        return None;
    }
    match parse_decimal(l, 0, 3, 999) {
        Some(n) => Some(n as u16),
        None => {
            assert(!all_digits(head)) by {
                if all_digits(head) {
                    lemma_three_digits(head);
                }
            }
            None
        },
    }
}

/// Three digits write a number below a thousand.
proof fn lemma_three_digits(s: Seq<char>)
    requires
        s.len() == 3,
        all_digits(s),
    ensures
        digits_value(s) <= 999,
{
    let two = s.drop_last();
    let one = two.drop_last();
    assert(is_digit(s[0]) && is_digit(s[1]) && is_digit(s[2]));
    assert(digits_value(one.drop_last()) == 0);
    assert(digits_value(one) == s[0] as int - 48);
    assert(digits_value(two) == digits_value(one) * 10 + (s[1] as int - 48));
    assert(digits_value(s) == digits_value(two) * 10 + (s[2] as int - 48));
}

/// Tells whether a reply has a status of 400 or more.
pub fn reply_is_failure(line: &str) -> (r: bool)
    ensures
        r == is_failure_reply(line@),
{
    match reply_status(line) {
        Some(n) => n >= 400,
        None => false,
    }
}

fn is_id(text: &[char]) -> (r: bool)
    ensures
        r == is_service_id(text@),
{
    if text.len() == 0 {
        return false;
    }
    let mut i: usize = 0;
    while i < text.len()
        invariant
            i <= text.len(),
            forall|j: int| 0 <= j < i ==> is_base32(#[trigger] text@[j]),
        decreases text.len() - i,
    {
        let c = text[i];
        if !(('a' <= c && c <= 'z') || ('2' <= c && c <= '7')) {
            return false;
        }
        i += 1;
    }
    true
}

/// The service that a reply names, if it names one.
pub fn service_id_in(line: &str) -> (r: Option<String>)
    ensures
        maybe_string(r) == service_id_of(line@),
{
    let l = chars_of(line);
    let l = l.as_slice();
    let key = chars_of("ServiceID=");
    match find_from(l, key.as_slice(), 0) {
        None => None,
        Some(p) => {
            let start = p + key.len();
            let end = match find_from(l, key.as_slice(), start) {
                Some(q) => q,
                None => l.len(),
            };
            let (a, b) = trim_range(l, start, end);
            let mut out: Vec<char> = Vec::new();
            push_range(&mut out, l, a, b);
            if is_id(out.as_slice()) {
                Some(string_of(out.as_slice()))
            } else {
                None
            }
        },
    }
}

/// The circuit that a reply names, if it names one.
pub fn circuit_id_in(line: &str) -> (r: Option<String>)
    ensures
        maybe_string(r) == circuit_id_of(line@),
{
    let l = chars_of(line);
    let l = l.as_slice();
    if !begins_with(l, "250") {
        return None;
    }
    match find_word(l, 2) {
        Some((a, b)) => {
            let mut out: Vec<char> = Vec::new();
            push_range(&mut out, l, a, b);
            Some(string_of(out.as_slice()))
        },
        None => None,
    }
}

/// The hidden service's address in the contents of its hostname file.
pub fn hostname_from_file(contents: &str) -> (r: Option<String>)
    ensures
        maybe_string(r) == hostname_in(contents@),
{
    let c = chars_of(contents);
    let c = c.as_slice();
    let (a, b) = trim_range(c, 0, c.len());
    assert(c@.subrange(0, c@.len() as int) =~= c@);
    let mut out: Vec<char> = Vec::new();
    push_range(&mut out, c, a, b);
    let suffix = chars_of(".onion");
    if ends_with(out.as_slice(), suffix.as_slice()) {
        Some(string_of(out.as_slice()))
    } else {
        None
    }
}

/// The command that asks for the first way to authenticate.
pub fn authenticate_command() -> (r: String)
    ensures
        r@ == authenticate_text(),
{
    "AUTHENTICATE\r\n".to_owned()
}

/// The command that authenticates with an empty password.
pub fn authenticate_empty_command() -> (r: String)
    ensures
        r@ == authenticate_empty_text(),
{
    "AUTHENTICATE \"\"\r\n".to_owned()
}

/// The command that publishes a hidden service for `target_port`.
pub fn add_onion_command(mode: TorMode, target_port: u16) -> (r: String)
    ensures
        r@ == add_onion_text(mode, target_port),
{
    let mut out: Vec<char> = Vec::new();
    match mode {
        TorMode::SingleHop => {
            push_text(&mut out, "ADD_ONION NEW:BEST Flags=NonAnonymous Port=80,127.0.0.1:");
        },
        TorMode::Full => {
            push_text(&mut out, "ADD_ONION NEW:BEST Port=80,127.0.0.1:");
        },
    }
    push_decimal(&mut out, target_port as u64);
    push_text(&mut out, "\r\n");
    string_of(out.as_slice())
}

/// The command that sets single-hop mode.
pub fn setconf_single_hop_command() -> (r: String)
    ensures
        r@ == "SETCONF HiddenServiceSingleHopMode=1\r\n"@,
{
    "SETCONF HiddenServiceSingleHopMode=1\r\n".to_owned()
}

/// The command that sets the mode that goes with single-hop mode.
pub fn setconf_non_anonymous_command() -> (r: String)
    ensures
        r@ == "SETCONF HiddenServiceNonAnonymousMode=1\r\n"@,
{
    "SETCONF HiddenServiceNonAnonymousMode=1\r\n".to_owned()
}

/// The command that saves the configuration.
pub fn saveconf_command() -> (r: String)
    ensures
        r@ == "SAVECONF\r\n"@,
{
    "SAVECONF\r\n".to_owned()
}

/// The command that builds a circuit.
pub fn extend_circuit_command(with_preferences: bool) -> (r: String)
    ensures
        r@ == extend_circuit_text(with_preferences),
{
    if with_preferences {
        "EXTENDCIRCUIT 0 purpose=GENERAL\r\n".to_owned()
    } else {
        "EXTENDCIRCUIT 0\r\n".to_owned()
    }
}

/// The command that takes the hidden service with the given address down.
pub fn del_onion_command(onion_address: &str) -> (r: String)
    ensures
        r@ == del_onion_text(onion_address@),
{
    let a = chars_of(onion_address);
    let a = a.as_slice();
    let suffix = chars_of(".onion");
    let end = if ends_with(a, suffix.as_slice()) {
        a.len() - suffix.len()
    } else {
        a.len()
    };
    let mut out: Vec<char> = Vec::new();
    push_text(&mut out, "DEL_ONION ");
    push_range(&mut out, a, 0, end);
    push_text(&mut out, "\r\n");
    string_of(out.as_slice())
}

/// The configuration file for a daemon of our own, with its data directory,
/// the directory of its hidden service, the local port that the service
/// stands for, and the control port.
pub fn torrc_content(data_dir: &str, service_dir: &str, target_port: u16, control_port: u16) -> (r:
    String)
    ensures
        r@ == torrc_text(data_dir@, service_dir@, target_port, control_port),
{
    let mut out: Vec<char> = Vec::new();
    push_text(&mut out, "DataDirectory ");
    push_text(&mut out, data_dir);
    push_text(&mut out, "\nHiddenServiceDir ");
    push_text(&mut out, service_dir);
    push_text(&mut out, "\nHiddenServicePort 80 127.0.0.1:");
    push_decimal(&mut out, target_port as u64);
    push_text(&mut out, "\nControlPort ");
    push_decimal(&mut out, control_port as u64);
    push_text(&mut out, "\nSocksPort 0\n");
    string_of(out.as_slice())
}

/// Where the publishing of a hidden service stands.
pub enum PublishState {
    /// The first way to authenticate was asked for.
    Authenticating,
    /// The empty password was sent.
    AuthenticatingAgain,
    /// The service was asked for; the id that was named so far, if any.
    Publishing(Option<String>),
    /// The service stands under this address.
    Published(String),
    /// The dialogue failed.
    Failed(ControlError),
}

/// What a [`PublishState`] holds.
pub enum PublishModel {
    Authenticating,
    AuthenticatingAgain,
    Publishing(Option<Seq<char>>),
    Published(Seq<char>),
    Failed(ControlError),
}

impl View for PublishState {
    type V = PublishModel;

    open spec fn view(&self) -> PublishModel {
        match *self {
            PublishState::Authenticating => PublishModel::Authenticating,
            PublishState::AuthenticatingAgain => PublishModel::AuthenticatingAgain,
            PublishState::Publishing(found) => PublishModel::Publishing(maybe_string(found)),
            PublishState::Published(a) => PublishModel::Published(a@),
            PublishState::Failed(e) => PublishModel::Failed(e),
        }
    }
}

/// The id that is known after a reply: the one known before, or else the
/// one that the reply names.
pub open spec fn id_after(found: Option<Seq<char>>, line: Seq<char>) -> Option<Seq<char>> {
    match found {
        Some(id) => Some(id),
        None => service_id_of(line),
    }
}

/// The state after a reply, and the command to send next, if any.
///
/// A refusal of the first way to authenticate is answered with the empty
/// password; a second refusal fails the dialogue. Once authenticated, the
/// service is asked for. Its replies are read until one begins with
/// `250 OK`, which publishes the service under the id that was named, with
/// `.onion` after it, or fails the dialogue where none was named; a reply
/// with a status of 400 or more fails it at once.
pub open spec fn publish_next(
    state: PublishModel,
    mode: TorMode,
    target_port: u16,
    line: Seq<char>,
) -> (PublishModel, Option<Seq<char>>) {
    match state {
        PublishModel::Authenticating => if is_success_reply(line) {
            (PublishModel::Publishing(None), Some(add_onion_text(mode, target_port)))
        } else {
            (PublishModel::AuthenticatingAgain, Some(authenticate_empty_text()))
        },
        PublishModel::AuthenticatingAgain => if is_success_reply(line) {
            (PublishModel::Publishing(None), Some(add_onion_text(mode, target_port)))
        } else {
            (PublishModel::Failed(ControlError::AuthenticationFailed), None)
        },
        PublishModel::Publishing(found) => if is_final_ok(line) {
            match id_after(found, line) {
                Some(id) => (PublishModel::Published(id + ".onion"@), None),
                None => (PublishModel::Failed(ControlError::NoServiceId), None),
            }
        } else if is_failure_reply(line) {
            (PublishModel::Failed(ControlError::Refused), None)
        } else {
            (PublishModel::Publishing(id_after(found, line)), None)
        },
        PublishModel::Published(a) => (PublishModel::Published(a), None),
        PublishModel::Failed(e) => (PublishModel::Failed(e), None),
    }
}

impl PublishModel {
    /// What is held is well formed: an id that was named is the id of a
    /// hidden service, and a published address is such an id with `.onion`
    /// after it.
    pub open spec fn wf(self) -> bool {
        match self {
            PublishModel::Publishing(Some(id)) => is_service_id(id),
            PublishModel::Published(a) => exists|id: Seq<char>|
                is_service_id(id) && a == #[trigger] (id + ".onion"@),
            _ => true,
        }
    }
}

/// Every step keeps the state well formed: a service is published only
/// under the id of a hidden service with `.onion` after it.
pub proof fn lemma_publish_keeps_wf(
    state: PublishModel,
    mode: TorMode,
    target_port: u16,
    line: Seq<char>,
)
    requires
        state.wf(),
    ensures
        PublishModel::Authenticating.wf(),
        publish_next(state, mode, target_port, line).0.wf(),
        publish_cut(state).wf(),
{
}

/// The state once the connection has ended: what was reached stays, and
/// anything else has failed.
pub open spec fn publish_cut(state: PublishModel) -> PublishModel {
    match state {
        PublishModel::Published(a) => PublishModel::Published(a),
        PublishModel::Failed(e) => PublishModel::Failed(e),
        _ => PublishModel::Failed(ControlError::ConnectionClosed),
    }
}

/// Where the configuring of single-hop mode stands.
#[derive(Debug, Clone, Copy, PartialEq, Eq, Structural)]
pub enum ConfigureState {
    /// The first way to authenticate was asked for.
    Authenticating,
    /// The empty password was sent.
    AuthenticatingAgain,
    /// Single-hop mode was asked for.
    SettingSingleHop,
    /// The mode that goes with it was asked for.
    SettingNonAnonymous,
    /// The configuration was asked to be saved.
    Saving,
    /// All was said.
    Finished,
    /// The dialogue failed.
    Failed(ControlError),
}

/// The state after a reply, and the command to send next, if any. A
/// refusal of the first way to authenticate is answered with the empty
/// password. Only a second refusal fails the dialogue: whatever the daemon
/// says to a setting, the next one is sent.
pub open spec fn configure_next(state: ConfigureState, line: Seq<char>) -> (
    ConfigureState,
    Option<Seq<char>>,
) {
    match state {
        ConfigureState::Authenticating => if is_success_reply(line) {
            (
                ConfigureState::SettingSingleHop,
                Some("SETCONF HiddenServiceSingleHopMode=1\r\n"@),
            )
        } else {
            (ConfigureState::AuthenticatingAgain, Some(authenticate_empty_text()))
        },
        ConfigureState::AuthenticatingAgain => if is_success_reply(line) {
            (
                ConfigureState::SettingSingleHop,
                Some("SETCONF HiddenServiceSingleHopMode=1\r\n"@),
            )
        } else {
            (ConfigureState::Failed(ControlError::AuthenticationFailed), None)
        },
        ConfigureState::SettingSingleHop => (
            ConfigureState::SettingNonAnonymous,
            Some("SETCONF HiddenServiceNonAnonymousMode=1\r\n"@),
        ),
        ConfigureState::SettingNonAnonymous => (ConfigureState::Saving, Some("SAVECONF\r\n"@)),
        ConfigureState::Saving => (ConfigureState::Finished, None),
        ConfigureState::Finished => (ConfigureState::Finished, None),
        ConfigureState::Failed(e) => (ConfigureState::Failed(e), None),
    }
}

/// Begins the configuring of single-hop mode: the state, and the command to
/// send.
pub fn configure_start() -> (r: (ConfigureState, String))
    ensures
        r.0 == ConfigureState::Authenticating,
        r.1@ == authenticate_text(),
{
    (ConfigureState::Authenticating, authenticate_command())
}

/// Takes in a reply; see [`configure_next`].
pub fn configure_step(state: ConfigureState, line: &str) -> (r: (ConfigureState, Option<String>))
    ensures
        (r.0, maybe_string(r.1)) == configure_next(state, line@),
{
    match state {
        ConfigureState::Authenticating => {
            if reply_is_success(line) {
                (ConfigureState::SettingSingleHop, Some(setconf_single_hop_command()))
            } else {
                (ConfigureState::AuthenticatingAgain, Some(authenticate_empty_command()))
            }
        },
        ConfigureState::AuthenticatingAgain => {
            if reply_is_success(line) {
                (ConfigureState::SettingSingleHop, Some(setconf_single_hop_command()))
            } else {
                (ConfigureState::Failed(ControlError::AuthenticationFailed), None)
            }
        },
        ConfigureState::SettingSingleHop => (
            ConfigureState::SettingNonAnonymous,
            Some(setconf_non_anonymous_command()),
        ),
        ConfigureState::SettingNonAnonymous => (ConfigureState::Saving, Some(saveconf_command())),
        ConfigureState::Saving => (ConfigureState::Finished, None),
        ConfigureState::Finished => (ConfigureState::Finished, None),
        ConfigureState::Failed(e) => (ConfigureState::Failed(e), None),
    }
}

/// Where the building of circuits ahead stands.
#[derive(Debug, Clone, Copy, PartialEq, Eq, Structural)]
pub enum PrebuildState {
    /// The first way to authenticate was asked for.
    Authenticating,
    /// The empty password was sent.
    AuthenticatingAgain,
    /// A circuit was asked for; so many replies are still to come, this one
    /// included.
    Building(u32),
    /// All circuits were asked for.
    Finished,
    /// The dialogue failed.
    Failed(ControlError),
}

/// The least index at or after `from` whose circuit has the id, or
/// `circuits.len()` where none has it.
pub open spec fn find_circuit(circuits: Seq<CircuitModel>, id: Seq<char>, from: int) -> int
    decreases circuits.len() - from,
{
    if from < 0 || from >= circuits.len() {
        circuits.len() as int
    } else if circuits[from].circuit_id == id {
        from
    } else {
        find_circuit(circuits, id, from + 1)
    }
}

/// `circuits` with `c` in the place of the one with the same id, or at the
/// end where there was none.
pub open spec fn with_circuit(circuits: Seq<CircuitModel>, c: CircuitModel) -> Seq<CircuitModel> {
    let i = find_circuit(circuits, c.circuit_id, 0);
    if i < circuits.len() {
        circuits.update(i, c)
    } else {
        circuits.push(c)
    }
}

/// No two circuits have the same id.
pub open spec fn distinct_circuits(circuits: Seq<CircuitModel>) -> bool {
    forall|i: int, j: int|
        0 <= i < circuits.len() && 0 <= j < circuits.len() && i != j ==> (
        #[trigger] circuits[i]).circuit_id != (#[trigger] circuits[j]).circuit_id
}

/// `find_circuit` gives the first circuit with the id at or after `from`,
/// and `circuits.len()` exactly where there is none.
pub proof fn lemma_find_circuit(circuits: Seq<CircuitModel>, id: Seq<char>, from: int)
    requires
        0 <= from <= circuits.len(),
    ensures
        from <= find_circuit(circuits, id, from) <= circuits.len(),
        find_circuit(circuits, id, from) < circuits.len() ==> circuits[find_circuit(
            circuits,
            id,
            from,
        )].circuit_id == id,
        forall|j: int|
            from <= j < find_circuit(circuits, id, from) ==> (#[trigger] circuits[j]).circuit_id
                != id,
    decreases circuits.len() - from,
{
    if from < circuits.len() && circuits[from].circuit_id != id {
        lemma_find_circuit(circuits, id, from + 1);
    }
}

/// Recording a circuit under its id leaves no id twice.
pub proof fn lemma_recording_keeps_circuits_distinct(circuits: Seq<CircuitModel>, c: CircuitModel)
    requires
        distinct_circuits(circuits),
    ensures
        distinct_circuits(with_circuit(circuits, c)),
{
    lemma_find_circuit(circuits, c.circuit_id, 0);
    let recorded = with_circuit(circuits, c);
    let i = find_circuit(circuits, c.circuit_id, 0);
    assert forall|a: int, b: int|
        0 <= a < recorded.len() && 0 <= b < recorded.len() && a != b implies (
    #[trigger] recorded[a]).circuit_id != (#[trigger] recorded[b]).circuit_id by {
        if a < circuits.len() && a != i {
            assert(recorded[a] == circuits[a]);
        }
        if b < circuits.len() && b != i {
            assert(recorded[b] == circuits[b]);
        }
    }
}

/// The least index at or after `from` whose circuit is active, or
/// `circuits.len()` where none is.
pub open spec fn first_active(circuits: Seq<CircuitModel>, from: int) -> int
    decreases circuits.len() - from,
{
    if from < 0 || from >= circuits.len() {
        circuits.len() as int
    } else if circuits[from].is_active {
        from
    } else {
        first_active(circuits, from + 1)
    }
}

/// What a controller holds.
pub struct TorModel {
    pub control_port: u16,
    /// The address of the published service.
    pub onion_address: Option<Seq<char>>,
    pub mode: TorMode,
    /// The circuits built ahead, oldest first, each under its own id.
    pub circuits: Seq<CircuitModel>,
    pub prebuild_count: u32,
    /// The countries to prefer.
    pub preferred_countries: Seq<Seq<char>>,
    /// The countries to avoid.
    pub excluded_countries: Seq<Seq<char>>,
    pub prefer_fast_relays: bool,
    pub circuit_prebuilding: bool,
}

impl TorModel {
    /// What follows a successful authentication in the building of circuits:
    /// the first circuit is asked for, unless none is to be built.
    pub open spec fn begin_building(self) -> (TorModel, PrebuildState, Option<Seq<char>>) {
        if self.prebuild_count == 0 {
            (self, PrebuildState::Finished, None)
        } else {
            (
                self,
                PrebuildState::Building(self.prebuild_count),
                Some(extend_circuit_text(self.prefers_countries())),
            )
        }
    }

    /// Whether any country is preferred.
    pub open spec fn prefers_countries(self) -> bool {
        self.preferred_countries.len() > 0
    }

    /// The controller after a reply in the building of circuits at `now`,
    /// the state, and the command to send next, if any.
    ///
    /// A refusal of the first way to authenticate is answered with the
    /// empty password; a second refusal fails the dialogue. Once
    /// authenticated, as many circuits are asked for as are to be built, one
    /// after the other. Each reply that names a circuit adds it as an active
    /// one.
    pub open spec fn prebuild_next(self, state: PrebuildState, line: Seq<char>, now: Span) -> (
        TorModel,
        PrebuildState,
        Option<Seq<char>>,
    ) {
        match state {
            PrebuildState::Authenticating => if !is_success_reply(line) {
                (self, PrebuildState::AuthenticatingAgain, Some(authenticate_empty_text()))
            } else {
                self.begin_building()
            },
            PrebuildState::AuthenticatingAgain => if !is_success_reply(line) {
                (self, PrebuildState::Failed(ControlError::AuthenticationFailed), None)
            } else {
                self.begin_building()
            },
            PrebuildState::Building(left) => {
                let built = match circuit_id_of(line) {
                    Some(id) => TorModel {
                        circuits: with_circuit(self.circuits, new_circuit(id, now)),
                        ..self
                    },
                    None => self,
                };
                if left <= 1 {
                    (built, PrebuildState::Finished, None)
                } else {
                    (
                        built,
                        PrebuildState::Building((left - 1) as u32),
                        Some(extend_circuit_text(self.prefers_countries())),
                    )
                }
            },
            PrebuildState::Finished => (self, PrebuildState::Finished, None),
            PrebuildState::Failed(e) => (self, PrebuildState::Failed(e), None),
        }
    }

    /// The controller once the publishing has come to `state`: a published
    /// address is kept.
    pub open spec fn having(self, state: PublishModel) -> TorModel {
        match state {
            PublishModel::Published(a) => TorModel { onion_address: Some(a), ..self },
            _ => self,
        }
    }
}

/// How many commands are sent while the replies are taken in, one after the
/// other, from `state` on.
pub open spec fn commands_sent(
    m: TorModel,
    state: PrebuildState,
    replies: Seq<Seq<char>>,
    now: Span,
) -> nat
    decreases replies.len(),
{
    if replies.len() == 0 {
        0
    } else {
        let next = m.prebuild_next(state, replies[0], now);
        let sent: nat = if next.2 is Some {
            1
        } else {
            0
        };
        sent + commands_sent(next.0, next.1, replies.drop_first(), now)
    }
}

/// While circuits are asked for, one command follows each reply but the
/// last that is waited for, whatever the replies say.
pub proof fn lemma_building_sends_the_rest(
    m: TorModel,
    left: u32,
    replies: Seq<Seq<char>>,
    now: Span,
)
    requires
        1 <= left <= replies.len(),
    ensures
        commands_sent(m, PrebuildState::Building(left), replies, now) == left - 1,
    decreases replies.len(),
{
    let next = m.prebuild_next(PrebuildState::Building(left), replies[0], now);
    let rest = replies.drop_first();
    if left == 1 {
        lemma_finished_sends_nothing(next.0, rest, now);
    } else {
        lemma_building_sends_the_rest(next.0, (left - 1) as u32, rest, now);
    }
}

/// Once all circuits were asked for, nothing more is sent.
pub proof fn lemma_finished_sends_nothing(m: TorModel, replies: Seq<Seq<char>>, now: Span)
    ensures
        commands_sent(m, PrebuildState::Finished, replies, now) == 0,
    decreases replies.len(),
{
    if replies.len() > 0 {
        lemma_finished_sends_nothing(m, replies.drop_first(), now);
    }
}

/// After a successful authentication, circuits are asked for exactly as
/// often as the controller is set to build them, given that every command
/// gets its reply.
pub proof fn lemma_circuits_asked_for_exactly(m: TorModel, replies: Seq<Seq<char>>, now: Span)
    requires
        replies.len() > m.prebuild_count,
        is_success_reply(replies[0]),
    ensures
        commands_sent(m, PrebuildState::Authenticating, replies, now) == m.prebuild_count,
{
    let rest = replies.drop_first();
    if m.prebuild_count == 0 {
        lemma_finished_sends_nothing(m, rest, now);
    } else {
        lemma_building_sends_the_rest(m, m.prebuild_count, rest, now);
    }
}

/// The client of the control port: how it is set up, the service it has
/// published, and the circuits it has built ahead.
pub struct TorManager {
    control_port: u16,
    onion_address: Option<String>,
    mode: TorMode,
    circuits: Vec<PersistentCircuit>,
    prebuild_count: u32,
    geo_prefs: GeoPreferences,
    circuit_prebuilding: bool,
}

impl View for TorManager {
    type V = TorModel;

    closed spec fn view(&self) -> TorModel {
        TorModel {
            control_port: self.control_port,
            onion_address: maybe_string(self.onion_address),
            mode: self.mode,
            circuits: self.circuits@.map_values(|c: PersistentCircuit| c@),
            prebuild_count: self.prebuild_count,
            preferred_countries: self.geo_prefs.preferred_countries.deep_view(),
            excluded_countries: self.geo_prefs.excluded_countries.deep_view(),
            prefer_fast_relays: self.geo_prefs.prefer_fast_relays,
            circuit_prebuilding: self.circuit_prebuilding,
        }
    }
}

/// The second port on which a daemon's control socket is commonly found.
pub const FALLBACK_CONTROL_PORT: u16 = 9151;

impl TorManager {
    #[verifier::type_invariant]
    spec fn ids_differ(&self) -> bool {
        distinct_circuits(self@.circuits)
    }

    /// A controller for the control port `control_port`, in full mode.
    pub fn new(control_port: u16) -> (r: Self)
        ensures
            r@ == (TorModel {
                control_port,
                onion_address: None,
                mode: TorMode::Full,
                circuits: Seq::empty(),
                prebuild_count: 3,
                preferred_countries: Seq::empty(),
                excluded_countries: Seq::empty(),
                prefer_fast_relays: true,
                circuit_prebuilding: true,
            }),
    {
        TorManager::new_with_mode(control_port, TorMode::Full)
    }

    /// A controller for the control port `control_port` in the given mode.
    /// It has published nothing, prefers no country, and builds three
    /// circuits ahead.
    pub fn new_with_mode(control_port: u16, mode: TorMode) -> (r: Self)
        ensures
            r@ == (TorModel {
                control_port,
                onion_address: None,
                mode,
                circuits: Seq::empty(),
                prebuild_count: 3,
                preferred_countries: Seq::empty(),
                excluded_countries: Seq::empty(),
                prefer_fast_relays: true,
                circuit_prebuilding: true,
            }),
    {
        let r = TorManager {
            control_port,
            onion_address: None,
            mode,
            circuits: Vec::new(),
            prebuild_count: 3,
            geo_prefs: GeoPreferences::default(),
            circuit_prebuilding: true,
        };
        assert(r@.circuits =~= Seq::empty());
        assert(r@.preferred_countries =~= Seq::empty());
        assert(r@.excluded_countries =~= Seq::empty());
        r
    }

    /// The ports on which to look for a running daemon, in order: the one
    /// this controller is set up for, then the common second one.
    pub fn probe_ports(&self) -> (r: (u16, u16))
        ensures
            r == (self@.control_port, FALLBACK_CONTROL_PORT),
    {
        (self.control_port, FALLBACK_CONTROL_PORT)
    }

    /// Changes the mode.
    pub fn set_mode(&mut self, mode: TorMode)
        ensures
            final(self)@ == (TorModel { mode, ..old(self)@ }),
    {
        proof {
            use_type_invariant(&*self);
        }
        self.mode = mode;
    }

    /// Changes which relays to prefer.
    pub fn set_geo_preferences(&mut self, prefs: GeoPreferences)
        ensures
            final(self)@ == (TorModel {
                preferred_countries: prefs.preferred_countries.deep_view(),
                excluded_countries: prefs.excluded_countries.deep_view(),
                prefer_fast_relays: prefs.prefer_fast_relays,
                ..old(self)@
            }),
    {
        proof {
            use_type_invariant(&*self);
        }
        self.geo_prefs = prefs;
    }

    /// Changes whether circuits are built ahead, and how many.
    pub fn set_circuit_prebuilding(&mut self, enabled: bool, count: u32)
        ensures
            final(self)@ == (TorModel {
                circuit_prebuilding: enabled,
                prebuild_count: count,
                ..old(self)@
            }),
    {
        proof {
            use_type_invariant(&*self);
        }
        self.circuit_prebuilding = enabled;
        self.prebuild_count = count;
    }

    /// The mode.
    pub fn mode(&self) -> (r: TorMode)
        ensures
            r == self@.mode,
    {
        self.mode
    }

    /// The control port.
    pub fn control_port(&self) -> (r: u16)
        ensures
            r == self@.control_port,
    {
        self.control_port
    }

    /// How many circuits were built ahead, each under an id of its own.
    pub fn circuit_count(&self) -> (r: usize)
        ensures
            r == self@.circuits.len(),
            distinct_circuits(self@.circuits),
    {
        proof {
            use_type_invariant(self);
        }
        self.circuits.len()
    }

    /// The latency to expect in this mode, in milliseconds, as least and
    /// most.
    pub fn expected_latency(&self) -> (r: (u32, u32))
        ensures
            r == match self@.mode {
                TorMode::SingleHop => (80u32, 150u32),
                TorMode::Full => (200u32, 500u32),
            },
            r.0 < r.1,
    {
        match self.mode {
            TorMode::SingleHop => (80, 150),
            TorMode::Full => (200, 500),
        }
    }

    /// The address of the published service, if one was published.
    pub fn get_onion_address(&self) -> (r: Option<&str>)
        ensures
            maybe_text(r) == self@.onion_address,
    {
        match &self.onion_address {
            Some(a) => Some(a.as_str()),
            None => None,
        }
    }

    /// The id of the first circuit built ahead that is active, if any is.
    pub fn get_prebuilt_circuit(&self) -> (r: Option<String>)
        ensures
            maybe_string(r) == if first_active(self@.circuits, 0) < self@.circuits.len() {
                Some(self@.circuits[first_active(self@.circuits, 0)].circuit_id)
            } else {
                None
            },
    {
        let mut i: usize = 0;
        while i < self.circuits.len()
            invariant
                i <= self.circuits.len(),
                first_active(self@.circuits, 0) == first_active(self@.circuits, i as int),
            decreases self.circuits.len() - i,
        {
            if self.circuits[i].is_active {
                return Some(self.circuits[i].circuit_id.clone());
            }
            i += 1;
        }
        None
    }

    /// Begins the publishing of a hidden service: the state, and the command
    /// to send.
    pub fn publish_start(&self) -> (r: (PublishState, String))
        ensures
            r.0@ == PublishModel::Authenticating,
            r.1@ == authenticate_text(),
    {
        (PublishState::Authenticating, authenticate_command())
    }

    /// Takes in a reply in the publishing of a hidden service for
    /// `target_port`; see [`publish_next`]. The address of a service that is
    /// published is kept.
    pub fn publish_step(&mut self, state: PublishState, target_port: u16, line: &str) -> (r: (
        PublishState,
        Option<String>,
    ))
        ensures
            (r.0@, maybe_string(r.1)) == publish_next(state@, old(self)@.mode, target_port, line@),
            final(self)@ == old(self)@.having(r.0@),
    {
        proof {
            use_type_invariant(&*self);
        }
        match state {
            PublishState::Authenticating => {
                if reply_is_success(line) {
                    (
                        PublishState::Publishing(None),
                        Some(add_onion_command(self.mode, target_port)),
                    )
                } else {
                    (PublishState::AuthenticatingAgain, Some(authenticate_empty_command()))
                }
            },
            PublishState::AuthenticatingAgain => {
                if reply_is_success(line) {
                    (
                        PublishState::Publishing(None),
                        Some(add_onion_command(self.mode, target_port)),
                    )
                } else {
                    (PublishState::Failed(ControlError::AuthenticationFailed), None)
                }
            },
            PublishState::Publishing(found) => {
                let found = match found {
                    Some(id) => Some(id),
                    None => service_id_in(line),
                };
                if reply_is_final_ok(line) {
                    match found {
                        Some(id) => {
                            let mut out: Vec<char> = Vec::new();
                            push_text(&mut out, id.as_str());
                            push_text(&mut out, ".onion");
                            let address = string_of(out.as_slice());
                            self.onion_address = Some(address.clone());
                            (PublishState::Published(address), None)
                        },
                        None => (PublishState::Failed(ControlError::NoServiceId), None),
                    }
                } else if reply_is_failure(line) {
                    (PublishState::Failed(ControlError::Refused), None)
                } else {
                    (PublishState::Publishing(found), None)
                }
            },
            PublishState::Published(a) => {
                self.onion_address = Some(a.clone());
                (PublishState::Published(a), None)
            },
            PublishState::Failed(e) => (PublishState::Failed(e), None),
        }
    }

    /// Takes in that the connection has ended; see [`publish_cut`].
    pub fn publish_closed(state: PublishState) -> (r: PublishState)
        ensures
            r@ == publish_cut(state@),
    {
        match state {
            PublishState::Published(a) => PublishState::Published(a),
            PublishState::Failed(e) => PublishState::Failed(e),
            _ => PublishState::Failed(ControlError::ConnectionClosed),
        }
    }

    /// Takes note of a service that was published by other means.
    pub fn record_published(&mut self, onion_address: String)
        ensures
            final(self)@ == (TorModel { onion_address: Some(onion_address@), ..old(self)@ }),
    {
        proof {
            use_type_invariant(&*self);
        }
        self.onion_address = Some(onion_address);
    }

    /// Begins the building of circuits ahead: the state, and the command to
    /// send. Where circuits are not to be built ahead, there is nothing to
    /// say.
    pub fn prebuild_start(&self) -> (r: (PrebuildState, Option<String>))
        ensures
            self@.circuit_prebuilding ==> r.0 == PrebuildState::Authenticating && maybe_string(r.1)
                == Some(authenticate_text()),
            !self@.circuit_prebuilding ==> r.0 == PrebuildState::Finished && r.1 is None,
    {
        if self.circuit_prebuilding {
            (PrebuildState::Authenticating, Some(authenticate_command()))
        } else {
            (PrebuildState::Finished, None)
        }
    }

    fn circuit_position(&self, id: &str) -> (i: usize)
        ensures
            i == find_circuit(self@.circuits, id@, 0),
            i <= self.circuits.len(),
    {
        let wanted = id.to_owned();
        let mut i: usize = 0;
        while i < self.circuits.len()
            invariant
                i <= self.circuits.len(),
                wanted@ == id@,
                find_circuit(self@.circuits, id@, 0) == find_circuit(
                    self@.circuits,
                    id@,
                    i as int,
                ),
            decreases self.circuits.len() - i,
        {
            if self.circuits[i].circuit_id == wanted {
                return i;
            }
            i += 1;
        }
        i
    }

    /// Adds an active circuit that was built at `now`, in the place of the
    /// one with the same id where there is one.
    pub fn record_circuit(&mut self, circuit_id: String, now: Span)
        ensures
            final(self)@ == (TorModel {
                circuits: with_circuit(old(self)@.circuits, new_circuit(circuit_id@, now)),
                ..old(self)@
            }),
            distinct_circuits(final(self)@.circuits),
    {
        let ghost before = self@.circuits;
        let ghost model = new_circuit(circuit_id@, now);
        let i = self.circuit_position(circuit_id.as_str());
        let circuit = PersistentCircuit {
            circuit_id,
            created_at: now,
            is_active: true,
            path: Vec::new(),
        };
        assert(circuit.path.deep_view() =~= Seq::<Seq<char>>::empty());
        proof {
            use_type_invariant(&*self);
            lemma_recording_keeps_circuits_distinct(before, model);
        }
        // The list is taken out while it is worked on, so that no id
        // stands twice in the controller whatever happens in between.
        let mut list: Vec<PersistentCircuit> = Vec::new();
        std::mem::swap(&mut self.circuits, &mut list);
        if i < list.len() {
            list[i] = circuit;
        } else {
            list.push(circuit);
        }
        assert(list@.map_values(|c: PersistentCircuit| c@) =~= with_circuit(before, model));
        std::mem::swap(&mut self.circuits, &mut list);
    }

    /// Takes in a reply in the building of circuits at `now`; see
    /// [`TorModel::prebuild_next`].
    pub fn prebuild_step(&mut self, state: PrebuildState, line: &str, now: Span) -> (r: (
        PrebuildState,
        Option<String>,
    ))
        ensures
            (final(self)@, r.0, maybe_string(r.1)) == old(self)@.prebuild_next(state, line@, now),
    {
        proof {
            use_type_invariant(&*self);
        }
        let with_preferences = self.geo_prefs.preferred_countries.len() > 0;
        match state {
            PrebuildState::Authenticating => {
                if !reply_is_success(line) {
                    (PrebuildState::AuthenticatingAgain, Some(authenticate_empty_command()))
                } else if self.prebuild_count == 0 {
                    (PrebuildState::Finished, None)
                } else {
                    (
                        PrebuildState::Building(self.prebuild_count),
                        Some(extend_circuit_command(with_preferences)),
                    )
                }
            },
            PrebuildState::AuthenticatingAgain => {
                if !reply_is_success(line) {
                    (PrebuildState::Failed(ControlError::AuthenticationFailed), None)
                } else if self.prebuild_count == 0 {
                    (PrebuildState::Finished, None)
                } else {
                    (
                        PrebuildState::Building(self.prebuild_count),
                        Some(extend_circuit_command(with_preferences)),
                    )
                }
            },
            PrebuildState::Building(left) => {
                match circuit_id_in(line) {
                    Some(id) => {
                        self.record_circuit(id, now);
                    },
                    None => {},
                }
                if left <= 1 {
                    (PrebuildState::Finished, None)
                } else {
                    (
                        PrebuildState::Building(left - 1),
                        Some(extend_circuit_command(with_preferences)),
                    )
                }
            },
            PrebuildState::Finished => (PrebuildState::Finished, None),
            PrebuildState::Failed(e) => (PrebuildState::Failed(e), None),
        }
    }

    /// What to say to the daemon on shutdown: where a service was published,
    /// the commands that authenticate and take it down; nothing otherwise.
    pub fn shutdown_commands(&self) -> (r: Vec<String>)
        ensures
            r.deep_view() == match self@.onion_address {
                Some(a) => seq![authenticate_text(), del_onion_text(a)],
                None => Seq::<Seq<char>>::empty(),
            },
    {
        let mut out: Vec<String> = Vec::new();
        match &self.onion_address {
            Some(a) => {
                out.push(authenticate_command());
                out.push(del_onion_command(a.as_str()));
            },
            None => {
            },
        }
        out
    }
}

/// How often the hostname file is looked for again, a second apart, before
/// the setting up of a hidden service gives up.
pub const HOSTNAME_POLLS: u32 = 30;

/// The seconds to give a daemon that was just started before it is spoken
/// to.
pub const DAEMON_START_WAIT_SECS: u64 = 3;

/// Where the setting up of a hidden service stands.
#[derive(Debug, Clone, Copy, PartialEq, Eq, Structural)]
pub enum SetupStage {
    /// Whether the daemon's program is installed is being found out.
    CheckingInstall,
    /// A running daemon is being asked for the service.
    FirstTry,
    /// A daemon of our own is being started.
    StartingDaemon,
    /// Our own daemon is being asked for the service.
    SecondTry,
    /// The daemon's hostname file is being looked for; so many more looks
    /// are left after this one.
    AwaitingHostname(u32),
}

/// Why the setting up of a hidden service failed.
#[derive(Debug, Clone, Copy, PartialEq, Eq, Structural)]
pub enum SetupError {
    /// The daemon's program is not installed.
    NotInstalled,
    /// A daemon of our own could not be started.
    DaemonNotStarted,
    /// The daemon wrote no hostname in time.
    Timeout,
    /// What happened does not belong to the stage.
    OutOfTurn,
}

/// What happened in the setting up of a hidden service.
pub enum SetupEvent {
    /// Whether the daemon's program is installed.
    Installed(bool),
    /// The control port published the service under this address.
    Published(String),
    /// The dialogue with the control port failed.
    ControlFailed,
    /// Whether a daemon of our own was started.
    DaemonStarted(bool),
    /// The contents of the hostname file, where there is one.
    Hostname(Option<String>),
}

/// What a [`SetupEvent`] holds.
pub enum SetupEventModel {
    Installed(bool),
    Published(Seq<char>),
    ControlFailed,
    DaemonStarted(bool),
    Hostname(Option<Seq<char>>),
}

impl View for SetupEvent {
    type V = SetupEventModel;

    open spec fn view(&self) -> SetupEventModel {
        match *self {
            SetupEvent::Installed(b) => SetupEventModel::Installed(b),
            SetupEvent::Published(a) => SetupEventModel::Published(a@),
            SetupEvent::ControlFailed => SetupEventModel::ControlFailed,
            SetupEvent::DaemonStarted(b) => SetupEventModel::DaemonStarted(b),
            SetupEvent::Hostname(c) => SetupEventModel::Hostname(maybe_string(c)),
        }
    }
}

/// What to do next in the setting up of a hidden service.
pub enum SetupAction {
    /// Find out whether the daemon's program is installed.
    CheckInstall,
    /// Ask the control port for the service.
    TryControl,
    /// Start a daemon of our own.
    StartDaemon,
    /// Wait so many seconds, then ask the control port for the service.
    WaitThenTryControl(u64),
    /// Read the hostname file.
    ReadHostname,
    /// Wait so many seconds, then read the hostname file.
    WaitThenReadHostname(u64),
    /// The service stands under this address.
    Done(String),
    /// The setting up failed.
    Fail(SetupError),
}

/// What a [`SetupAction`] holds.
pub enum SetupActionModel {
    CheckInstall,
    TryControl,
    StartDaemon,
    WaitThenTryControl(u64),
    ReadHostname,
    WaitThenReadHostname(u64),
    Done(Seq<char>),
    Fail(SetupError),
}

impl View for SetupAction {
    type V = SetupActionModel;

    open spec fn view(&self) -> SetupActionModel {
        match *self {
            SetupAction::CheckInstall => SetupActionModel::CheckInstall,
            SetupAction::TryControl => SetupActionModel::TryControl,
            SetupAction::StartDaemon => SetupActionModel::StartDaemon,
            SetupAction::WaitThenTryControl(s) => SetupActionModel::WaitThenTryControl(s),
            SetupAction::ReadHostname => SetupActionModel::ReadHostname,
            SetupAction::WaitThenReadHostname(s) => SetupActionModel::WaitThenReadHostname(s),
            SetupAction::Done(a) => SetupActionModel::Done(a@),
            SetupAction::Fail(e) => SetupActionModel::Fail(e),
        }
    }
}

/// The address in the contents of a hostname file that may be absent.
pub open spec fn hostname_found(contents: Option<Seq<char>>) -> Option<Seq<char>> {
    match contents {
        Some(c) => hostname_in(c),
        None => None,
    }
}

/// The stage after an event, and what to do next.
///
/// Without the daemon's program, nothing can be set up. A running daemon is
/// asked first. Where that fails, a daemon of our own is started, given
/// three seconds, and asked. Where that fails too, the hostname file that
/// our daemon writes is read, at once and then up to thirty times more, a
/// second apart, until it holds an address.
pub open spec fn setup_next(stage: SetupStage, event: SetupEventModel) -> (
    SetupStage,
    SetupActionModel,
) {
    match (stage, event) {
        (SetupStage::CheckingInstall, SetupEventModel::Installed(true)) => (
            SetupStage::FirstTry,
            SetupActionModel::TryControl,
        ),
        (SetupStage::CheckingInstall, SetupEventModel::Installed(false)) => (
            stage,
            SetupActionModel::Fail(SetupError::NotInstalled),
        ),
        (SetupStage::FirstTry, SetupEventModel::Published(a)) => (
            stage,
            SetupActionModel::Done(a),
        ),
        (SetupStage::FirstTry, SetupEventModel::ControlFailed) => (
            SetupStage::StartingDaemon,
            SetupActionModel::StartDaemon,
        ),
        (SetupStage::StartingDaemon, SetupEventModel::DaemonStarted(true)) => (
            SetupStage::SecondTry,
            SetupActionModel::WaitThenTryControl(DAEMON_START_WAIT_SECS),
        ),
        (SetupStage::StartingDaemon, SetupEventModel::DaemonStarted(false)) => (
            stage,
            SetupActionModel::Fail(SetupError::DaemonNotStarted),
        ),
        (SetupStage::SecondTry, SetupEventModel::Published(a)) => (
            stage,
            SetupActionModel::Done(a),
        ),
        (SetupStage::SecondTry, SetupEventModel::ControlFailed) => (
            SetupStage::AwaitingHostname(HOSTNAME_POLLS),
            SetupActionModel::ReadHostname,
        ),
        (SetupStage::AwaitingHostname(left), SetupEventModel::Hostname(contents)) => {
            match hostname_found(contents) {
                Some(a) => (stage, SetupActionModel::Done(a)),
                None => if left == 0 {
                    (stage, SetupActionModel::Fail(SetupError::Timeout))
                } else {
                    (
                        SetupStage::AwaitingHostname((left - 1) as u32),
                        SetupActionModel::WaitThenReadHostname(1),
                    )
                },
            }
        },
        _ => (stage, SetupActionModel::Fail(SetupError::OutOfTurn)),
    }
}

/// The address that an action ends the setting up with, if it does.
pub open spec fn address_of(action: SetupActionModel) -> Option<Seq<char>> {
    match action {
        SetupActionModel::Done(a) => Some(a),
        _ => None,
    }
}

/// Begins the setting up of a hidden service: the stage, and what to do.
pub fn setup_start() -> (r: (SetupStage, SetupAction))
    ensures
        r.0 == SetupStage::CheckingInstall,
        r.1@ == SetupActionModel::CheckInstall,
{
    (SetupStage::CheckingInstall, SetupAction::CheckInstall)
}

impl TorManager {
    /// Takes in what happened in the setting up of a hidden service, and
    /// says what to do next; see [`setup_next`]. The address that the
    /// setting up ends with is kept.
    pub fn setup_step(&mut self, stage: SetupStage, event: SetupEvent) -> (r: (
        SetupStage,
        SetupAction,
    ))
        ensures
            (r.0, r.1@) == setup_next(stage, event@),
            final(self)@ == match address_of(r.1@) {
                Some(a) => TorModel { onion_address: Some(a), ..old(self)@ },
                None => old(self)@,
            },
    {
        proof {
            use_type_invariant(&*self);
        }
        match (stage, event) {
            (SetupStage::CheckingInstall, SetupEvent::Installed(true)) => (
                SetupStage::FirstTry,
                SetupAction::TryControl,
            ),
            (SetupStage::CheckingInstall, SetupEvent::Installed(false)) => (
                stage,
                SetupAction::Fail(SetupError::NotInstalled),
            ),
            (SetupStage::FirstTry, SetupEvent::Published(a)) => {
                self.onion_address = Some(a.clone());
                (stage, SetupAction::Done(a))
            },
            (SetupStage::FirstTry, SetupEvent::ControlFailed) => (
                SetupStage::StartingDaemon,
                SetupAction::StartDaemon,
            ),
            (SetupStage::StartingDaemon, SetupEvent::DaemonStarted(true)) => (
                SetupStage::SecondTry,
                SetupAction::WaitThenTryControl(DAEMON_START_WAIT_SECS),
            ),
            (SetupStage::StartingDaemon, SetupEvent::DaemonStarted(false)) => (
                stage,
                SetupAction::Fail(SetupError::DaemonNotStarted),
            ),
            (SetupStage::SecondTry, SetupEvent::Published(a)) => {
                self.onion_address = Some(a.clone());
                (stage, SetupAction::Done(a))
            },
            (SetupStage::SecondTry, SetupEvent::ControlFailed) => (
                SetupStage::AwaitingHostname(HOSTNAME_POLLS),
                SetupAction::ReadHostname,
            ),
            (SetupStage::AwaitingHostname(left), SetupEvent::Hostname(contents)) => {
                let found = match contents {
                    Some(c) => hostname_from_file(c.as_str()),
                    None => None,
                };
                match found {
                    Some(a) => {
                        self.onion_address = Some(a.clone());
                        (stage, SetupAction::Done(a))
                    },
                    None => {
                        if left == 0 {
                            (stage, SetupAction::Fail(SetupError::Timeout))
                        } else {
                            (
                                SetupStage::AwaitingHostname(left - 1),
                                SetupAction::WaitThenReadHostname(1),
                            )
                        }
                    },
                }
            },
            _ => (stage, SetupAction::Fail(SetupError::OutOfTurn)),
        }
    }
}

} // verus!
