//! Who is calling: the label that the proxy gives to each request from its
//! user agent, its referer and the address it came from.

use vstd::prelude::*;
use crate::text::{chars_of, contains, contains_text, maybe_text};

verus! {

/// The caller of a request.
#[derive(Debug, Clone, Copy, PartialEq, Eq, Structural)]
pub enum AccessContext {
    /// A browser on this machine or on the local network.
    LocalBrowser,
    /// A service that delivers webhooks.
    WebhookService,
    /// A program that is no browser.
    APIClient,
    /// A browser somewhere else.
    ExternalAccess,
}

/// The address a request came from.
#[derive(Debug, Clone, Copy, PartialEq, Eq)]
pub enum SourceIp {
    /// The four octets of an IPv4 address, first to last.
    V4([u8; 4]),
    /// The eight 16-bit groups of an IPv6 address, first to last.
    V6([u16; 8]),
}

/// The text names a service that delivers webhooks.
pub open spec fn names_webhook(text: Seq<char>) -> bool {
    ||| contains_text(text, "Stripe/"@)
    ||| contains_text(text, "GitHub-Hookshot/"@)
    ||| contains_text(text, "twilio"@)
    ||| contains_text(text, "webhook"@)
    ||| contains_text(text, "slack"@)
    ||| contains_text(text, "discord"@)
    ||| contains_text(text, "zapier"@)
    ||| contains_text(text, "webhook.site"@)
}

/// The user agent is that of a browser.
pub open spec fn names_browser(user_agent: Seq<char>) -> bool {
    ||| contains_text(user_agent, "Mozilla/"@)
    ||| contains_text(user_agent, "Chrome/"@)
    ||| contains_text(user_agent, "Safari/"@)
    ||| contains_text(user_agent, "Firefox/"@)
    ||| contains_text(user_agent, "Edge/"@)
    ||| contains_text(user_agent, "Opera/"@)
    ||| contains_text(user_agent, "Brave/"@)
    ||| contains_text(user_agent, "Vivaldi/"@)
    ||| contains_text(user_agent, "Chromium/"@)
}

/// The address is a loopback, private or link-local one: `127.0.0.0/8`,
/// `10.0.0.0/8`, `172.16.0.0/12`, `192.168.0.0/16`, `::1` or `fe80::/10`.
pub open spec fn is_local_address(ip: SourceIp) -> bool {
    match ip {
        SourceIp::V4(o) => {
            ||| o[0] == 127
            ||| (o[0] == 192 && o[1] == 168)
            ||| (o[0] == 172 && 16 <= o[1] <= 31)
            ||| o[0] == 10
        },
        SourceIp::V6(g) => {
            ||| (g[0] == 0 && g[1] == 0 && g[2] == 0 && g[3] == 0 && g[4] == 0 && g[5] == 0
                && g[6] == 0 && g[7] == 1)
            ||| g[0] & 0xffc0 == 0xfe80
        },
    }
}

/// Whether a header that may be absent names a webhook service.
pub open spec fn header_names_webhook(text: Option<Seq<char>>) -> bool {
    match text {
        Some(t) => names_webhook(t),
        None => false,
    }
}

/// Whether a user agent that may be absent is a browser's.
pub open spec fn header_names_browser(user_agent: Option<Seq<char>>) -> bool {
    match user_agent {
        Some(t) => names_browser(t),
        None => false,
    }
}

/// The label of a request. A webhook indicator in the user agent or in the
/// referer decides first. Otherwise a request from a local address is a
/// local browser's where its user agent is a browser's, and an API client's
/// where it is not; and a request from any other address is an external
/// access where its user agent is a browser's, and an API client's where it
/// is not.
pub open spec fn classify(
    user_agent: Option<Seq<char>>,
    source: SourceIp,
    referer: Option<Seq<char>>,
) -> AccessContext {
    if header_names_webhook(user_agent) || header_names_webhook(referer) {
        AccessContext::WebhookService
    } else if is_local_address(source) {
        if header_names_browser(user_agent) {
            AccessContext::LocalBrowser
        } else {
            AccessContext::APIClient
        }
    } else {
        if header_names_browser(user_agent) {
            AccessContext::ExternalAccess
        } else {
            AccessContext::APIClient
        }
    }
}

fn mentions(text: &[char], token: &str) -> (r: bool)
    ensures
        r == contains_text(text@, token@),
{
    let needle = chars_of(token);
    contains(text, needle.as_slice())
}

fn text_names_webhook(text: &str) -> (r: bool)
    ensures
        r == names_webhook(text@),
{
    let t = chars_of(text);
    let t = t.as_slice();
    mentions(t, "Stripe/") || mentions(t, "GitHub-Hookshot/") || mentions(t, "twilio") || mentions(
        t,
        "webhook",
    ) || mentions(t, "slack") || mentions(t, "discord") || mentions(t, "zapier") || mentions(
        t,
        "webhook.site",
    )
}

/// Labels requests. It holds no state.
pub struct ContextDetector;

impl ContextDetector {
    /// A detector.
    pub fn new() -> (r: Self)
        ensures
            r == ContextDetector,
    {
        ContextDetector
    }

    /// The label of a request with the given user agent, source address and
    /// referer.
    pub fn detect_context(
        &self,
        user_agent: Option<&str>,
        source_ip: SourceIp,
        referer: Option<&str>,
    ) -> (r: AccessContext)
        ensures
            r == classify(maybe_text(user_agent), source_ip, maybe_text(referer)),
    {
        let webhook_agent = match user_agent {
            Some(ua) => text_names_webhook(ua),
            None => false,
        };
        let webhook_referer = match referer {
            Some(rf) => text_names_webhook(rf),
            None => false,
        };
        if webhook_agent || webhook_referer {
            return AccessContext::WebhookService;
        }
        let browser = match user_agent {
            Some(ua) => self.is_browser_user_agent(ua),
            None => false,
        };
        if self.is_local_ip(source_ip) {
            if browser {
                AccessContext::LocalBrowser
            } else {
                AccessContext::APIClient
            }
        } else {
            if browser {
                AccessContext::ExternalAccess
            } else {
                AccessContext::APIClient
            }
        }
    }

    /// Whether the user agent, or the referer where there is one, names a
    /// service that delivers webhooks.
    pub fn is_webhook_service(&self, user_agent: &str, referer: Option<&str>) -> (r: bool)
        ensures
            r == (names_webhook(user_agent@) || header_names_webhook(maybe_text(referer))),
    {
        if text_names_webhook(user_agent) {
            return true;
        }
        match referer {
            Some(rf) => text_names_webhook(rf),
            None => false,
        }
    }

    /// Whether the address is a loopback, private or link-local one.
    pub fn is_local_ip(&self, ip: SourceIp) -> (r: bool)
        ensures
            r == is_local_address(ip),
    {
        match ip {
            SourceIp::V4(o) => {
                o[0] == 127 || (o[0] == 192 && o[1] == 168) || (o[0] == 172 && o[1] >= 16 && o[1]
                    <= 31) || o[0] == 10
            },
            SourceIp::V6(g) => {
                (g[0] == 0 && g[1] == 0 && g[2] == 0 && g[3] == 0 && g[4] == 0 && g[5] == 0 && g[6]
                    == 0 && g[7] == 1) || g[0] & 0xffc0 == 0xfe80
            },
        }
    }

    /// Whether the user agent is that of a browser.
    pub fn is_browser_user_agent(&self, user_agent: &str) -> (r: bool)
        ensures
            r == names_browser(user_agent@),
    {
        let t = chars_of(user_agent);
        let t = t.as_slice();
        mentions(t, "Mozilla/") || mentions(t, "Chrome/") || mentions(t, "Safari/") || mentions(
            t,
            "Firefox/",
        ) || mentions(t, "Edge/") || mentions(t, "Opera/") || mentions(t, "Brave/") || mentions(
            t,
            "Vivaldi/",
        ) || mentions(t, "Chromium/")
    }
}

/// The label depends on the user agent, the address and the referer alone:
/// two requests that agree in these get the same label.
pub proof fn lemma_same_request_same_label(
    user_agent: Option<Seq<char>>,
    source: SourceIp,
    referer: Option<Seq<char>>,
    other_agent: Option<Seq<char>>,
    other_source: SourceIp,
    other_referer: Option<Seq<char>>,
)
    requires
        user_agent == other_agent,
        source == other_source,
        referer == other_referer,
    ensures
        classify(user_agent, source, referer) == classify(other_agent, other_source, other_referer),
{
}

} // verus!
