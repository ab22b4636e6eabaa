//! The three ways to run the tunnel, and the settings that go with each.

use vstd::prelude::*;
use crate::text::{chars_of, lowercase_of, push_text, same_text, string_of, to_lowercase};

verus! {

/// How the tunnel trades speed for privacy.
#[derive(Debug, Clone, Copy, PartialEq, Eq, Structural)]
pub enum TunnelMode {
    /// A direct connection between the peers: fastest, addresses visible.
    Fast,
    /// A single-hop onion service: the server is exposed, clients are hidden.
    Balanced,
    /// A full three-hop onion service: both sides are hidden.
    Private,
}

impl Default for TunnelMode {
    fn default() -> (r: TunnelMode)
        ensures
            r == TunnelMode::Balanced,
    {
        TunnelMode::Balanced
    }
}

/// The mode that a lowercase word names, if it names one.
pub open spec fn mode_named(word: Seq<char>) -> Option<TunnelMode> {
    if word == "fast"@ || word == "f"@ || word == "quick"@ || word == "direct"@ {
        Some(TunnelMode::Fast)
    } else if word == "balanced"@ || word == "b"@ || word == "normal"@ || word == "default"@ {
        Some(TunnelMode::Balanced)
    } else if word == "private"@ || word == "p"@ || word == "secure"@ || word == "tor"@ || word
        == "full"@ {
        Some(TunnelMode::Private)
    } else {
        None
    }
}

/// What is said of a word that names no mode.
pub open spec fn invalid_mode_message(word: Seq<char>) -> Seq<char> {
    "Invalid tunnel mode '"@ + word + "'. Use: fast, balanced, or private"@
}

fn is_word(text: &[char], word: &str) -> (r: bool)
    ensures
        r == (text@ == word@),
{
    let w = chars_of(word);
    same_text(text, w.as_slice())
}

impl TunnelMode {
    /// The lowercase name of the mode.
    pub open spec fn name_text(self) -> Seq<char> {
        match self {
            TunnelMode::Fast => "fast"@,
            TunnelMode::Balanced => "balanced"@,
            TunnelMode::Private => "private"@,
        }
    }

    /// The lowercase name of the mode.
    pub fn name(&self) -> (r: &'static str)
        ensures
            r@ == self.name_text(),
    {
        match self {
            TunnelMode::Fast => "fast",
            TunnelMode::Balanced => "balanced",
            TunnelMode::Private => "private",
        }
    }

    /// The mode that a word names, the word given in lowercase.
    pub fn for_keyword(lowercase_word: &str) -> (r: Option<TunnelMode>)
        ensures
            r == mode_named(lowercase_word@),
    {
        let w = chars_of(lowercase_word);
        let w = w.as_slice();
        if is_word(w, "fast") || is_word(w, "f") || is_word(w, "quick") || is_word(w, "direct") {
            Some(TunnelMode::Fast)
        } else if is_word(w, "balanced") || is_word(w, "b") || is_word(w, "normal") || is_word(
            w,
            "default",
        ) {
            Some(TunnelMode::Balanced)
        } else if is_word(w, "private") || is_word(w, "p") || is_word(w, "secure") || is_word(
            w,
            "tor",
        ) || is_word(w, "full") {
            Some(TunnelMode::Private)
        } else {
            None
        }
    }

    /// The mode that a word names, in any mix of upper and lower case; for
    /// any other word, a message that quotes it.
    pub fn parse(s: &str) -> (r: Result<TunnelMode, String>)
        ensures
            match mode_named(lowercase_of(s@)) {
                Some(m) => r == Ok::<TunnelMode, String>(m),
                None => r is Err && r->Err_0@ == invalid_mode_message(s@),
            },
    {
        let lowered = to_lowercase(s);
        match TunnelMode::for_keyword(lowered.as_str()) {
            Some(m) => Ok(m),
            None => {
                let mut out: Vec<char> = Vec::new();
                push_text(&mut out, "Invalid tunnel mode '");
                push_text(&mut out, s);
                push_text(&mut out, "'. Use: fast, balanced, or private");
                Err(string_of(out.as_slice()))
            },
        }
    }

    /// The latency to expect, in milliseconds, as least and most.
    pub open spec fn latency_range(self) -> (u32, u32) {
        match self {
            TunnelMode::Fast => (30, 50),
            TunnelMode::Balanced => (80, 150),
            TunnelMode::Private => (200, 500),
        }
    }

    /// The latency to expect, in milliseconds, as least and most.
    pub fn expected_latency(&self) -> (r: (u32, u32))
        ensures
            r == self.latency_range(),
            r.0 < r.1,
    {
        match self {
            TunnelMode::Fast => (30, 50),
            TunnelMode::Balanced => (80, 150),
            TunnelMode::Private => (200, 500),
        }
    }

    /// A line on how much the mode hides.
    pub fn privacy_level(&self) -> (r: &'static str)
        ensures
            r@ == match *self {
                TunnelMode::Fast => "Low - IP visible to peer"@,
                TunnelMode::Balanced => "Medium - Server exposed, clients hidden"@,
                TunnelMode::Private => "High - Full anonymity"@,
            },
    {
        match self {
            TunnelMode::Fast => "Low - IP visible to peer",
            TunnelMode::Balanced => "Medium - Server exposed, clients hidden",
            TunnelMode::Private => "High - Full anonymity",
        }
    }

    /// What the mode is recommended for.
    pub open spec fn recommended_for(self) -> Seq<Seq<char>> {
        match self {
            TunnelMode::Fast => seq![
                "Local development"@,
                "Trusted team environments"@,
                "Low-latency requirements"@,
                "Real-time applications"@,
            ],
            TunnelMode::Balanced => seq![
                "Webhook testing"@,
                "API development"@,
                "Client demos"@,
                "General tunneling"@,
            ],
            TunnelMode::Private => seq![
                "Sensitive data handling"@,
                "Journalist/activist use"@,
                "Maximum privacy needs"@,
                "Censorship circumvention"@,
            ],
        }
    }

    /// What the mode is recommended for.
    pub fn use_cases(&self) -> (r: &'static [&'static str])
        ensures
            r@.len() == 4,
            forall|i: int| 0 <= i < 4 ==> (#[trigger] r@[i])@ == self.recommended_for()[i],
    {
        match self {
            TunnelMode::Fast => &[
                "Local development",
                "Trusted team environments",
                "Low-latency requirements",
                "Real-time applications",
            ],
            TunnelMode::Balanced => &[
                "Webhook testing",
                "API development",
                "Client demos",
                "General tunneling",
            ],
            TunnelMode::Private => &[
                "Sensitive data handling",
                "Journalist/activist use",
                "Maximum privacy needs",
                "Censorship circumvention",
            ],
        }
    }

    /// Whether the mode needs the onion network.
    pub fn requires_tor(&self) -> (r: bool)
        ensures
            r == (*self == TunnelMode::Balanced || *self == TunnelMode::Private),
    {
        match self {
            TunnelMode::Fast => false,
            TunnelMode::Balanced => true,
            TunnelMode::Private => true,
        }
    }

    /// Whether the mode routes over three hops.
    pub fn uses_full_onion_routing(&self) -> (r: bool)
        ensures
            r == (*self == TunnelMode::Private),
    {
        match self {
            TunnelMode::Private => true,
            _ => false,
        }
    }

    /// Whether the mode connects the peers directly.
    pub fn supports_direct_p2p(&self) -> (r: bool)
        ensures
            r == (*self == TunnelMode::Fast),
    {
        match self {
            TunnelMode::Fast => true,
            _ => false,
        }
    }
}

impl std::str::FromStr for TunnelMode {
    type Err = String;

    fn from_str(s: &str) -> (r: Result<TunnelMode, String>)
        ensures
            match mode_named(lowercase_of(s@)) {
                Some(m) => r == Ok::<TunnelMode, String>(m),
                None => r is Err && r->Err_0@ == invalid_mode_message(s@),
            },
    {
        TunnelMode::parse(s)
    }
}

/// Settings that trade resources for latency.
#[derive(Debug, Clone)]
pub struct PerformanceConfig {
    /// Keep onion circuits open between requests.
    pub persistent_circuits: bool,
    /// Prefer relays that are near.
    pub geo_optimization: bool,
    /// The preferred relay regions, as two-letter country codes.
    pub preferred_regions: Vec<String>,
    /// Cache static assets.
    pub enable_caching: bool,
    /// The cache's time to live in seconds.
    pub cache_ttl: u64,
    /// The cache's byte budget in MiB.
    pub max_cache_size: u64,
    /// Keep connections for reuse.
    pub connection_pooling: bool,
    /// How many connections to keep at most.
    pub max_pooled_connections: u32,
    /// Build circuits before they are needed.
    pub circuit_prebuilding: bool,
    /// How many circuits to build ahead.
    pub prebuild_circuit_count: u32,
}

/// The settings of a [`PerformanceConfig`] but for its regions.
pub struct Tuning {
    pub persistent_circuits: bool,
    pub geo_optimization: bool,
    pub enable_caching: bool,
    pub cache_ttl: u64,
    pub max_cache_size: u64,
    pub connection_pooling: bool,
    pub max_pooled_connections: u32,
    pub circuit_prebuilding: bool,
    pub prebuild_circuit_count: u32,
}

/// The settings that go with a mode.
pub open spec fn tuning_for(mode: TunnelMode) -> Tuning {
    match mode {
        TunnelMode::Fast => Tuning {
            persistent_circuits: false,
            geo_optimization: false,
            enable_caching: true,
            cache_ttl: 60,
            max_cache_size: 50,
            connection_pooling: true,
            max_pooled_connections: 20,
            circuit_prebuilding: false,
            prebuild_circuit_count: 0,
        },
        TunnelMode::Balanced => Tuning {
            persistent_circuits: true,
            geo_optimization: true,
            enable_caching: true,
            cache_ttl: 300,
            max_cache_size: 100,
            connection_pooling: true,
            max_pooled_connections: 10,
            circuit_prebuilding: true,
            prebuild_circuit_count: 2,
        },
        TunnelMode::Private => Tuning {
            persistent_circuits: true,
            geo_optimization: false,
            enable_caching: false,
            cache_ttl: 0,
            max_cache_size: 0,
            connection_pooling: true,
            max_pooled_connections: 5,
            circuit_prebuilding: true,
            prebuild_circuit_count: 5,
        },
    }
}

/// The settings in use where none were chosen.
pub open spec fn default_tuning() -> Tuning {
    Tuning {
        persistent_circuits: true,
        geo_optimization: true,
        enable_caching: true,
        cache_ttl: 300,
        max_cache_size: 100,
        connection_pooling: true,
        max_pooled_connections: 10,
        circuit_prebuilding: true,
        prebuild_circuit_count: 3,
    }
}

impl PerformanceConfig {
    /// The settings but for the regions.
    pub open spec fn tuning(&self) -> Tuning {
        Tuning {
            persistent_circuits: self.persistent_circuits,
            geo_optimization: self.geo_optimization,
            enable_caching: self.enable_caching,
            cache_ttl: self.cache_ttl,
            max_cache_size: self.max_cache_size,
            connection_pooling: self.connection_pooling,
            max_pooled_connections: self.max_pooled_connections,
            circuit_prebuilding: self.circuit_prebuilding,
            prebuild_circuit_count: self.prebuild_circuit_count,
        }
    }

    fn with(t: Tuning) -> (r: PerformanceConfig)
        ensures
            r.tuning() == t,
            r.preferred_regions@.len() == 0,
    {
        PerformanceConfig {
            persistent_circuits: t.persistent_circuits,
            geo_optimization: t.geo_optimization,
            preferred_regions: Vec::new(),
            enable_caching: t.enable_caching,
            cache_ttl: t.cache_ttl,
            max_cache_size: t.max_cache_size,
            connection_pooling: t.connection_pooling,
            max_pooled_connections: t.max_pooled_connections,
            circuit_prebuilding: t.circuit_prebuilding,
            prebuild_circuit_count: t.prebuild_circuit_count,
        }
    }

    /// Settings for speed: no onion circuits, a small short-lived cache.
    pub fn fast() -> (r: PerformanceConfig)
        ensures
            r.tuning() == tuning_for(TunnelMode::Fast),
            r.preferred_regions@.len() == 0,
    {
        PerformanceConfig::with(
            Tuning {
                persistent_circuits: false,
                geo_optimization: false,
                enable_caching: true,
                cache_ttl: 60,
                max_cache_size: 50,
                connection_pooling: true,
                max_pooled_connections: 20,
                circuit_prebuilding: false,
                prebuild_circuit_count: 0,
            },
        )
    }

    /// Settings for the middle way.
    pub fn balanced() -> (r: PerformanceConfig)
        ensures
            r.tuning() == tuning_for(TunnelMode::Balanced),
            r.preferred_regions@.len() == 0,
    {
        PerformanceConfig::with(
            Tuning {
                persistent_circuits: true,
                geo_optimization: true,
                enable_caching: true,
                cache_ttl: 300,
                max_cache_size: 100,
                connection_pooling: true,
                max_pooled_connections: 10,
                circuit_prebuilding: true,
                prebuild_circuit_count: 2,
            },
        )
    }

    /// Settings for privacy: no cache, no choice of relays, more circuits.
    pub fn private() -> (r: PerformanceConfig)
        ensures
            r.tuning() == tuning_for(TunnelMode::Private),
            r.preferred_regions@.len() == 0,
    {
        PerformanceConfig::with(
            Tuning {
                persistent_circuits: true,
                geo_optimization: false,
                enable_caching: false,
                cache_ttl: 0,
                max_cache_size: 0,
                connection_pooling: true,
                max_pooled_connections: 5,
                circuit_prebuilding: true,
                prebuild_circuit_count: 5,
            },
        )
    }

    /// The settings that go with `mode`.
    pub fn for_mode(mode: TunnelMode) -> (r: PerformanceConfig)
        ensures
            r.tuning() == tuning_for(mode),
            r.preferred_regions@.len() == 0,
    {
        match mode {
            TunnelMode::Fast => PerformanceConfig::fast(),
            TunnelMode::Balanced => PerformanceConfig::balanced(),
            TunnelMode::Private => PerformanceConfig::private(),
        }
    }
}

impl Default for PerformanceConfig {
    fn default() -> (r: PerformanceConfig)
        ensures
            r.tuning() == default_tuning(),
            r.preferred_regions@.len() == 0,
    {
        PerformanceConfig::with(
            Tuning {
                persistent_circuits: true,
                geo_optimization: true,
                enable_caching: true,
                cache_ttl: 300,
                max_cache_size: 100,
                connection_pooling: true,
                max_pooled_connections: 10,
                circuit_prebuilding: true,
                prebuild_circuit_count: 3,
            },
        )
    }
}

} // verus!
