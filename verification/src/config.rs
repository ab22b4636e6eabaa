//! How the parts are set up for a mode: the ports, the onion mode, the
//! circuits to build ahead, the relays to prefer, and the cache.

use vstd::prelude::*;
use crate::mode::{PerformanceConfig, TunnelMode};
use crate::text::{
    chars_of, find_char, lemma_next_char, next_char, push_range, string_of, to_uppercase,
    trim_range, trimmed, uppercase_of,
};
use crate::tor::TorMode;

verus! {

/// The port to listen on where none was chosen: a thousand above the
/// origin's port where that is a port, else a hundred above it where that
/// is one, else none.
pub open spec fn listen_port_for(target_port: u16) -> Option<u16> {
    if target_port + 1000 <= u16::MAX {
        Some((target_port + 1000) as u16)
    } else if target_port + 100 <= u16::MAX {
        Some((target_port + 100) as u16)
    } else {
        None
    }
}

/// The port to listen on where none was chosen.
pub fn default_listen_port(target_port: u16) -> (r: Option<u16>)
    ensures
        r == listen_port_for(target_port),
        target_port + 1000 > 65535 && target_port + 100 <= 65535 ==> r == Some(
            (target_port + 100) as u16,
        ),
{
    if target_port <= u16::MAX - 1000 {
        Some(target_port + 1000)
    } else if target_port <= u16::MAX - 100 {
        Some(target_port + 100)
    } else {
        None
    }
}

/// The port for TLS where none was chosen: the one above the listening
/// port, where there is one.
pub fn default_https_port(listen_port: u16) -> (r: Option<u16>)
    ensures
        r == if listen_port < u16::MAX {
            Some((listen_port + 1) as u16)
        } else {
            None::<u16>
        },
{
    if listen_port < u16::MAX {
        Some(listen_port + 1)
    } else {
        None
    }
}

/// The onion mode that goes with a tunnel mode: none for the fast mode,
/// single-hop for the balanced one, full for the private one.
pub fn tor_mode_for(mode: TunnelMode) -> (r: Option<TorMode>)
    ensures
        r == match mode {
            TunnelMode::Fast => None,
            TunnelMode::Balanced => Some(TorMode::SingleHop),
            TunnelMode::Private => Some(TorMode::Full),
        },
{
    match mode {
        TunnelMode::Fast => None,
        TunnelMode::Balanced => Some(TorMode::SingleHop),
        TunnelMode::Private => Some(TorMode::Full),
    }
}

/// How many circuits to build ahead: as many as were asked for, and in the
/// private mode at least five.
pub fn prebuild_count_for(mode: TunnelMode, requested: u32) -> (r: u32)
    ensures
        r == if mode == TunnelMode::Private && requested < 5 {
            5
        } else {
            requested
        },
{
    match mode {
        TunnelMode::Private => if requested < 5 {
            5
        } else {
            requested
        },
        _ => requested,
    }
}

/// Whether preferred countries are honoured: in the balanced mode only.
pub fn honors_geo_preferences(mode: TunnelMode) -> (r: bool)
    ensures
        r == (mode == TunnelMode::Balanced),
{
    match mode {
        TunnelMode::Balanced => true,
        _ => false,
    }
}

/// Whether responses are cached: where the caller asks for it and the
/// mode's settings allow it.
pub fn cache_enabled(asked: bool, settings: &PerformanceConfig) -> (r: bool)
    ensures
        r == (asked && settings.enable_caching),
{
    asked && settings.enable_caching
}

/// The country codes in a comma-separated list from index `from` on: each
/// piece without white space around it and in uppercase.
pub open spec fn country_codes(list: Seq<char>, from: int) -> Seq<Seq<char>>
    decreases list.len() - from,
{
    if from < 0 || from > list.len() {
        Seq::empty()
    } else {
        let end = next_char(list, ',', from);
        let code = uppercase_of(trimmed(list.subrange(from, end)));
        if end >= list.len() {
            seq![code]
        } else {
            proof {
                lemma_next_char(list, ',', from);
            }
            seq![code] + country_codes(list, end + 1)
        }
    }
}

/// The country codes in a comma-separated list.
pub fn parse_geo_preferences(list: &str) -> (r: Vec<String>)
    ensures
        r.deep_view() == country_codes(list@, 0),
{
    let l = chars_of(list);
    let l = l.as_slice();
    let mut out: Vec<String> = Vec::new();
    let mut from: usize = 0;
    loop
        invariant
            from <= l.len(),
            l@ == list@,
            out.deep_view() + country_codes(l@, from as int) == country_codes(list@, 0),
        decreases l.len() - from,
    {
        let end = find_char(l, ',', from);
        let (a, b) = trim_range(l, from, end);
        let mut piece: Vec<char> = Vec::new();
        push_range(&mut piece, l, a, b);
        let piece = string_of(piece.as_slice());
        let code = to_uppercase(piece.as_str());
        out.push(code);
        if end >= l.len() {
            return out;
        }
        from = end + 1;
    }
}

} // verus!
