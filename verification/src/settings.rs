//! The switches that environment variables set.

use crate::text::{
    given, given_text, opt_text, parse_unsigned, same_text, trim, trimmed, unsigned_value,
};
use vstd::prelude::*;

verus! {

/// A switch is on when its variable is exactly `1` or `true`.
pub open spec fn switched_on(var: Option<Seq<char>>) -> bool {
    var == Some("1"@) || var == Some("true"@)
}

/// Whether a switch is on.
pub fn is_switched_on(var: &Option<String>) -> (r: bool)
    ensures
        r == switched_on(opt_text(*var)),
{
    match var {
        Some(s) => same_text(s.as_str(), "1") || same_text(s.as_str(), "true"),
        None => false,
    }
}

/// Whether prepared games are kept, from `LOOT_MCP_CACHE`.
pub fn prep_cache_enabled(var: &Option<String>) -> (r: bool)
    ensures
        r == switched_on(opt_text(*var)),
{
    is_switched_on(var)
}

/// Whether phase timings are printed, from `LOOT_MCP_TIMING`.
pub fn timing_stderr_enabled(var: &Option<String>) -> (r: bool)
    ensures
        r == switched_on(opt_text(*var)),
{
    is_switched_on(var)
}

/// Whether answers carry their timings, from `LOOT_MCP_TIMINGS_JSON`.
pub fn timings_json_enabled(var: &Option<String>) -> (r: bool)
    ensures
        r == switched_on(opt_text(*var)),
{
    is_switched_on(var)
}

/// Whether phases are timed at all: `stderr` is `LOOT_MCP_TIMING`, `json` is
/// `LOOT_MCP_TIMINGS_JSON`.
pub fn phase_timing_active(stderr: &Option<String>, json: &Option<String>) -> (r: bool)
    ensures
        r == (switched_on(opt_text(*stderr)) || switched_on(opt_text(*json))),
{
    timing_stderr_enabled(stderr) || timings_json_enabled(json)
}

/// Whether plugin metadata is evaluated in parallel, from `LOOT_MCP_PARALLEL_METADATA`: unless
/// the variable is exactly `0`.
pub fn parallel_metadata_enabled(var: &Option<String>) -> (r: bool)
    ensures
        r == (opt_text(*var) != Some("0"@)),
{
    match var {
        Some(s) => !same_text(s.as_str(), "0"),
        None => true,
    }
}

/// The seconds for which a prepared game may be used again; nothing means for ever.
pub open spec fn ttl_seconds(var: Option<Seq<char>>) -> Option<u64> {
    match var {
        Some(s) => match unsigned_value(trimmed(s)) {
            Some(n) => if n == 0 {
                None
            } else {
                Some(n)
            },
            None => None,
        },
        None => None,
    }
}

/// The lifetime of a prepared game in seconds, from `LOOT_MCP_CACHE_TTL_SEC`.
pub fn prep_cache_ttl(var: &Option<String>) -> (r: Option<u64>)
    ensures
        r == ttl_seconds(opt_text(*var)),
{
    match var {
        Some(s) => {
            let t = trim(s.as_str());
            match parse_unsigned(t.as_str()) {
                Some(n) => if n == 0 {
                    None
                } else {
                    Some(n)
                },
                None => None,
            }
        },
        None => None,
    }
}

/// The file that diagnostics are appended to, from `LOOT_MCP_DIAGNOSTICS_LOG`.
pub fn diagnostics_log_path(var: &Option<String>) -> (r: Option<String>)
    ensures
        opt_text(r) == given(opt_text(*var)),
{
    given_text(var)
}

/// Whether diagnostics are written, from `LOOT_MCP_DIAGNOSTICS_LOG`.
pub fn diagnostics_enabled(var: &Option<String>) -> (r: bool)
    ensures
        r == (given(opt_text(*var)) is Some),
{
    diagnostics_log_path(var).is_some()
}

/// A switch is on for the two texts `1` and `true`, and off for every other and where it is not set.
pub proof fn law_switches(s: Seq<char>)
    ensures
        !switched_on(None),
        switched_on(Some(s)) <==> s == seq!['1'] || s == seq!['t', 'r', 'u', 'e'],
{
    reveal_strlit("1");
    reveal_strlit("true");
    assert("1"@ =~= seq!['1']);
    assert("true"@ =~= seq!['t', 'r', 'u', 'e']);
}

/// A lifetime is set by a number other than zero, whitespace round it aside, and by nothing else.
pub proof fn law_lifetimes(s: Seq<char>, n: u64)
    ensures
        ttl_seconds(None) is None,
        ttl_seconds(Some(s)) == Some(n) <==> n > 0 && unsigned_value(trimmed(s)) == Some(n),
{
}

} // verus!
