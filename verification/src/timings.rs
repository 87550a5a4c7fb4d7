//! How long answering took.

use crate::cache::{tag_word, PrepCacheTag};
use crate::names::NameMap;
use crate::text::opt_text;
use vstd::prelude::*;

verus! {

/// How long a tool call took, in milliseconds, as a whole and phase by phase.
#[derive(Debug)]
pub struct ToolTimingsOut {
    pub total_ms: u64,
    /// How the call came by its prepared game, where it needs one.
    pub prep_cache: Option<String>,
    pub phases_ms: NameMap<u64>,
}

/// [`ToolTimingsOut`] with its texts as character sequences.
pub struct TimingsView {
    pub total_ms: u64,
    pub prep_cache: Option<Seq<char>>,
    pub phases_ms: Map<Seq<char>, u64>,
}

impl View for ToolTimingsOut {
    type V = TimingsView;

    open spec fn view(&self) -> TimingsView {
        TimingsView {
            total_ms: self.total_ms,
            prep_cache: opt_text(self.prep_cache),
            phases_ms: self.phases_ms@,
        }
    }
}

/// The view of optional timings.
pub open spec fn opt_timings(t: Option<ToolTimingsOut>) -> Option<TimingsView> {
    match t {
        Some(t) => Some(t@),
        None => None,
    }
}

/// How the tag of a prepared game is shown.
pub open spec fn shown_tag(tag: Option<PrepCacheTag>) -> Option<Seq<char>> {
    match tag {
        Some(t) => Some(tag_word(t)),
        None => None,
    }
}

/// How the tag of a prepared game is shown.
pub fn tag_out(tag: Option<PrepCacheTag>) -> (r: Option<String>)
    ensures
        opt_text(r) == shown_tag(tag),
{
    match tag {
        Some(t) => Some(t.word()),
        None => None,
    }
}

/// The three words for how a call came by its prepared game.
pub open spec fn is_cache_word(word: Option<Seq<char>>) -> bool {
    word == Some("hit"@) || word == Some("miss"@) || word == Some("disabled"@)
}

/// What an answer says of its timings: nothing unless they are asked for.
pub open spec fn is_timings(
    t: Option<ToolTimingsOut>,
    wanted: bool,
    total_ms: u64,
    tag: Option<PrepCacheTag>,
    phases_ms: NameMap<u64>,
) -> bool {
    match t {
        Some(t) => wanted && t.total_ms == total_ms && opt_text(t.prep_cache) == shown_tag(tag)
            && t.phases_ms == phases_ms,
        None => !wanted,
    }
}

/// The timings to put into an answer: none unless they are asked for. `tag` is given for the tools
/// that prepare a game.
pub fn timings_out(
    wanted: bool,
    total_ms: u64,
    tag: Option<PrepCacheTag>,
    phases_ms: NameMap<u64>,
) -> (r: Option<ToolTimingsOut>)
    ensures
        is_timings(r, wanted, total_ms, tag, phases_ms),
{
    if wanted {
        Some(ToolTimingsOut { total_ms, prep_cache: tag_out(tag), phases_ms })
    } else {
        None
    }
}

/// What timings say, field by field; they are there exactly where they are asked for.
pub proof fn law_timings_are_shown(
    t: Option<ToolTimingsOut>,
    wanted: bool,
    total_ms: u64,
    tag: Option<PrepCacheTag>,
    phases_ms: NameMap<u64>,
)
    requires
        is_timings(t, wanted, total_ms, tag, phases_ms),
    ensures
        t is Some <==> wanted,
        t matches Some(out) ==> {
            &&& out.total_ms == total_ms
            &&& out.phases_ms == phases_ms
            &&& tag is None ==> out.prep_cache is None
            &&& tag == Some(PrepCacheTag::Hit) ==> opt_text(out.prep_cache) == Some("hit"@)
            &&& tag == Some(PrepCacheTag::Miss) ==> opt_text(out.prep_cache) == Some("miss"@)
            &&& tag == Some(PrepCacheTag::Disabled) ==> opt_text(out.prep_cache) == Some(
                "disabled"@,
            )
        },
{
}

/// The view of timings leaves nothing out, and the words for a prepared game are three.
pub proof fn law_timings_views(t: ToolTimingsOut, word: Option<Seq<char>>)
    ensures
        opt_timings(None) is None,
        opt_timings(Some(t)) is Some,
        opt_timings(Some(t))->0.total_ms == t.total_ms,
        opt_timings(Some(t))->0.prep_cache == opt_text(t.prep_cache),
        opt_timings(Some(t))->0.phases_ms == t.phases_ms@,
        is_cache_word(word) <==> word == Some("hit"@) || word == Some("miss"@) || word == Some(
            "disabled"@,
        ),
{
}

} // verus!
