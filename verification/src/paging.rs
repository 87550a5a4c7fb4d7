//! Pages of the load order.

use crate::text::texts;
use vstd::prelude::*;

verus! {

/// Which page of plugins an answer holds.
#[derive(Debug, Clone, Copy)]
pub struct PluginMetadataPageOut {
    pub total: usize,
    pub offset: usize,
    pub returned: usize,
    pub has_more: bool,
}

/// Where a page starts.
pub open spec fn page_start(len: int, offset: int) -> int {
    if offset < len {
        offset
    } else {
        len
    }
}

/// Where a page ends.
pub open spec fn page_end(len: int, offset: int, limit: Option<u32>) -> int {
    let start = page_start(len, offset);
    match limit {
        Some(n) => if start + n < len {
            start + n
        } else {
            len
        },
        None => len,
    }
}

/// The page of a sequence that leaves out `offset` items at the start and holds at most `limit`.
pub open spec fn page<A>(s: Seq<A>, offset: int, limit: Option<u32>) -> Seq<A> {
    s.subrange(
        page_start(s.len() as int, offset),
        page_end(s.len() as int, offset, limit),
    )
}

/// The names on a page of the load order.
pub fn plugin_names_page<'a>(current: &'a Vec<String>, offset: u32, limit: Option<u32>) -> (r: Vec<
    &'a String,
>)
    ensures
        r@.len() == page(texts(current@), offset as int, limit).len(),
        forall|i: int|
            0 <= i < r@.len() ==> (#[trigger] r@[i])@ == page(
                texts(current@),
                offset as int,
                limit,
            )[i],
{
    let len: usize = current.len();
    let start: usize = if (offset as usize) < len {
        offset as usize
    } else {
        len
    };
    let end: usize = match limit {
        Some(n) => if (n as usize) < len - start {
            start + n as usize
        } else {
            len
        },
        None => len,
    };
    let mut out: Vec<&'a String> = Vec::new();
    let mut i: usize = start;
    while i < end
        invariant
            start <= i <= end <= current@.len(),
            out@.len() == i - start,
            forall|j: int| 0 <= j < out@.len() ==> (#[trigger] out@[j])@ == current@[start + j]@,
        decreases end - i,
    {
        out.push(&current[i]);
        i += 1;
    }
    out
}

/// What is said of a page.
pub fn page_out(total: usize, offset: u32, returned: usize) -> (r: PluginMetadataPageOut)
    ensures
        r.total == total,
        r.offset == offset,
        r.returned == returned,
        r.has_more == (offset + returned < total),
{
    let off: usize = offset as usize;
    PluginMetadataPageOut {
        total,
        offset: off,
        returned,
        has_more: off.saturating_add(returned) < total,
    }
}

/// A page and all that comes after it make up the load order from the start of the page on.
pub proof fn law_pages_cover<A>(s: Seq<A>, offset: int, limit: u32)
    requires
        0 <= offset,
    ensures
        page(s, offset, Some(limit)) + page(s, offset + limit, None) == page(s, offset, None),
{
    assert(page(s, offset, Some(limit)) + page(s, offset + limit, None) =~= page(s, offset, None));
}

/// There is more after a page exactly when the page that starts where it ends is not empty.
pub proof fn law_has_more<A>(s: Seq<A>, offset: int, limit: Option<u32>)
    requires
        0 <= offset,
    ensures
        (offset + page(s, offset, limit).len() < s.len()) == (page(
            s,
            offset + page(s, offset, limit).len(),
            None,
        ).len() > 0),
{
}

/// Without an offset and a limit the page is the whole load order.
pub proof fn law_default_page_is_all<A>(s: Seq<A>)
    ensures
        page(s, 0, None) == s,
{
    assert(page(s, 0, None) =~= s);
}

/// A page holds the items from its offset on: as many as its limit allows, or all that are left.
pub proof fn law_items_of_a_page<A>(s: Seq<A>, offset: int, limit: Option<u32>)
    requires
        0 <= offset,
    ensures
        ({
            let left = if offset < s.len() {
                s.len() - offset
            } else {
                0
            };
            &&& limit is None ==> page(s, offset, limit).len() == left
            &&& limit matches Some(n) ==> page(s, offset, limit).len() == if n < left {
                n as int
            } else {
                left
            }
        }),
        forall|i: int|
            0 <= i < page(s, offset, limit).len() ==> #[trigger] page(s, offset, limit)[i]
                == s[offset + i],
{
}

} // verus!
