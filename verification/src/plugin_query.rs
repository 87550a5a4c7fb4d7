//! Answering a request for the metadata of named plugins.

use crate::cache::PrepCacheTag;
use crate::errors::{error_text, ErrorView, LootError};
use crate::evaluate::{
    collect_plugins, facts_at, plugin_table, plugin_views, PluginFacts, PreparedEval,
};
use crate::masters::{first_place, is_named, lemma_first_place, stands_first};
use crate::metadata::PluginOut;
use crate::names::NameMap;
use crate::profile::found_in;
use crate::request::EvalRequest;
use crate::text::{
    eq_ignore_ascii_case, given, lemma_trimmed_ends, lowered, opt_text, same_text, texts, trim,
    trimmed,
};
use crate::timings::{is_cache_word, is_timings, timings_out, ToolTimingsOut};
use crate::version::{BuildView, LibLootBuild};
use vstd::prelude::*;

verus! {

/// The metadata of named plugins.
#[derive(Debug)]
pub struct PluginMetadataResponse {
    pub libloot_version: String,
    pub libloot_revision: String,
    pub masterlist_path: String,
    pub prelude_loaded: bool,
    pub userlist_loaded: bool,
    pub plugins: NameMap<PluginOut>,
    /// The names that are not in the load order, or whose plugins are not loaded.
    pub not_found: Vec<String>,
    pub timings: Option<ToolTimingsOut>,
    pub error: Option<String>,
}

/// The name that a request means: trimmed, and nothing where that leaves nothing.
pub open spec fn meant_name(s: Seq<char>) -> Option<Seq<char>> {
    given(Some(s))
}

/// The names that a request means.
pub open spec fn meant_names(names: Seq<Seq<char>>) -> Seq<Seq<char>> {
    found_in(names, |s: Seq<char>| meant_name(s))
}

/// The names that a request means.
pub fn requested_names(names: &Vec<String>) -> (r: Vec<String>)
    ensures
        texts(r@) == meant_names(texts(names@)),
{
    let mut out: Vec<String> = Vec::new();
    let ghost all = texts(names@);
    let ghost f = |s: Seq<char>| meant_name(s);
    let mut i: usize = 0;
    assert(texts(out@) =~= found_in(all.take(0), f));
    while i < names.len()
        invariant
            i <= names@.len(),
            all == texts(names@),
            f == (|s: Seq<char>| meant_name(s)),
            texts(out@) == found_in(all.take(i as int), f),
        decreases names@.len() - i,
    {
        let ghost before = texts(out@);
        assert(all.take(i + 1).drop_last() =~= all.take(i as int));
        assert(all.take(i + 1).last() == names@[i as int]@);
        let t = trim(names[i].as_str());
        if !t.as_str().is_empty() {
            out.push(t);
            assert(texts(out@) =~= before.push(t@));
        }
        i += 1;
    }
    assert(all.take(all.len() as int) =~= all);
    out
}

/// The plugin of a load order that a name stands for: the first whose name is the same but for
/// whitespace round it and the case of ASCII letters.
pub open spec fn resolved_name(order: Seq<Seq<char>>, requested: Seq<char>) -> Option<Seq<char>> {
    let q = trimmed(requested);
    if q.len() == 0 {
        None
    } else {
        match first_place(order, lowered(q)) {
            Some(i) => Some(order[i]),
            None => None,
        }
    }
}

/// The plugin of a load order that a name stands for.
pub fn resolve_plugin_name_in_load_order(current: &Vec<String>, requested: &str) -> (r: Option<
    String,
>)
    ensures
        opt_text(r) == resolved_name(texts(current@), requested@),
        r is Some <==> trimmed(requested@).len() > 0 && is_named(
            texts(current@),
            trimmed(requested@),
        ),
        r matches Some(a) ==> exists|p: int|
            #[trigger] stands_first(texts(current@), trimmed(requested@), p) && a@
                == current@[p]@,
{
    proof {
        law_what_a_name_stands_for(texts(current@), requested@);
    }
    let q = trim(requested);
    if q.as_str().is_empty() {
        return None;
    }
    let ghost order = texts(current@);
    proof {
        lemma_first_place(order, lowered(q@));
    }
    let mut i: usize = 0;
    while i < current.len()
        invariant
            i <= current@.len(),
            order == texts(current@),
            q@ == trimmed(requested@),
            q@.len() > 0,
            forall|j: int| 0 <= j < i ==> lowered(#[trigger] order[j]) != lowered(q@),
        decreases current@.len() - i,
    {
        assert(order[i as int] == current@[i as int]@);
        if eq_ignore_ascii_case(current[i].as_str(), q.as_str()) {
            proof {
                lemma_first_place(order, lowered(q@));
                assert(stands_first(order, q@, i as int));
            }
            return Some(current[i].clone());
        }
        i += 1;
    }
    None
}

/// The plugins that the first `n` names stand for, each once, in the order in which they are first
/// named.
pub open spec fn targets(order: Seq<Seq<char>>, requested: Seq<Seq<char>>, n: int) -> Seq<
    Seq<char>,
>
    decreases n,
{
    if n <= 0 {
        Seq::empty()
    } else {
        let before = targets(order, requested, n - 1);
        match resolved_name(order, requested[n - 1]) {
            Some(a) => if before.contains(a) {
                before
            } else {
                before.push(a)
            },
            None => before,
        }
    }
}

/// The names, among the first `n`, that cannot be answered: those that stand for no plugin of the
/// load order, as they were given, and the plugins of which nothing is known, by their own names.
/// `facts` holds what is known of the plugins that the names stand for.
pub open spec fn missing_names(
    order: Seq<Seq<char>>,
    requested: Seq<Seq<char>>,
    facts: Seq<Option<PluginFacts>>,
    n: int,
) -> Seq<Seq<char>>
    decreases n,
{
    if n <= 0 {
        Seq::empty()
    } else {
        let before = missing_names(order, requested, facts, n - 1);
        let seen = targets(order, requested, n - 1);
        match resolved_name(order, requested[n - 1]) {
            None => before.push(requested[n - 1]),
            Some(a) => if !seen.contains(a) && facts_at(facts, seen.len() as int) is None {
                before.push(a)
            } else {
                before
            },
        }
    }
}

/// Whether a text is in a list.
fn has_text(v: &Vec<String>, s: &str) -> (r: bool)
    ensures
        r == texts(v@).contains(s@),
{
    let mut i: usize = 0;
    while i < v.len()
        invariant
            i <= v@.len(),
            forall|j: int| 0 <= j < i ==> texts(v@)[j] != s@,
        decreases v@.len() - i,
    {
        assert(texts(v@)[i as int] == v@[i as int]@);
        if same_text(v[i].as_str(), s) {
            return true;
        }
        i += 1;
    }
    false
}

/// The plugins whose metadata has to be evaluated to answer a request for these names.
pub fn plugins_to_query(current: &Vec<String>, requested: &Vec<String>) -> (r: Vec<String>)
    ensures
        texts(r@) == targets(texts(current@), texts(requested@), requested@.len() as int),
{
    let mut out: Vec<String> = Vec::new();
    let ghost order = texts(current@);
    let ghost all = texts(requested@);
    let mut i: usize = 0;
    assert(texts(out@) =~= targets(order, all, 0));
    while i < requested.len()
        invariant
            i <= requested@.len(),
            order == texts(current@),
            all == texts(requested@),
            texts(out@) == targets(order, all, i as int),
        decreases requested@.len() - i,
    {
        let ghost before = texts(out@);
        assert(all[i as int] == requested@[i as int]@);
        if let Some(a) = resolve_plugin_name_in_load_order(current, requested[i].as_str()) {
            if !has_text(&out, a.as_str()) {
                out.push(a);
                assert(texts(out@) =~= before.push(a@));
            }
        }
        i += 1;
    }
    out
}

/// The names that cannot be answered.
fn names_not_found(
    current: &Vec<String>,
    requested: &Vec<String>,
    facts: &Vec<Option<PluginFacts>>,
) -> (r: Vec<String>)
    ensures
        texts(r@) == missing_names(
            texts(current@),
            texts(requested@),
            facts@,
            requested@.len() as int,
        ),
        (forall|i: int|
            0 <= i < requested@.len() ==> (#[trigger] requested@[i])@.len() > 0 && trimmed(
                requested@[i]@,
            ) == requested@[i]@) ==> texts(r@).filter(
            |m: Seq<char>| !is_named(texts(current@), m),
        ) == texts(requested@).filter(|m: Seq<char>| !is_named(texts(current@), m)),
{
    let mut seen: Vec<String> = Vec::new();
    let mut out: Vec<String> = Vec::new();
    let ghost order = texts(current@);
    let ghost all = texts(requested@);
    let mut i: usize = 0;
    assert(texts(seen@) =~= targets(order, all, 0));
    assert(texts(out@) =~= missing_names(order, all, facts@, 0));
    while i < requested.len()
        invariant
            i <= requested@.len(),
            order == texts(current@),
            all == texts(requested@),
            texts(seen@) == targets(order, all, i as int),
            texts(out@) == missing_names(order, all, facts@, i as int),
        decreases requested@.len() - i,
    {
        let ghost seen0 = texts(seen@);
        let ghost out0 = texts(out@);
        assert(all[i as int] == requested@[i as int]@);
        match resolve_plugin_name_in_load_order(current, requested[i].as_str()) {
            None => {
                out.push(requested[i].clone());
                assert(texts(out@) =~= out0.push(all[i as int]));
            },
            Some(a) => {
                if !has_text(&seen, a.as_str()) {
                    let at: usize = seen.len();
                    assert(seen0.len() == at);
                    let known = at < facts.len() && facts[at].is_some();
                    assert(known == (facts_at(facts@, at as int) is Some));
                    if !known {
                        out.push(a.clone());
                        assert(texts(out@) =~= out0.push(a@));
                    }
                    seen.push(a);
                    assert(texts(seen@) =~= seen0.push(a@));
                }
            },
        }
        i += 1;
    }
    proof {
        if forall|j: int|
            0 <= j < requested@.len() ==> (#[trigger] requested@[j])@.len() > 0 && trimmed(
                requested@[j]@,
            ) == requested@[j]@ {
            assert forall|j: int| 0 <= j < all.len() implies (#[trigger] all[j]).len() > 0
                && trimmed(all[j]) == all[j] by {
                assert(all[j] == requested@[j]@);
            }
            law_unknown_names_are_reported(order, all, facts@, all.len() as int);
            assert(all.take(all.len() as int) =~= all);
        }
    }
    out
}

/// What an answer says when the request succeeds.
pub open spec fn answers_query(
    r: PluginMetadataResponse,
    prep: PreparedEval,
    req: EvalRequest,
    names: Seq<Seq<char>>,
    facts: Seq<Option<PluginFacts>>,
    libloot: BuildView,
) -> bool {
    let order = texts(prep.current@);
    let requested = meant_names(names);
    let asked = targets(order, requested, requested.len() as int);
    &&& r.libloot_version@ == libloot.version
    &&& r.libloot_revision@ == libloot.revision
    &&& r.masterlist_path@ == prep.masterlist_path_str@
    &&& r.prelude_loaded == prep.prelude_loaded
    &&& r.userlist_loaded == prep.userlist_loaded
    &&& plugin_views(r.plugins) == plugin_table(
        asked,
        facts,
        req.plugin_metadata_content,
        req.plugin_problems_include_requirements_load_after,
        asked.len() as int,
    )
    &&& texts(r.not_found@) == missing_names(order, requested, facts, requested.len() as int)
    &&& r.timings is None
    &&& r.error is None
}

/// Why a request for named plugins fails: it names none, or there is no prepared game.
pub open spec fn query_failure(
    names: Seq<Seq<char>>,
    prep: Result<&PreparedEval, LootError>,
) -> Option<ErrorView> {
    if meant_names(names).len() == 0 {
        Some(ErrorView::NoPluginNames)
    } else {
        match prep {
            Ok(_) => None,
            Err(e) => Some(e@),
        }
    }
}

/// Gathers the metadata of named plugins. `facts` holds what is known of the plugins that the
/// names stand for, in the order of [`plugins_to_query`].
pub fn run_plugin_metadata(
    req: &EvalRequest,
    plugin_names: &Vec<String>,
    prep: Result<&PreparedEval, LootError>,
    facts: Vec<Option<PluginFacts>>,
    libloot: &LibLootBuild,
) -> (r: Result<PluginMetadataResponse, LootError>)
    ensures
        match r {
            Ok(out) => query_failure(texts(plugin_names@), prep) is None && prep is Ok
                && answers_query(
                out,
                *prep->Ok_0,
                *req,
                texts(plugin_names@),
                facts@,
                libloot@,
            ),
            Err(e) => query_failure(texts(plugin_names@), prep) == Some(e@),
        },
        r matches Ok(out) ==> {
            let order = texts(prep->Ok_0.current@);
            texts(out.not_found@).filter(|m: Seq<char>| !is_named(order, m)) == texts(
                plugin_names@,
            ).map_values(|s: Seq<char>| trimmed(s)).filter(|s: Seq<char>| s.len() > 0).filter(
                |m: Seq<char>| !is_named(order, m),
            )
        },
{
    let requested = requested_names(plugin_names);
    assert(texts(requested@).len() == requested@.len());
    if requested.len() == 0 {
        return Err(LootError::NoPluginNames);
    }
    let p = match prep {
        Ok(p) => p,
        Err(e) => {
            return Err(e);
        },
    };
    let asked = plugins_to_query(&p.current, &requested);
    assert(texts(asked@).len() == asked@.len());
    let not_found = names_not_found(&p.current, &requested, &facts);
    let plugins = collect_plugins(
        &asked,
        facts,
        req.plugin_metadata_content,
        req.plugin_problems_include_requirements_load_after,
    );
    let out = PluginMetadataResponse {
        libloot_version: libloot.version.clone(),
        libloot_revision: libloot.revision.clone(),
        masterlist_path: p.masterlist_path_str.clone(),
        prelude_loaded: p.prelude_loaded,
        userlist_loaded: p.userlist_loaded,
        plugins,
        not_found,
        timings: None,
        error: None,
    };
    proof {
        law_query_answer(out, *p, *req, texts(plugin_names@), facts@, libloot@);
    }
    Ok(out)
}

/// An answer that says nothing but what went wrong.
pub open spec fn is_query_failure(
    r: PluginMetadataResponse,
    msg: Seq<char>,
    libloot: BuildView,
) -> bool {
    &&& r.libloot_version@ == libloot.version
    &&& r.libloot_revision@ == libloot.revision
    &&& r.masterlist_path@ == Seq::<char>::empty()
    &&& !r.prelude_loaded
    &&& !r.userlist_loaded
    &&& r.plugins@ == Map::<Seq<char>, PluginOut>::empty()
    &&& r.not_found@.len() == 0
    &&& r.timings is None
    &&& opt_text(r.error) == Some(msg)
}

/// Answers a request for the metadata of named plugins. Failures are reported in the answer.
pub fn evaluate_plugin_metadata(
    req: &EvalRequest,
    plugin_names: &Vec<String>,
    prep: Result<&PreparedEval, LootError>,
    facts: Vec<Option<PluginFacts>>,
    libloot: &LibLootBuild,
) -> (r: PluginMetadataResponse)
    ensures
        match query_failure(texts(plugin_names@), prep) {
            Some(e) => is_query_failure(r, error_text(e), libloot@),
            None => prep is Ok && answers_query(
                r,
                *prep->Ok_0,
                *req,
                texts(plugin_names@),
                facts@,
                libloot@,
            ),
        },
        r.timings is None,
        r.error is Some <==> query_failure(texts(plugin_names@), prep) is Some,
{
    match run_plugin_metadata(req, plugin_names, prep, facts, libloot) {
        Ok(out) => out,
        Err(e) => PluginMetadataResponse {
            libloot_version: libloot.version.clone(),
            libloot_revision: libloot.revision.clone(),
            masterlist_path: String::new(),
            prelude_loaded: false,
            userlist_loaded: false,
            plugins: NameMap::new(),
            not_found: Vec::new(),
            timings: None,
            error: Some(e.message()),
        },
    }
}

impl PluginMetadataResponse {
    /// Whether this answer reports a failure.
    pub fn is_error(&self) -> (r: bool)
        ensures
            r == (self.error is Some),
    {
        self.error.is_some()
    }

    /// This answer with its timings, where they are asked for. They always say how the call came
    /// by its prepared game; nothing else in the answer depends on them.
    pub fn with_timings(
        self,
        wanted: bool,
        total_ms: u64,
        tag: PrepCacheTag,
        phases_ms: NameMap<u64>,
    ) -> (r: PluginMetadataResponse)
        ensures
            r == (PluginMetadataResponse { timings: r.timings, ..self }),
            is_timings(r.timings, wanted, total_ms, Some(tag), phases_ms),
            r.timings is Some <==> wanted,
            r.timings matches Some(t) ==> is_cache_word(opt_text(t.prep_cache)),
    {
        let mut out = self;
        out.timings = timings_out(wanted, total_ms, Some(tag), phases_ms);
        out
    }
}

/// However a plugin is named, and however often, it is evaluated once; and only plugins of the
/// load order are.
pub proof fn law_plugins_are_queried_once(
    order: Seq<Seq<char>>,
    requested: Seq<Seq<char>>,
    n: int,
)
    ensures
        targets(order, requested, n).no_duplicates(),
        forall|i: int|
            0 <= i < targets(order, requested, n).len() ==> order.contains(
                #[trigger] targets(order, requested, n)[i],
            ),
    decreases n,
{
    if n > 0 {
        law_plugins_are_queried_once(order, requested, n - 1);
        if let Some(a) = resolved_name(order, requested[n - 1]) {
            lemma_first_place(order, lowered(trimmed(requested[n - 1])));
            assert(order.contains(a));
        }
    }
}

/// The case of ASCII letters and whitespace round a name make no difference to the plugin that it
/// stands for.
pub proof fn law_names_are_case_insensitive(
    order: Seq<Seq<char>>,
    a: Seq<char>,
    b: Seq<char>,
)
    requires
        lowered(trimmed(a)) == lowered(trimmed(b)),
    ensures
        resolved_name(order, a) == resolved_name(order, b),
{
    assert(lowered(trimmed(a)).len() == trimmed(a).len());
    assert(lowered(trimmed(b)).len() == trimmed(b).len());
}

/// A request all of whose names stand for plugins that are known reports none as not found.
pub proof fn law_known_names_are_found(
    order: Seq<Seq<char>>,
    requested: Seq<Seq<char>>,
    facts: Seq<Option<PluginFacts>>,
    n: int,
)
    requires
        forall|i: int| 0 <= i < n ==> resolved_name(order, #[trigger] requested[i]) is Some,
        forall|i: int|
            0 <= i < targets(order, requested, n).len() ==> #[trigger] facts_at(facts, i) is Some,
    ensures
        missing_names(order, requested, facts, n).len() == 0,
    decreases n,
{
    if n > 0 {
        let seen = targets(order, requested, n - 1);
        assert(seen.len() <= targets(order, requested, n).len());
        law_known_names_are_found(order, requested, facts, n - 1);
        assert(resolved_name(order, requested[n - 1]) is Some);
        let a = resolved_name(order, requested[n - 1])->0;
        if !seen.contains(a) {
            assert(targets(order, requested, n) == seen.push(a));
            assert(facts_at(facts, seen.len() as int) is Some);
        }
    }
}

/// The names that a request means are those that it gives, trimmed, without those of which nothing
/// is left, in their order and as often as they are given.
pub proof fn law_names_are_trimmed(names: Seq<Seq<char>>)
    ensures
        meant_names(names) == names.map_values(|s: Seq<char>| trimmed(s)).filter(
            |s: Seq<char>| s.len() > 0,
        ),
        forall|i: int|
            0 <= i < meant_names(names).len() ==> (#[trigger] meant_names(names)[i]).len() > 0
                && trimmed(meant_names(names)[i]) == meant_names(names)[i],
    decreases names.len(),
{
    reveal(Seq::filter);
    let t = |s: Seq<char>| trimmed(s);
    let f = |s: Seq<char>| s.len() > 0;
    if names.len() == 0 {
        assert(meant_names(names) =~= names.map_values(t).filter(f));
    } else {
        let rest = names.drop_last();
        law_names_are_trimmed(rest);
        assert(names.map_values(t).drop_last() =~= rest.map_values(t));
        assert(names.map_values(t).last() == trimmed(names.last()));
        lemma_trimmed_ends(names.last());
        let before = meant_names(rest);
        assert forall|i: int| 0 <= i < meant_names(names).len() implies (#[trigger] meant_names(
            names,
        )[i]).len() > 0 && trimmed(meant_names(names)[i]) == meant_names(names)[i] by {
            if i < before.len() {
                assert(meant_names(names)[i] == before[i]);
            }
        }
    }
}

/// A name stands for the first plugin of the load order that has it, the case of ASCII letters and
/// whitespace round it aside, and for none where no plugin has it.
pub proof fn law_what_a_name_stands_for(order: Seq<Seq<char>>, requested: Seq<char>)
    ensures
        resolved_name(order, requested) is Some <==> trimmed(requested).len() > 0 && is_named(
            order,
            trimmed(requested),
        ),
        resolved_name(order, requested) matches Some(a) ==> exists|p: int|
            #[trigger] stands_first(order, trimmed(requested), p) && a == order[p],
{
    let q = trimmed(requested);
    lemma_first_place(order, lowered(q));
    if let Some(p) = first_place(order, lowered(q)) {
        assert(lowered(order[p]) == lowered(q));
        assert(stands_first(order, q, p));
    }
}

/// Every plugin that a name stands for is queried, and nothing else is.
pub proof fn law_named_plugins_are_queried(order: Seq<Seq<char>>, requested: Seq<Seq<char>>, n: int)
    ensures
        forall|i: int|
            0 <= i < n ==> (resolved_name(order, #[trigger] requested[i]) matches Some(a)
                ==> targets(order, requested, n).contains(a)),
        forall|k: int|
            0 <= k < targets(order, requested, n).len() ==> exists|i: int|
                0 <= i < n && resolved_name(order, #[trigger] requested[i]) == Some(
                    #[trigger] targets(order, requested, n)[k],
                ),
        targets(order, requested, n).len() <= if n > 0 {
            n
        } else {
            0
        },
    decreases n,
{
    if n > 0 {
        law_named_plugins_are_queried(order, requested, n - 1);
        let before = targets(order, requested, n - 1);
        let now = targets(order, requested, n);
        assert forall|i: int| 0 <= i < n implies (resolved_name(order, #[trigger] requested[i])
            matches Some(a) ==> now.contains(a)) by {
            if let Some(a) = resolved_name(order, requested[i]) {
                if i < n - 1 {
                    let k = before.index_of(a);
                    assert(now[k] == a);
                } else if !before.contains(a) {
                    assert(now[before.len() as int] == a);
                }
            }
        }
        assert forall|k: int| 0 <= k < now.len() implies exists|i: int|
            0 <= i < n && resolved_name(order, #[trigger] requested[i]) == Some(
                #[trigger] now[k],
            ) by {
            if k < before.len() {
                assert(now[k] == before[k]);
                let i = choose|i: int|
                    0 <= i < n - 1 && resolved_name(order, #[trigger] requested[i]) == Some(
                        before[k],
                    );
                assert(resolved_name(order, requested[i]) == Some(now[k]));
            } else {
                assert(resolved_name(order, requested[n - 1]) == Some(now[k]));
            }
        }
    }
}

/// Plugins are queried in the order in which they are first named: naming more adds at the end.
pub proof fn law_naming_more_adds_at_the_end(
    order: Seq<Seq<char>>,
    requested: Seq<Seq<char>>,
    m: int,
    n: int,
)
    requires
        m <= n,
    ensures
        targets(order, requested, m).is_prefix_of(targets(order, requested, n)),
    decreases n,
{
    if m < n {
        if n > 0 {
            law_naming_more_adds_at_the_end(order, requested, m, n - 1);
            let a = targets(order, requested, m);
            let b = targets(order, requested, n - 1);
            let c = targets(order, requested, n);
            assert(b =~= c.take(b.len() as int));
            assert(a =~= c.take(a.len() as int));
        } else {
            assert(targets(order, requested, m) =~= targets(order, requested, n));
        }
    }
}

/// Every name that no plugin of the load order has is reported, as it was given, as often as it was
/// given, and in that order. The names are those that a request means: trimmed and not empty.
pub proof fn law_unknown_names_are_reported(
    order: Seq<Seq<char>>,
    requested: Seq<Seq<char>>,
    facts: Seq<Option<PluginFacts>>,
    n: int,
)
    requires
        0 <= n <= requested.len(),
        forall|i: int|
            0 <= i < n ==> (#[trigger] requested[i]).len() > 0 && trimmed(requested[i])
                == requested[i],
    ensures
        missing_names(order, requested, facts, n).filter(|m: Seq<char>| !is_named(order, m))
            == requested.take(n).filter(|m: Seq<char>| !is_named(order, m)),
    decreases n,
{
    reveal(Seq::filter);
    let unknown = |m: Seq<char>| !is_named(order, m);
    if n == 0 {
        assert(requested.take(0) =~= Seq::<Seq<char>>::empty());
        assert(missing_names(order, requested, facts, 0) =~= Seq::<Seq<char>>::empty());
    } else {
        law_unknown_names_are_reported(order, requested, facts, n - 1);
        let r = requested[n - 1];
        law_what_a_name_stands_for(order, r);
        assert(requested.take(n).drop_last() =~= requested.take(n - 1));
        assert(requested.take(n).last() == r);
        let before = missing_names(order, requested, facts, n - 1);
        assert(before.push(r).drop_last() =~= before);
        if let Some(a) = resolved_name(order, r) {
            assert(before.push(a).drop_last() =~= before);
            let p = choose|p: int| #[trigger] stands_first(order, trimmed(r), p) && a == order[p];
            assert(lowered(order[p]) == lowered(a));
            assert(!unknown(a));
        }
    }
}

/// Whether nothing is known of the plugins that are queried, one by one.
pub open spec fn unloaded(facts: Seq<Option<PluginFacts>>, n: int) -> Seq<bool> {
    Seq::new(
        if n > 0 {
            n as nat
        } else {
            0
        },
        |k: int| k >= facts.len() || facts[k] is None,
    )
}

/// Of the plugins that are queried exactly those of which nothing is known are reported as not found,
/// each once; beside the names that no plugin has, nothing else is.
pub proof fn law_unloaded_plugins_are_reported(
    order: Seq<Seq<char>>,
    requested: Seq<Seq<char>>,
    facts: Seq<Option<PluginFacts>>,
    n: int,
)
    requires
        0 <= n <= requested.len(),
        forall|i: int|
            0 <= i < n ==> (#[trigger] requested[i]).len() > 0 && trimmed(requested[i])
                == requested[i],
    ensures
        forall|k: int|
            0 <= k < targets(order, requested, n).len() ==> (missing_names(
                order,
                requested,
                facts,
                n,
            ).contains(#[trigger] targets(order, requested, n)[k]) <==> (k >= facts.len()
                || facts[k] is None)),
        missing_names(order, requested, facts, n).len() == requested.take(n).filter(
            |m: Seq<char>| !is_named(order, m),
        ).len() + unloaded(facts, targets(order, requested, n).len() as int).filter(|b: bool| b).len(),
    decreases n,
{
    reveal(Seq::filter);
    let unknown = |m: Seq<char>| !is_named(order, m);
    let yes = |b: bool| b;
    let now = targets(order, requested, n);
    let missing = missing_names(order, requested, facts, n);
    if n == 0 {
        assert(requested.take(0) =~= Seq::<Seq<char>>::empty());
        assert(unloaded(facts, 0) =~= Seq::<bool>::empty());
    } else {
        law_unloaded_plugins_are_reported(order, requested, facts, n - 1);
        law_plugins_are_queried_once(order, requested, n - 1);
        law_plugins_are_queried_once(order, requested, n);
        let r = requested[n - 1];
        law_what_a_name_stands_for(order, r);
        assert(requested.take(n).drop_last() =~= requested.take(n - 1));
        assert(requested.take(n).last() == r);
        let before = targets(order, requested, n - 1);
        let missing0 = missing_names(order, requested, facts, n - 1);
        let len = before.len() as int;
        assert(unloaded(facts, len + 1).drop_last() =~= unloaded(facts, len));
        assert forall|k: int| 0 <= k < now.len() implies (missing.contains(#[trigger] now[k]) <==> (k
            >= facts.len() || facts[k] is None)) by {
            let x = now[k];
            assert(order.contains(x));
            let q = order.index_of(x);
            assert(lowered(order[q]) == lowered(x));
            assert(is_named(order, x));
            if k < before.len() {
                assert(before[k] == x);
            } else {
                assert(!before.contains(x));
                assert(!missing0.contains(x)) by {
                    lemma_missing_are_seen_or_unknown(order, requested, facts, n - 1);
                    if missing0.contains(x) {
                        let m = missing0.index_of(x);
                        assert(!is_named(order, missing0[m]) || before.contains(missing0[m]));
                    }
                }
            }
            if missing != missing0 {
                assert(missing.drop_last() =~= missing0);
                if missing0.contains(x) {
                    let m = missing0.index_of(x);
                    assert(missing[m] == x);
                }
                if missing.contains(x) && missing.last() != x {
                    let m = missing.index_of(x);
                    assert(missing0[m] == x);
                }
                if missing.last() == x {
                    assert(missing[missing.len() - 1] == x);
                }
            }
        }
    }
}

/// What is reported as not found is a name that no plugin has or a plugin that is queried.
proof fn lemma_missing_are_seen_or_unknown(
    order: Seq<Seq<char>>,
    requested: Seq<Seq<char>>,
    facts: Seq<Option<PluginFacts>>,
    n: int,
)
    requires
        0 <= n <= requested.len(),
        forall|i: int|
            0 <= i < n ==> (#[trigger] requested[i]).len() > 0 && trimmed(requested[i])
                == requested[i],
    ensures
        forall|m: int|
            0 <= m < missing_names(order, requested, facts, n).len() ==> !is_named(
                order,
                #[trigger] missing_names(order, requested, facts, n)[m],
            ) || targets(order, requested, n).contains(missing_names(order, requested, facts, n)[m]),
    decreases n,
{
    if n > 0 {
        lemma_missing_are_seen_or_unknown(order, requested, facts, n - 1);
        let r = requested[n - 1];
        law_what_a_name_stands_for(order, r);
        law_named_plugins_are_queried(order, requested, n);
        let before = targets(order, requested, n - 1);
        let now = targets(order, requested, n);
        let missing0 = missing_names(order, requested, facts, n - 1);
        let missing = missing_names(order, requested, facts, n);
        assert forall|m: int| 0 <= m < missing.len() implies !is_named(
            order,
            #[trigger] missing[m],
        ) || now.contains(missing[m]) by {
            if m < missing0.len() {
                assert(missing[m] == missing0[m]);
                if before.contains(missing0[m]) {
                    let k = before.index_of(missing0[m]);
                    assert(now[k] == missing0[m]);
                }
            } else {
                assert(resolved_name(order, requested[n - 1]) is Some ==> now.contains(
                    resolved_name(order, requested[n - 1])->0,
                ));
            }
        }
    }
}

/// What the answer to a request for named plugins says, field by field. Of the names that the request
/// gives, trimmed and as far as anything is left of them, those that no plugin of the load order has
/// are all reported as not found.
pub proof fn law_query_answer(
    r: PluginMetadataResponse,
    prep: PreparedEval,
    req: EvalRequest,
    names: Seq<Seq<char>>,
    facts: Seq<Option<PluginFacts>>,
    libloot: BuildView,
)
    requires
        answers_query(r, prep, req, names, facts, libloot),
    ensures
        r.libloot_version@ == libloot.version,
        r.libloot_revision@ == libloot.revision,
        r.masterlist_path@ == prep.masterlist_path_str@,
        r.prelude_loaded == prep.prelude_loaded,
        r.userlist_loaded == prep.userlist_loaded,
        r.timings is None,
        r.error is None,
        ({
            let order = texts(prep.current@);
            let given_names = names.map_values(|s: Seq<char>| trimmed(s)).filter(
                |s: Seq<char>| s.len() > 0,
            );
            let asked = targets(order, given_names, given_names.len() as int);
            &&& texts(r.not_found@).filter(|m: Seq<char>| !is_named(order, m))
                == given_names.filter(|m: Seq<char>| !is_named(order, m))
            &&& forall|k: int|
                0 <= k < asked.len() ==> (texts(r.not_found@).contains(#[trigger] asked[k]) <==> (k
                    >= facts.len() || facts[k] is None))
            &&& plugin_views(r.plugins) == plugin_table(
                asked,
                facts,
                req.plugin_metadata_content,
                req.plugin_problems_include_requirements_load_after,
                asked.len() as int,
            )
        }),
{
    let order = texts(prep.current@);
    let requested = meant_names(names);
    law_names_are_trimmed(names);
    law_unknown_names_are_reported(order, requested, facts, requested.len() as int);
    law_unloaded_plugins_are_reported(order, requested, facts, requested.len() as int);
    assert(requested.take(requested.len() as int) =~= requested);
}

/// A request for named plugins fails exactly where it names none or no game could be prepared; that
/// it names none comes first.
pub proof fn law_query_failures(names: Seq<Seq<char>>, prep: Result<&PreparedEval, LootError>)
    ensures
        (forall|i: int| 0 <= i < names.len() ==> trimmed(#[trigger] names[i]).len() == 0)
            ==> query_failure(names, prep) == Some(ErrorView::NoPluginNames),
        (exists|i: int| 0 <= i < names.len() && trimmed(#[trigger] names[i]).len() > 0) ==> match prep {
            Ok(_) => query_failure(names, prep) is None,
            Err(e) => query_failure(names, prep) == Some(e@),
        },
{
    lemma_meant_names_empty(names);
}

/// No name is meant exactly where nothing is left of any.
proof fn lemma_meant_names_empty(names: Seq<Seq<char>>)
    ensures
        (forall|i: int| 0 <= i < names.len() ==> trimmed(#[trigger] names[i]).len() == 0)
            <==> meant_names(names).len() == 0,
    decreases names.len(),
{
    if names.len() > 0 {
        let rest = names.drop_last();
        lemma_meant_names_empty(rest);
        assert forall|i: int| 0 <= i < rest.len() implies rest[i] == #[trigger] names[i] by {}
        if forall|i: int| 0 <= i < rest.len() ==> trimmed(#[trigger] rest[i]).len() == 0 {
            assert(forall|i: int|
                0 <= i < names.len() - 1 ==> trimmed(#[trigger] names[i]).len() == 0);
        }
        if forall|i: int| 0 <= i < names.len() ==> trimmed(#[trigger] names[i]).len() == 0 {
            assert forall|i: int| 0 <= i < rest.len() implies trimmed(
                #[trigger] rest[i],
            ).len() == 0 by {
                assert(rest[i] == names[i]);
            }
            assert(trimmed(names[names.len() - 1]).len() == 0);
        }
        if meant_names(names).len() == 0 {
            assert forall|i: int| 0 <= i < names.len() implies trimmed(
                #[trigger] names[i],
            ).len() == 0 by {
                if i < rest.len() {
                    assert(rest[i] == names[i]);
                }
            }
        }
    }
}

/// What the answer to a request for named plugins that failed says: the failure alone.
pub proof fn law_failed_query(r: PluginMetadataResponse, msg: Seq<char>, libloot: BuildView)
    requires
        is_query_failure(r, msg, libloot),
    ensures
        opt_text(r.error) == Some(msg),
        r.libloot_version@ == libloot.version,
        r.libloot_revision@ == libloot.revision,
        r.masterlist_path@.len() == 0,
        !r.prelude_loaded && !r.userlist_loaded,
        r.plugins@.len() == 0,
        r.not_found@.len() == 0,
        r.timings is None,
{
}

/// What is reported as not found stands in the order of the request: naming more adds at the end.
pub proof fn law_reports_follow_the_request(
    order: Seq<Seq<char>>,
    requested: Seq<Seq<char>>,
    facts: Seq<Option<PluginFacts>>,
    m: int,
    n: int,
)
    requires
        m <= n,
    ensures
        missing_names(order, requested, facts, m).is_prefix_of(
            missing_names(order, requested, facts, n),
        ),
    decreases n,
{
    if m < n {
        if n > 0 {
            law_reports_follow_the_request(order, requested, facts, m, n - 1);
            let a = missing_names(order, requested, facts, m);
            let b = missing_names(order, requested, facts, n - 1);
            let c = missing_names(order, requested, facts, n);
            assert(b =~= c.take(b.len() as int));
            assert(a =~= c.take(a.len() as int));
        } else {
            assert(missing_names(order, requested, facts, m) =~= missing_names(
                order,
                requested,
                facts,
                n,
            ));
        }
    }
}

} // verus!
