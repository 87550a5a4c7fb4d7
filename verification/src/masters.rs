//! Checking that the masters of plugins are loaded, and before the plugins that need them.

use crate::text::{lowered, texts, to_ascii_lowercase};
use vstd::hash_map::StringHashMap;
use vstd::prelude::*;

verus! {

/// The place in a load order at which a name first occurs, the case of ASCII letters aside; `key`
/// is the name in lower case.
pub open spec fn first_place(order: Seq<Seq<char>>, key: Seq<char>) -> Option<int>
    decreases order.len(),
{
    if order.len() == 0 {
        None
    } else {
        match first_place(order.drop_last(), key) {
            Some(i) => Some(i),
            None => if lowered(order.last()) == key {
                Some(order.len() - 1)
            } else {
                None
            },
        }
    }
}

/// The first place is that of the name, and no earlier one is.
pub proof fn lemma_first_place(order: Seq<Seq<char>>, key: Seq<char>)
    ensures
        match first_place(order, key) {
            Some(p) => 0 <= p < order.len() && lowered(order[p]) == key && forall|i: int|
                0 <= i < p ==> lowered(#[trigger] order[i]) != key,
            None => forall|i: int| 0 <= i < order.len() ==> lowered(#[trigger] order[i]) != key,
        },
    decreases order.len(),
{
    if order.len() > 0 {
        let rest = order.drop_last();
        lemma_first_place(rest, key);
        assert forall|i: int| 0 <= i < rest.len() implies rest[i] == #[trigger] order[i] by {}
    }
}

/// The places of the names of a load order, by lower case name: of each name the first.
pub fn load_order_index_case_insensitive(current: &Vec<String>) -> (r: StringHashMap<usize>)
    ensures
        forall|key: Seq<char>| #[trigger]
            r@.contains_key(key) == (first_place(texts(current@), key) is Some),
        forall|key: Seq<char>| #[trigger]
            r@.contains_key(key) ==> first_place(texts(current@), key) == Some(r@[key] as int),
{
    let mut m: StringHashMap<usize> = StringHashMap::new();
    let ghost all = texts(current@);
    let mut i: usize = 0;
    while i < current.len()
        invariant
            i <= current@.len(),
            all == texts(current@),
            forall|key: Seq<char>| #[trigger]
                m@.contains_key(key) == (first_place(all.take(i as int), key) is Some),
            forall|key: Seq<char>| #[trigger]
                m@.contains_key(key) ==> first_place(all.take(i as int), key) == Some(
                    m@[key] as int,
                ),
        decreases current@.len() - i,
    {
        assert(all.take(i + 1).drop_last() =~= all.take(i as int));
        assert(all.take(i + 1).last() == current@[i as int]@);
        let key = to_ascii_lowercase(current[i].as_str());
        if !m.contains_key(key.as_str()) {
            m.insert(key, i);
        }
        i += 1;
    }
    assert(all.take(all.len() as int) =~= all);
    m
}

/// A plugin whose masters are missing or come too late.
#[derive(Debug)]
pub struct MasterHeaderIssueOut {
    pub plugin: String,
    pub missing_masters: Vec<String>,
    pub masters_after_plugin: Vec<String>,
}

/// [`MasterHeaderIssueOut`] with its texts as character sequences.
#[verifier::ext_equal]
pub struct IssueView {
    pub plugin: Seq<char>,
    pub missing_masters: Seq<Seq<char>>,
    pub masters_after_plugin: Seq<Seq<char>>,
}

impl View for MasterHeaderIssueOut {
    type V = IssueView;

    open spec fn view(&self) -> IssueView {
        IssueView {
            plugin: self.plugin@,
            missing_masters: texts(self.missing_masters@),
            masters_after_plugin: texts(self.masters_after_plugin@),
        }
    }
}

/// The views of a list of issues.
pub open spec fn issue_views(v: Seq<MasterHeaderIssueOut>) -> Seq<IssueView> {
    v.map_values(|m: MasterHeaderIssueOut| m@)
}

/// Whether a master is not in the load order.
pub open spec fn is_missing(order: Seq<Seq<char>>, master: Seq<char>) -> bool {
    first_place(order, lowered(master)) is None
}

/// Whether a master is in the load order, but not before a plugin.
pub open spec fn is_late(order: Seq<Seq<char>>, plugin: Seq<char>, master: Seq<char>) -> bool {
    match first_place(order, lowered(master)) {
        Some(i) => match first_place(order, lowered(plugin)) {
            Some(p) => p <= i,
            None => false,
        },
        None => false,
    }
}

/// What is wrong with the masters of a plugin.
pub open spec fn master_issue(
    order: Seq<Seq<char>>,
    plugin: Seq<char>,
    masters: Seq<Seq<char>>,
) -> IssueView {
    IssueView {
        plugin,
        missing_masters: masters.filter(|m: Seq<char>| is_missing(order, m)),
        masters_after_plugin: masters.filter(|m: Seq<char>| is_late(order, plugin, m)),
    }
}

/// The masters of the `i`-th plugin; none where they are not known.
pub open spec fn masters_of(masters: Seq<Option<Vec<String>>>, i: int) -> Seq<Seq<char>> {
    if i < masters.len() {
        match masters[i] {
            Some(v) => texts(v@),
            None => Seq::empty(),
        }
    } else {
        Seq::empty()
    }
}

/// What is wrong with the masters of the first `n` plugins, in the order of the plugins; plugins
/// with which nothing is wrong are left out.
pub open spec fn master_issues(
    order: Seq<Seq<char>>,
    masters: Seq<Option<Vec<String>>>,
    n: int,
) -> Seq<IssueView>
    decreases n,
{
    if n <= 0 {
        Seq::empty()
    } else {
        let before = master_issues(order, masters, n - 1);
        let issue = master_issue(order, order[n - 1], masters_of(masters, n - 1));
        if issue.missing_masters.len() == 0 && issue.masters_after_plugin.len() == 0 {
            before
        } else {
            before.push(issue)
        }
    }
}

/// Sorts the masters of a plugin into those that are missing and those that come too late.
fn sort_masters(
    index: &StringHashMap<usize>,
    Ghost(order): Ghost<Seq<Seq<char>>>,
    plugin: &String,
    place: usize,
    masters: &Vec<String>,
) -> (r: (Vec<String>, Vec<String>))
    requires
        forall|key: Seq<char>| #[trigger]
            index@.contains_key(key) == (first_place(order, key) is Some),
        forall|key: Seq<char>| #[trigger]
            index@.contains_key(key) ==> first_place(order, key) == Some(index@[key] as int),
        first_place(order, lowered(plugin@)) == Some(place as int),
    ensures
        texts(r.0@) == master_issue(order, plugin@, texts(masters@)).missing_masters,
        texts(r.1@) == master_issue(order, plugin@, texts(masters@)).masters_after_plugin,
{
    let mut missing: Vec<String> = Vec::new();
    let mut late: Vec<String> = Vec::new();
    let ghost all = texts(masters@);
    let ghost f = |m: Seq<char>| is_missing(order, m);
    let ghost g = |m: Seq<char>| is_late(order, plugin@, m);
    let mut i: usize = 0;
    proof {
        reveal(Seq::filter);
        assert(texts(missing@) =~= all.take(0).filter(f));
        assert(texts(late@) =~= all.take(0).filter(g));
    }
    while i < masters.len()
        invariant
            i <= masters@.len(),
            all == texts(masters@),
            f == (|m: Seq<char>| is_missing(order, m)),
            g == (|m: Seq<char>| is_late(order, plugin@, m)),
            forall|key: Seq<char>| #[trigger]
                index@.contains_key(key) == (first_place(order, key) is Some),
            forall|key: Seq<char>| #[trigger]
                index@.contains_key(key) ==> first_place(order, key) == Some(index@[key] as int),
            first_place(order, lowered(plugin@)) == Some(place as int),
            texts(missing@) == all.take(i as int).filter(f),
            texts(late@) == all.take(i as int).filter(g),
        decreases masters@.len() - i,
    {
        let ghost m0 = texts(missing@);
        let ghost l0 = texts(late@);
        proof {
            reveal(Seq::filter);
            assert(all.take(i + 1).drop_last() =~= all.take(i as int));
            assert(all.take(i + 1).last() == masters@[i as int]@);
        }
        let m = masters[i].clone();
        let key = to_ascii_lowercase(m.as_str());
        assert(index@.contains_key(key@) == (first_place(order, key@) is Some));
        match index.get(key.as_str()) {
            None => {
                missing.push(m);
                assert(texts(missing@) =~= m0.push(m@));
            },
            Some(mi) => {
                if *mi >= place {
                    late.push(m);
                    assert(texts(late@) =~= l0.push(m@));
                }
            },
        }
        i += 1;
    }
    assert(all.take(all.len() as int) =~= all);
    (missing, late)
}

/// What is wrong with the masters of the plugins of a load order. `masters` holds the masters of
/// each plugin, in the order of the plugins, where they are known.
pub fn collect_master_header_issues(
    current: &Vec<String>,
    masters: &Vec<Option<Vec<String>>>,
) -> (r: Vec<MasterHeaderIssueOut>)
    ensures
        issue_views(r@) == master_issues(texts(current@), masters@, current@.len() as int),
        forall|i: int, j: int|
            0 <= i < current@.len() && i < masters@.len() && masters@[i] is Some && 0 <= j
                < masters@[i]->0@.len() && !is_named(
                texts(current@),
                (#[trigger] masters@[i]->0@[j])@,
            ) ==> reports_missing(r@, current@[i]@, masters@[i]->0@[j]@),
        forall|i: int, j: int|
            0 <= i < current@.len() && i < masters@.len() && masters@[i] is Some && 0 <= j
                < masters@[i]->0@.len() && comes_too_late(
                texts(current@),
                current@[i]@,
                (#[trigger] masters@[i]->0@[j])@,
            ) ==> reports_late(r@, current@[i]@, masters@[i]->0@[j]@),
{
    let index = load_order_index_case_insensitive(current);
    let ghost order = texts(current@);
    let mut out: Vec<MasterHeaderIssueOut> = Vec::new();
    let mut i: usize = 0;
    assert(issue_views(out@) =~= master_issues(order, masters@, 0));
    while i < current.len()
        invariant
            i <= current@.len(),
            order == texts(current@),
            forall|key: Seq<char>| #[trigger]
                index@.contains_key(key) == (first_place(order, key) is Some),
            forall|key: Seq<char>| #[trigger]
                index@.contains_key(key) ==> first_place(order, key) == Some(index@[key] as int),
            issue_views(out@) == master_issues(order, masters@, i as int),
        decreases current@.len() - i,
    {
        let ghost before = issue_views(out@);
        let ghost named = masters_of(masters@, i as int);
        let name = &current[i];
        assert(order[i as int] == name@);
        proof {
            lemma_no_masters(order, order[i as int]);
            lemma_first_place(order, lowered(name@));
        }
        if i < masters.len() {
            if let Some(list) = &masters[i] {
                assert(named == texts(list@));
                if list.len() > 0 {
                    let key = to_ascii_lowercase(name.as_str());
                    assert(index@.contains_key(key@) == (first_place(order, key@) is Some));
                    if let Some(place) = index.get(key.as_str()) {
                        let (missing_masters, masters_after_plugin) = sort_masters(
                            &index,
                            Ghost(order),
                            name,
                            *place,
                            list,
                        );
                        assert(texts(missing_masters@).len() == missing_masters@.len());
                        assert(texts(masters_after_plugin@).len() == masters_after_plugin@.len());
                        if missing_masters.len() > 0 || masters_after_plugin.len() > 0 {
                            let issue = MasterHeaderIssueOut {
                                plugin: name.clone(),
                                missing_masters,
                                masters_after_plugin,
                            };
                            out.push(issue);
                            assert(issue_views(out@) =~= before.push(issue@));
                            assert(issue@ =~= master_issue(order, order[i as int], named));
                        }
                    }
                } else {
                    assert(named =~= Seq::<Seq<char>>::empty());
                }
            }
        }
        i += 1;
    }
    proof {
        lemma_issues_reported(current@, masters@, out@);
    }
    out
}

/// Whether a master is reported as missing for a plugin.
pub open spec fn reports_missing(
    issues: Seq<MasterHeaderIssueOut>,
    plugin: Seq<char>,
    master: Seq<char>,
) -> bool {
    exists|k: int|
        0 <= k < issues.len() && (#[trigger] issues[k]).plugin@ == plugin && texts(
            issues[k].missing_masters@,
        ).contains(master)
}

/// Whether a master is reported as late for a plugin.
pub open spec fn reports_late(
    issues: Seq<MasterHeaderIssueOut>,
    plugin: Seq<char>,
    master: Seq<char>,
) -> bool {
    exists|k: int|
        0 <= k < issues.len() && (#[trigger] issues[k]).plugin@ == plugin && texts(
            issues[k].masters_after_plugin@,
        ).contains(master)
}

/// Every master that is missing or late is reported for the plugin that needs it.
proof fn lemma_issues_reported(
    current: Seq<String>,
    masters: Seq<Option<Vec<String>>>,
    r: Seq<MasterHeaderIssueOut>,
)
    requires
        issue_views(r) == master_issues(texts(current), masters, current.len() as int),
    ensures
        forall|i: int, j: int|
            0 <= i < current.len() && i < masters.len() && masters[i] is Some && 0 <= j
                < masters[i]->0@.len() && !is_named(
                texts(current),
                (#[trigger] masters[i]->0@[j])@,
            ) ==> reports_missing(r, current[i]@, masters[i]->0@[j]@),
        forall|i: int, j: int|
            0 <= i < current.len() && i < masters.len() && masters[i] is Some && 0 <= j
                < masters[i]->0@.len() && comes_too_late(
                texts(current),
                current[i]@,
                (#[trigger] masters[i]->0@[j])@,
            ) ==> reports_late(r, current[i]@, masters[i]->0@[j]@),
{
    let order = texts(current);
    let places = law_issues_are_complete(order, masters, current.len() as int);
    assert forall|i: int, j: int|
        0 <= i < current.len() && i < masters.len() && masters[i] is Some && 0 <= j
            < masters[i]->0@.len() && (!is_named(order, (#[trigger] masters[i]->0@[j])@)
            || comes_too_late(order, current[i]@, masters[i]->0@[j]@)) implies (!is_named(
        order,
        masters[i]->0@[j]@,
    ) ==> reports_missing(r, current[i]@, masters[i]->0@[j]@)) && (comes_too_late(
        order,
        current[i]@,
        masters[i]->0@[j]@,
    ) ==> reports_late(r, current[i]@, masters[i]->0@[j]@)) by {
        assert(order[i] == current[i]@);
        assert(has_bad_master(order, masters, i));
        let k = places.index_of(i);
        let named = texts(masters[i]->0@);
        law_issue_of_a_plugin(order, order[i], named);
        assert(named[j] == masters[i]->0@[j]@);
        assert(issue_views(r)[k] == r[k]@);
        assert(r[k].plugin@ == current[i]@);
    }
}

/// A plugin without masters has no issue.
proof fn lemma_no_masters(order: Seq<Seq<char>>, plugin: Seq<char>)
    ensures
        master_issue(order, plugin, Seq::empty()).missing_masters.len() == 0,
        master_issue(order, plugin, Seq::empty()).masters_after_plugin.len() == 0,
{
    reveal(Seq::filter);
}

/// Nothing is left of a sequence none of whose items passes.
proof fn lemma_filter_none(s: Seq<Seq<char>>, f: spec_fn(Seq<char>) -> bool)
    requires
        forall|i: int| 0 <= i < s.len() ==> !f(#[trigger] s[i]),
    ensures
        s.filter(f).len() == 0,
    decreases s.len(),
{
    reveal(Seq::filter);
    if s.len() > 0 {
        assert forall|i: int| 0 <= i < s.drop_last().len() implies !f(
            #[trigger] s.drop_last()[i],
        ) by {
            assert(s.drop_last()[i] == s[i]);
        }
        lemma_filter_none(s.drop_last(), f);
        assert(!f(s[s.len() - 1]));
    }
}

/// A load order in which every master comes before every plugin that needs it has no issues.
pub proof fn law_sound_order_has_no_issues(
    order: Seq<Seq<char>>,
    masters: Seq<Option<Vec<String>>>,
    n: int,
)
    requires
        n <= order.len(),
        forall|i: int, j: int|
            0 <= i < n && 0 <= j < masters_of(masters, i).len() ==> !is_missing(
                order,
                #[trigger] masters_of(masters, i)[j],
            ) && !is_late(order, order[i], masters_of(masters, i)[j]),
    ensures
        master_issues(order, masters, n).len() == 0,
    decreases n,
{
    if n > 0 {
        law_sound_order_has_no_issues(order, masters, n - 1);
        let named = masters_of(masters, n - 1);
        lemma_filter_none(named, |m: Seq<char>| is_missing(order, m));
        lemma_filter_none(named, |m: Seq<char>| is_late(order, order[n - 1], m));
    }
}

/// Everything that is left of a sequence passes and was there.
proof fn lemma_filter_member(s: Seq<Seq<char>>, f: spec_fn(Seq<char>) -> bool, i: int)
    requires
        0 <= i < s.filter(f).len(),
    ensures
        f(s.filter(f)[i]),
        s.contains(s.filter(f)[i]),
    decreases s.len(),
{
    reveal(Seq::filter);
    let rest = s.drop_last();
    if i < rest.filter(f).len() {
        lemma_filter_member(rest, f, i);
        let j = rest.index_of(rest.filter(f)[i]);
        assert(s[j] == rest.filter(f)[i]);
    } else {
        assert(s[s.len() - 1] == s.filter(f)[i]);
    }
}

/// What is reported of a plugin is true: each master reported missing is one of its masters and no
/// plugin of the load order has its name, and each master reported late is one of its masters.
pub proof fn law_reported_masters(
    order: Seq<Seq<char>>,
    plugin: Seq<char>,
    masters: Seq<Seq<char>>,
    i: int,
)
    ensures
        0 <= i < master_issue(order, plugin, masters).missing_masters.len() ==> ({
            let m = master_issue(order, plugin, masters).missing_masters[i];
            masters.contains(m) && forall|j: int|
                0 <= j < order.len() ==> lowered(#[trigger] order[j]) != lowered(m)
        }),
        0 <= i < master_issue(order, plugin, masters).masters_after_plugin.len() ==> ({
            let m = master_issue(order, plugin, masters).masters_after_plugin[i];
            masters.contains(m) && is_late(order, plugin, m)
        }),
{
    let f = |m: Seq<char>| is_missing(order, m);
    let g = |m: Seq<char>| is_late(order, plugin, m);
    if 0 <= i < masters.filter(f).len() {
        lemma_filter_member(masters, f, i);
        lemma_first_place(order, lowered(masters.filter(f)[i]));
    }
    if 0 <= i < masters.filter(g).len() {
        lemma_filter_member(masters, g, i);
    }
}

/// Whether a plugin of the load order has a name, the case of ASCII letters aside.
pub open spec fn is_named(order: Seq<Seq<char>>, name: Seq<char>) -> bool {
    exists|j: int| 0 <= j < order.len() && lowered(#[trigger] order[j]) == lowered(name)
}

/// Whether `p` is the first place at which a name stands in the load order.
pub open spec fn stands_first(order: Seq<Seq<char>>, name: Seq<char>, p: int) -> bool {
    &&& 0 <= p < order.len()
    &&& lowered(order[p]) == lowered(name)
    &&& forall|j: int| 0 <= j < p ==> lowered(#[trigger] order[j]) != lowered(name)
}

/// Whether a master is in the load order, but not before the plugin that needs it.
pub open spec fn comes_too_late(
    order: Seq<Seq<char>>,
    plugin: Seq<char>,
    master: Seq<char>,
) -> bool {
    exists|p: int, m: int|
        #[trigger] stands_first(order, plugin, p) && #[trigger] stands_first(order, master, m) && p
            <= m
}

/// A name has a first place exactly where a plugin of the load order has it.
proof fn lemma_stands_first(order: Seq<Seq<char>>, name: Seq<char>)
    ensures
        match first_place(order, lowered(name)) {
            Some(p) => stands_first(order, name, p) && is_named(order, name),
            None => !is_named(order, name),
        },
        forall|p: int, q: int|
            #[trigger] stands_first(order, name, p) && #[trigger] stands_first(order, name, q) ==> p
                == q,
{
    lemma_first_place(order, lowered(name));
    if let Some(p) = first_place(order, lowered(name)) {
        assert(lowered(order[p]) == lowered(name));
    }
}

/// What the two tests of a master mean.
proof fn lemma_master_tests(order: Seq<Seq<char>>, plugin: Seq<char>, master: Seq<char>)
    ensures
        is_missing(order, master) == !is_named(order, master),
        is_late(order, plugin, master) == comes_too_late(order, plugin, master),
{
    lemma_stands_first(order, plugin);
    lemma_stands_first(order, master);
    if is_late(order, plugin, master) {
        let p = first_place(order, lowered(plugin))->0;
        let m = first_place(order, lowered(master))->0;
        assert(stands_first(order, plugin, p) && stands_first(order, master, m) && p <= m);
    }
    if comes_too_late(order, plugin, master) {
        let (p, m) = choose|p: int, m: int|
            #[trigger] stands_first(order, plugin, p) && #[trigger] stands_first(order, master, m)
                && p <= m;
        assert(lowered(order[p]) == lowered(plugin));
        assert(lowered(order[m]) == lowered(master));
    }
}

/// Filters that let the same items through leave the same.
proof fn lemma_filter_same(
    s: Seq<Seq<char>>,
    f: spec_fn(Seq<char>) -> bool,
    g: spec_fn(Seq<char>) -> bool,
)
    requires
        forall|x: Seq<char>| #[trigger] f(x) == g(x),
    ensures
        s.filter(f) == s.filter(g),
    decreases s.len(),
{
    reveal(Seq::filter);
    if s.len() > 0 {
        lemma_filter_same(s.drop_last(), f, g);
        assert(f(s.last()) == g(s.last()));
    }
}

/// What passes a filter is in what the filter leaves.
proof fn lemma_filter_keeps(s: Seq<Seq<char>>, f: spec_fn(Seq<char>) -> bool, j: int)
    requires
        0 <= j < s.len(),
        f(s[j]),
    ensures
        s.filter(f).contains(s[j]),
    decreases s.len(),
{
    reveal(Seq::filter);
    let rest = s.drop_last();
    if j < rest.len() {
        assert(rest[j] == s[j]);
        lemma_filter_keeps(rest, f, j);
        let k = rest.filter(f).index_of(s[j]);
        assert(s.filter(f)[k] == s[j]);
    } else {
        assert(s.filter(f)[rest.filter(f).len() as int] == s[j]);
    }
}

/// What is reported of one plugin: of its masters, in their order, those whose name no plugin of the
/// load order has, and those that do not come before it.
pub proof fn law_issue_of_a_plugin(
    order: Seq<Seq<char>>,
    plugin: Seq<char>,
    masters: Seq<Seq<char>>,
)
    ensures
        ({
            let issue = master_issue(order, plugin, masters);
            &&& issue.plugin == plugin
            &&& issue.missing_masters == masters.filter(|m: Seq<char>| !is_named(order, m))
            &&& issue.masters_after_plugin == masters.filter(
                |m: Seq<char>| comes_too_late(order, plugin, m),
            )
            &&& forall|j: int|
                0 <= j < masters.len() && !is_named(order, #[trigger] masters[j])
                    ==> issue.missing_masters.contains(masters[j])
            &&& forall|j: int|
                0 <= j < masters.len() && comes_too_late(order, plugin, #[trigger] masters[j])
                    ==> issue.masters_after_plugin.contains(masters[j])
        }),
{
    let f = |m: Seq<char>| is_missing(order, m);
    let f2 = |m: Seq<char>| !is_named(order, m);
    let g = |m: Seq<char>| is_late(order, plugin, m);
    let g2 = |m: Seq<char>| comes_too_late(order, plugin, m);
    assert forall|m: Seq<char>| #[trigger] f(m) == f2(m) by {
        lemma_master_tests(order, plugin, m);
    }
    assert forall|m: Seq<char>| #[trigger] g(m) == g2(m) by {
        lemma_master_tests(order, plugin, m);
    }
    lemma_filter_same(masters, f, f2);
    lemma_filter_same(masters, g, g2);
    assert forall|j: int| 0 <= j < masters.len() && !is_named(
        order,
        #[trigger] masters[j],
    ) implies masters.filter(f2).contains(masters[j]) by {
        lemma_filter_keeps(masters, f2, j);
    }
    assert forall|j: int| 0 <= j < masters.len() && comes_too_late(
        order,
        plugin,
        #[trigger] masters[j],
    ) implies masters.filter(g2).contains(masters[j]) by {
        lemma_filter_keeps(masters, g2, j);
    }
}

/// Whether something is wrong with a master of the plugin at a place.
pub open spec fn has_bad_master(
    order: Seq<Seq<char>>,
    masters: Seq<Option<Vec<String>>>,
    i: int,
) -> bool {
    exists|j: int|
        0 <= j < masters[i]->0@.len() && (!is_named(order, (#[trigger] masters[i]->0@[j])@)
            || comes_too_late(order, order[i], masters[i]->0@[j]@))
}

/// The issues are complete and in the order of the load order: there is one for each plugin that has
/// a master that is missing or comes too late, it is that plugin's, and there are no others. The
/// result is the places of the plugins that are reported.
pub proof fn law_issues_are_complete(
    order: Seq<Seq<char>>,
    masters: Seq<Option<Vec<String>>>,
    n: int,
) -> (places: Seq<int>)
    requires
        0 <= n <= order.len(),
    ensures
        places.len() == master_issues(order, masters, n).len(),
        forall|k: int, l: int| 0 <= k < l < places.len() ==> places[k] < places[l],
        forall|k: int|
            0 <= k < places.len() ==> 0 <= #[trigger] places[k] < n && places[k] < masters.len()
                && masters[places[k]] is Some && master_issues(order, masters, n)[k]
                == master_issue(order, order[places[k]], texts(masters[places[k]]->0@))
                && has_bad_master(order, masters, places[k]),
        forall|i: int|
            0 <= i < n && i < masters.len() && #[trigger] masters[i] is Some && has_bad_master(
                order,
                masters,
                i,
            ) ==> places.contains(i),
    decreases n,
{
    if n == 0 {
        Seq::empty()
    } else {
        let before = law_issues_are_complete(order, masters, n - 1);
        let i = n - 1;
        let named = masters_of(masters, i);
        let issue = master_issue(order, order[i], named);
        law_issue_of_a_plugin(order, order[i], named);
        lemma_no_masters(order, order[i]);
        if issue.missing_masters.len() == 0 && issue.masters_after_plugin.len() == 0 {
            if i < masters.len() && masters[i] is Some && has_bad_master(order, masters, i) {
                let j = choose|j: int|
                    0 <= j < masters[i]->0@.len() && (!is_named(
                        order,
                        (#[trigger] masters[i]->0@[j])@,
                    ) || comes_too_late(order, order[i], masters[i]->0@[j]@));
                assert(named[j] == masters[i]->0@[j]@);
                assert(!is_named(order, named[j]) || comes_too_late(order, order[i], named[j]));
            }
            assert forall|x: int|
                0 <= x < n && x < masters.len() && #[trigger] masters[x] is Some && has_bad_master(
                    order,
                    masters,
                    x,
                ) implies before.contains(x) by {}
            before
        } else {
            let places = before.push(i);
            assert(i < masters.len() && masters[i] is Some) by {
                if !(i < masters.len() && masters[i] is Some) {
                    assert(named =~= Seq::<Seq<char>>::empty());
                }
            }
            assert(has_bad_master(order, masters, i)) by {
                let f = |m: Seq<char>| !is_named(order, m);
                let g = |m: Seq<char>| comes_too_late(order, order[i], m);
                let bad = if issue.missing_masters.len() > 0 {
                    lemma_filter_member(named, f, 0);
                    issue.missing_masters[0]
                } else {
                    lemma_filter_member(named, g, 0);
                    issue.masters_after_plugin[0]
                };
                let j = named.index_of(bad);
                assert(named[j] == masters[i]->0@[j]@);
            }
            assert forall|x: int|
                0 <= x < n && x < masters.len() && #[trigger] masters[x] is Some && has_bad_master(
                    order,
                    masters,
                    x,
                ) implies places.contains(x) by {
                if x == i {
                    assert(places[before.len() as int] == i);
                } else {
                    let k = before.index_of(x);
                    assert(places[k] == x);
                }
            }
            places
        }
    }
}

/// The views of issues leave nothing out.
pub proof fn law_issue_views(m: MasterHeaderIssueOut, v: Seq<MasterHeaderIssueOut>)
    ensures
        m@.plugin == m.plugin@,
        m@.missing_masters == texts(m.missing_masters@),
        m@.masters_after_plugin == texts(m.masters_after_plugin@),
        issue_views(v).len() == v.len(),
        forall|i: int| 0 <= i < v.len() ==> #[trigger] issue_views(v)[i] == v[i]@,
{
}

} // verus!
