//! Answering a request for an evaluation.

use crate::cache::PrepCacheTag;
use crate::errors::{error_text, ErrorView, LootError};
use crate::masters::{
    collect_master_header_issues, issue_views, master_issues, masters_of, IssueView,
    MasterHeaderIssueOut,
};
use crate::messages::{
    at_least_views, filter_general_messages, law_general_messages, least_rank,
    lemma_at_least_views, message_views, messages_out, msg_views, shown, Message, MessageType,
    MessageView, MsgOut, MsgView,
};
use crate::metadata::{
    bare_plugin, base_plugin_out, evaluated, fill_plugin_metadata_output, gives_reason,
    law_header_is_shown, law_problems_alone, law_whole_metadata, problems, with_metadata,
    MetadataView, PluginHeader, PluginMetadata, PluginOut, PluginView,
};
use crate::names::NameMap;
use crate::paging::{law_pages_cover, page, page_out, plugin_names_page, PluginMetadataPageOut};
use crate::request::{EvalRequest, GeneralMessageMinSeverity, PluginMetadataContent};
use crate::text::{copy_texts, opt_text, texts};
use crate::timings::{
    is_cache_word, is_timings, opt_timings, timings_out, TimingsView, ToolTimingsOut,
};
use crate::version::{BuildView, LibLootBuild};
use vstd::prelude::*;

verus! {

/// What is known of a game once its lists and its load order are loaded and the headers of its
/// plugins are read.
#[derive(Debug)]
pub struct PreparedEval {
    pub current: Vec<String>,
    pub masterlist_path_str: String,
    pub prelude_loaded: bool,
    pub userlist_loaded: bool,
}

/// The answer to a request for an evaluation.
#[derive(Debug)]
pub struct EvalResponse {
    pub libloot_version: String,
    pub libloot_revision: String,
    pub masterlist_path: String,
    pub prelude_loaded: bool,
    pub userlist_loaded: bool,
    pub load_order_current: Vec<String>,
    pub load_order_suggested: Vec<String>,
    pub load_order_ambiguous: Option<bool>,
    pub general_messages: Vec<MsgOut>,
    pub plugins: NameMap<PluginOut>,
    pub master_header_issues: Vec<MasterHeaderIssueOut>,
    pub plugin_metadata_page: Option<PluginMetadataPageOut>,
    pub evaluate_note: Option<String>,
    pub timings: Option<ToolTimingsOut>,
    pub error: Option<String>,
}

/// [`EvalResponse`] with its texts as character sequences.
#[verifier::ext_equal]
pub struct EvalView {
    pub libloot_version: Seq<char>,
    pub libloot_revision: Seq<char>,
    pub masterlist_path: Seq<char>,
    pub prelude_loaded: bool,
    pub userlist_loaded: bool,
    pub load_order_current: Seq<Seq<char>>,
    pub load_order_suggested: Seq<Seq<char>>,
    pub load_order_ambiguous: Option<bool>,
    pub general_messages: Seq<MsgView>,
    pub plugins: Map<Seq<char>, PluginView>,
    pub master_header_issues: Seq<IssueView>,
    pub plugin_metadata_page: Option<PluginMetadataPageOut>,
    pub evaluate_note: Option<Seq<char>>,
    pub timings: Option<TimingsView>,
    pub error: Option<Seq<char>>,
}

impl View for EvalResponse {
    type V = EvalView;

    open spec fn view(&self) -> EvalView {
        EvalView {
            libloot_version: self.libloot_version@,
            libloot_revision: self.libloot_revision@,
            masterlist_path: self.masterlist_path@,
            prelude_loaded: self.prelude_loaded,
            userlist_loaded: self.userlist_loaded,
            load_order_current: texts(self.load_order_current@),
            load_order_suggested: texts(self.load_order_suggested@),
            load_order_ambiguous: self.load_order_ambiguous,
            general_messages: msg_views(self.general_messages@),
            plugins: plugin_views(self.plugins),
            master_header_issues: issue_views(self.master_header_issues@),
            plugin_metadata_page: self.plugin_metadata_page,
            evaluate_note: opt_text(self.evaluate_note),
            timings: opt_timings(self.timings),
            error: opt_text(self.error),
        }
    }
}

/// Why LOOT's database gave no answer.
#[derive(Debug)]
pub enum QueryError {
    LockPoisoned,
    Failed(String),
}

/// What libloot says of a plugin that is loaded.
#[derive(Debug)]
pub struct PluginFacts {
    pub header: PluginHeader,
    pub metadata: Result<Option<PluginMetadata>, String>,
}

/// What libloot answers to an evaluation.
#[derive(Debug)]
pub struct RunAnswers {
    /// Whether the load order is ambiguous.
    pub ambiguous: Result<bool, String>,
    /// The current load order, sorted. It is looked at only where a suggested order is asked for.
    pub sorted: Result<Vec<String>, String>,
    pub general_messages: Result<Vec<Message>, QueryError>,
    /// The masters of each plugin of the current load order, where the plugin is loaded and they
    /// are known. They are looked at only where master issues are asked for.
    pub masters: Vec<Option<Vec<String>>>,
    /// What is known of each plugin on the page of metadata; nothing, where a plugin is not loaded.
    pub plugins: Vec<Option<PluginFacts>>,
}

impl RunAnswers {
    /// The answers where nothing could be asked.
    pub fn none() -> (r: RunAnswers)
        ensures
            r.ambiguous == Ok::<bool, String>(false),
            r.sorted matches Ok(v) && v@.len() == 0,
            r.general_messages matches Ok(v) && v@.len() == 0,
            r.masters@.len() == 0,
            r.plugins@.len() == 0,
    {
        RunAnswers {
            ambiguous: Ok(false),
            sorted: Ok(Vec::new()),
            general_messages: Ok(Vec::new()),
            masters: Vec::new(),
            plugins: Vec::new(),
        }
    }
}

/// Which failure of libloot ends an evaluation: the first in the order in which it is asked.
pub open spec fn run_failure(req: EvalRequest, answers: RunAnswers) -> Option<ErrorView> {
    if let Err(e) = answers.ambiguous {
        Some(ErrorView::Ambiguity(e@))
    } else if req.include_load_order_suggested && answers.sorted is Err {
        Some(ErrorView::Sort(answers.sorted->Err_0@))
    } else if let Err(e) = answers.general_messages {
        match e {
            QueryError::LockPoisoned => Some(ErrorView::DatabaseLock),
            QueryError::Failed(s) => Some(ErrorView::GeneralMessages(s@)),
        }
    } else {
        None
    }
}

/// What libloot is asked in the course of an evaluation.
#[derive(Debug, Clone, Copy, PartialEq, Eq, Structural)]
pub enum RunQuestion {
    /// Whether the load order is ambiguous; it is asked first.
    Ambiguity,
    /// The sorted load order.
    Sorting,
    GeneralMessages,
    /// The masters of the plugins of the load order.
    Masters,
    /// The headers and the metadata of the plugins on the page of metadata.
    Plugins,
    /// Nothing more.
    Done,
}

/// The first question that a request has after the general messages.
pub open spec fn after_messages(req: EvalRequest) -> RunQuestion {
    if req.include_master_header_issues {
        RunQuestion::Masters
    } else if req.include_plugin_metadata {
        RunQuestion::Plugins
    } else {
        RunQuestion::Done
    }
}

/// What is asked after a question: nothing once one has failed; otherwise the next question whose
/// answer the request wants.
pub open spec fn question_after(req: EvalRequest, after: RunQuestion, failed: bool) -> RunQuestion {
    if failed {
        RunQuestion::Done
    } else {
        match after {
            RunQuestion::Ambiguity => if req.include_load_order_suggested {
                RunQuestion::Sorting
            } else {
                RunQuestion::GeneralMessages
            },
            RunQuestion::Sorting => RunQuestion::GeneralMessages,
            RunQuestion::GeneralMessages => after_messages(req),
            RunQuestion::Masters => if req.include_plugin_metadata {
                RunQuestion::Plugins
            } else {
                RunQuestion::Done
            },
            RunQuestion::Plugins => RunQuestion::Done,
            RunQuestion::Done => RunQuestion::Done,
        }
    }
}

/// What to ask libloot next.
pub fn next_question(req: &EvalRequest, after: RunQuestion, failed: bool) -> (r: RunQuestion)
    ensures
        r == question_after(*req, after, failed),
        failed ==> r == RunQuestion::Done,
        r == RunQuestion::Sorting ==> req.include_load_order_suggested,
        r == RunQuestion::Masters ==> req.include_master_header_issues,
        r == RunQuestion::Plugins ==> req.include_plugin_metadata,
{
    if failed {
        return RunQuestion::Done;
    }
    match after {
        RunQuestion::Ambiguity => if req.include_load_order_suggested {
            RunQuestion::Sorting
        } else {
            RunQuestion::GeneralMessages
        },
        RunQuestion::Sorting => RunQuestion::GeneralMessages,
        RunQuestion::GeneralMessages => if req.include_master_header_issues {
            RunQuestion::Masters
        } else if req.include_plugin_metadata {
            RunQuestion::Plugins
        } else {
            RunQuestion::Done
        },
        RunQuestion::Masters => if req.include_plugin_metadata {
            RunQuestion::Plugins
        } else {
            RunQuestion::Done
        },
        RunQuestion::Plugins | RunQuestion::Done => RunQuestion::Done,
    }
}

/// Whether libloot failed to answer a question.
pub open spec fn answer_failed(answers: RunAnswers, q: RunQuestion) -> bool {
    match q {
        RunQuestion::Ambiguity => answers.ambiguous is Err,
        RunQuestion::Sorting => answers.sorted is Err,
        RunQuestion::GeneralMessages => answers.general_messages is Err,
        _ => false,
    }
}

/// Whether a question is asked on the way from `from` to the end, given the answers.
pub open spec fn is_asked(
    req: EvalRequest,
    answers: RunAnswers,
    from: RunQuestion,
    q: RunQuestion,
) -> bool
    decreases questions_left(from),
{
    from == q || (from != RunQuestion::Done && is_asked(
        req,
        answers,
        question_after(req, from, answer_failed(answers, from)),
        q,
    ))
}

/// How many questions may follow a question.
pub open spec fn questions_left(q: RunQuestion) -> nat {
    match q {
        RunQuestion::Ambiguity => 5,
        RunQuestion::Sorting => 4,
        RunQuestion::GeneralMessages => 3,
        RunQuestion::Masters => 2,
        RunQuestion::Plugins => 1,
        RunQuestion::Done => 0,
    }
}

/// What is known of the `i`-th plugin on a page.
pub open spec fn facts_at(facts: Seq<Option<PluginFacts>>, i: int) -> Option<PluginFacts> {
    if 0 <= i < facts.len() {
        facts[i]
    } else {
        None
    }
}

/// What is shown of a plugin, where it is shown.
pub open spec fn plugin_shown(
    content: PluginMetadataContent,
    include_req_la: bool,
    facts: Option<PluginFacts>,
) -> Option<PluginView> {
    match facts {
        Some(f) => with_metadata(
            content,
            include_req_la,
            bare_plugin(f.header),
            evaluated(f.metadata),
        ),
        None => None,
    }
}

/// The first `n` plugins of a page by name, as far as they are shown.
pub open spec fn plugin_table(
    names: Seq<Seq<char>>,
    facts: Seq<Option<PluginFacts>>,
    content: PluginMetadataContent,
    include_req_la: bool,
    n: int,
) -> Map<Seq<char>, PluginView>
    decreases n,
{
    if n <= 0 {
        Map::empty()
    } else {
        let before = plugin_table(names, facts, content, include_req_la, n - 1);
        match plugin_shown(content, include_req_la, facts_at(facts, n - 1)) {
            Some(p) => before.insert(names[n - 1], p),
            None => before,
        }
    }
}

/// The views of the plugins in an answer.
pub open spec fn plugin_views(m: NameMap<PluginOut>) -> Map<Seq<char>, PluginView> {
    m@.map_values(|p: PluginOut| p@)
}

/// What is shown of a plugin, where it is shown.
pub fn show_plugin(
    content: PluginMetadataContent,
    include_req_la: bool,
    facts: Option<PluginFacts>,
) -> (r: Option<PluginOut>)
    ensures
        crate::metadata::opt_plugin(r) == plugin_shown(content, include_req_la, facts),
        facts is None ==> r is None,
        r matches Some(p) ==> p.active == Some(facts->0.header.active) && p.version
            == facts->0.header.version && p.header_version_bits
            == facts->0.header.header_version_bits && p.crc == facts->0.header.crc && p.is_master
            == facts->0.header.is_master && p.is_light == facts->0.header.is_light
            && p.bash_tags_in_plugin_header == facts->0.header.bash_tags,
{
    match facts {
        Some(f) => {
            let base = base_plugin_out(f.header);
            fill_plugin_metadata_output(content, include_req_la, base, f.metadata)
        },
        None => None,
    }
}

/// Plugins by name, as far as they are shown; `facts` holds what is known of each of `names`, in
/// their order.
pub fn collect_plugins(
    names: &Vec<String>,
    facts: Vec<Option<PluginFacts>>,
    content: PluginMetadataContent,
    include_req_la: bool,
) -> (r: NameMap<PluginOut>)
    ensures
        plugin_views(r) == plugin_table(
            texts(names@),
            facts@,
            content,
            include_req_la,
            names@.len() as int,
        ),
{
    let mut out: NameMap<PluginOut> = NameMap::new();
    let ghost all = facts@;
    let ghost total = names@.len() as int;
    let mut i: usize = 0;
    assert(plugin_views(out) =~= Map::<Seq<char>, PluginView>::empty());
    for f in it: facts
        invariant
            it.seq() == all,
            i == if it.index() < total {
                it.index()
            } else {
                total
            },
            names@.len() == total,
            plugin_views(out) == plugin_table(
                texts(names@),
                all,
                content,
                include_req_la,
                i as int,
            ),
    {
        if i < names.len() {
            let ghost before = plugin_views(out);
            assert(facts_at(all, i as int) == f);
            if let Some(p) = show_plugin(content, include_req_la, f) {
                out.insert(names[i].clone(), p);
                assert(plugin_views(out) =~= before.insert(names@[i as int]@, p@));
            }
            i += 1;
        }
    }
    proof {
        lemma_table_end(texts(names@), all, content, include_req_la, i as int, total);
    }
    out
}

/// Plugins of which nothing is known add nothing.
proof fn lemma_table_end(
    names: Seq<Seq<char>>,
    facts: Seq<Option<PluginFacts>>,
    content: PluginMetadataContent,
    include_req_la: bool,
    from: int,
    n: int,
)
    requires
        0 <= from <= n,
        from < n ==> facts.len() <= from,
    ensures
        plugin_table(names, facts, content, include_req_la, n) == plugin_table(
            names,
            facts,
            content,
            include_req_la,
            from,
        ),
    decreases n,
{
    if from < n {
        lemma_table_end(names, facts, content, include_req_la, from, n - 1);
    }
}

/// The note of an answer for which the plugins were not sorted.
pub open spec fn unsorted_note() -> Seq<char> {
    "load_order_suggested equals load_order_current; sort_plugins was skipped (include_load_order_suggested: false)."@
}

/// The page of metadata that a request asks for.
pub open spec fn metadata_names(req: EvalRequest, current: Seq<Seq<char>>) -> Seq<Seq<char>> {
    if req.include_plugin_metadata {
        page(current, req.plugin_metadata_offset as int, req.plugin_metadata_limit)
    } else {
        Seq::empty()
    }
}

/// The plugins whose metadata has to be evaluated for a request.
pub fn metadata_page_names(req: &EvalRequest, current: &Vec<String>) -> (r: Vec<String>)
    ensures
        texts(r@) == metadata_names(*req, texts(current@)),
{
    let mut out: Vec<String> = Vec::new();
    if req.include_plugin_metadata {
        let names = plugin_names_page(
            current,
            req.plugin_metadata_offset,
            req.plugin_metadata_limit,
        );
        let ghost want = page(
            texts(current@),
            req.plugin_metadata_offset as int,
            req.plugin_metadata_limit,
        );
        let mut i: usize = 0;
        while i < names.len()
            invariant
                i <= names@.len() == want.len(),
                forall|j: int| 0 <= j < names@.len() ==> (#[trigger] names@[j])@ == want[j],
                out@.len() == i,
                forall|j: int| 0 <= j < i ==> (#[trigger] out@[j])@ == want[j],
            decreases names@.len() - i,
        {
            out.push(names[i].clone());
            i += 1;
        }
    }
    assert(texts(out@) =~= metadata_names(*req, texts(current@)));
    out
}

/// What an answer says when the evaluation succeeds.
pub open spec fn answers_request(
    r: EvalResponse,
    prep: PreparedEval,
    req: EvalRequest,
    answers: RunAnswers,
    libloot: BuildView,
) -> bool {
    let current = texts(prep.current@);
    let names = metadata_names(req, current);
    &&& r.libloot_version@ == libloot.version
    &&& r.libloot_revision@ == libloot.revision
    &&& r.masterlist_path@ == prep.masterlist_path_str@
    &&& r.prelude_loaded == prep.prelude_loaded
    &&& r.userlist_loaded == prep.userlist_loaded
    &&& texts(r.load_order_current@) == current
    &&& texts(r.load_order_suggested@) == if req.include_load_order_suggested {
        texts(answers.sorted->Ok_0@)
    } else {
        current
    }
    &&& opt_text(r.evaluate_note) == if req.include_load_order_suggested {
        None
    } else {
        Some(unsorted_note())
    }
    &&& r.load_order_ambiguous == Some(answers.ambiguous->Ok_0)
    &&& msg_views(r.general_messages@) == at_least_views(
        message_views(answers.general_messages->Ok_0@).map_values(|m: MessageView| shown(m)),
        least_rank(req.general_messages_min_severity),
    )
    &&& issue_views(r.master_header_issues@) == if req.include_master_header_issues {
        master_issues(current, answers.masters@, current.len() as int)
    } else {
        Seq::empty()
    }
    &&& plugin_views(r.plugins) == plugin_table(
        names,
        answers.plugins@,
        req.plugin_metadata_content,
        req.plugin_problems_include_requirements_load_after,
        names.len() as int,
    )
    &&& match r.plugin_metadata_page {
        Some(p) => req.include_plugin_metadata && p.total == current.len() && p.offset
            == req.plugin_metadata_offset && p.returned == names.len() && p.has_more == (
        req.plugin_metadata_offset + names.len() < current.len()),
        None => !req.include_plugin_metadata,
    }
    &&& r.timings is None
    &&& r.error is None
}

/// What evaluating a prepared game gives: the first failure, or the answer.
pub open spec fn is_run_result(
    r: Result<EvalResponse, LootError>,
    prep: PreparedEval,
    req: EvalRequest,
    answers: RunAnswers,
    libloot: BuildView,
) -> bool {
    match r {
        Ok(out) => run_failure(req, answers) is None && answers_request(
            out,
            prep,
            req,
            answers,
            libloot,
        ),
        Err(e) => run_failure(req, answers) == Some(e@),
    }
}

/// Evaluates a prepared game, given libloot's answers and what libloot says of itself.
pub fn run(
    prep: &PreparedEval,
    req: &EvalRequest,
    answers: RunAnswers,
    libloot: &LibLootBuild,
) -> (r: Result<EvalResponse, LootError>)
    ensures
        is_run_result(r, *prep, *req, answers, libloot@),
{
    let ambiguous = match answers.ambiguous {
        Ok(b) => b,
        Err(e) => {
            return Err(LootError::Ambiguity(e));
        },
    };
    let (load_order_suggested, evaluate_note) = if req.include_load_order_suggested {
        match answers.sorted {
            Ok(v) => (v, None),
            Err(e) => {
                return Err(LootError::Sort(e));
            },
        }
    } else {
        (
            copy_texts(&prep.current),
            Some(
                "load_order_suggested equals load_order_current; sort_plugins was skipped (include_load_order_suggested: false).".to_owned(),
            ),
        )
    };
    let gen = match answers.general_messages {
        Ok(v) => v,
        Err(QueryError::LockPoisoned) => {
            return Err(LootError::DatabaseLock);
        },
        Err(QueryError::Failed(e)) => {
            return Err(LootError::GeneralMessages(e));
        },
    };
    let all_messages = messages_out(&gen);
    proof {
        lemma_at_least_views(
            all_messages@,
            least_rank(req.general_messages_min_severity),
        );
    }
    let general_messages = filter_general_messages(
        all_messages,
        req.general_messages_min_severity,
    );
    let master_header_issues = if req.include_master_header_issues {
        collect_master_header_issues(&prep.current, &answers.masters)
    } else {
        let none: Vec<MasterHeaderIssueOut> = Vec::new();
        assert(issue_views(none@) =~= Seq::<IssueView>::empty());
        none
    };
    let mut plugin_metadata_page: Option<PluginMetadataPageOut> = None;
    let plugins: NameMap<PluginOut> = if req.include_plugin_metadata {
        let names = metadata_page_names(req, &prep.current);
        assert(texts(names@).len() == names@.len());
        plugin_metadata_page = Some(
            page_out(prep.current.len(), req.plugin_metadata_offset, names.len()),
        );
        collect_plugins(
            &names,
            answers.plugins,
            req.plugin_metadata_content,
            req.plugin_problems_include_requirements_load_after,
        )
    } else {
        let none: NameMap<PluginOut> = NameMap::new();
        assert(plugin_views(none) =~= Map::<Seq<char>, PluginView>::empty());
        none
    };
    Ok(
        EvalResponse {
            libloot_version: libloot.version.clone(),
            libloot_revision: libloot.revision.clone(),
            masterlist_path: prep.masterlist_path_str.clone(),
            prelude_loaded: prep.prelude_loaded,
            userlist_loaded: prep.userlist_loaded,
            load_order_current: copy_texts(&prep.current),
            load_order_suggested,
            load_order_ambiguous: Some(ambiguous),
            general_messages,
            plugins,
            master_header_issues,
            plugin_metadata_page,
            evaluate_note,
            timings: None,
            error: None,
        },
    )
}

/// An answer that says nothing but what went wrong.
pub open spec fn is_failure(r: EvalResponse, msg: Seq<char>, libloot: BuildView) -> bool {
    &&& r.libloot_version@ == libloot.version
    &&& r.libloot_revision@ == libloot.revision
    &&& r.masterlist_path@ == Seq::<char>::empty()
    &&& !r.prelude_loaded
    &&& !r.userlist_loaded
    &&& r.load_order_current@.len() == 0
    &&& r.load_order_suggested@.len() == 0
    &&& r.load_order_ambiguous is None
    &&& r.general_messages@.len() == 0
    &&& r.plugins@ == Map::<Seq<char>, PluginOut>::empty()
    &&& r.master_header_issues@.len() == 0
    &&& r.plugin_metadata_page is None
    &&& r.evaluate_note is None
    &&& r.timings is None
    &&& opt_text(r.error) == Some(msg)
}

/// The answer to a request that failed.
pub fn empty_eval_response_error(msg: String, libloot: &LibLootBuild) -> (r: EvalResponse)
    ensures
        is_failure(r, msg@, libloot@),
{
    EvalResponse {
        libloot_version: libloot.version.clone(),
        libloot_revision: libloot.revision.clone(),
        masterlist_path: String::new(),
        prelude_loaded: false,
        userlist_loaded: false,
        load_order_current: Vec::new(),
        load_order_suggested: Vec::new(),
        load_order_ambiguous: None,
        general_messages: Vec::new(),
        plugins: NameMap::new(),
        master_header_issues: Vec::new(),
        plugin_metadata_page: None,
        evaluate_note: None,
        timings: None,
        error: Some(msg),
    }
}

/// Answers a request for an evaluation, given the prepared game, or why there is none, libloot's
/// answers and what libloot says of itself. Failures are reported in the answer.
pub fn evaluate(
    req: &EvalRequest,
    prep: Result<&PreparedEval, LootError>,
    answers: RunAnswers,
    libloot: &LibLootBuild,
) -> (r: EvalResponse)
    ensures
        match prep {
            Err(e) => is_failure(r, error_text(e@), libloot@),
            Ok(p) => match run_failure(*req, answers) {
                Some(e) => is_failure(r, error_text(e), libloot@),
                None => answers_request(r, *p, *req, answers, libloot@),
            },
        },
        r.error is Some <==> prep is Err || run_failure(*req, answers) is Some,
        r.timings is None,
{
    let p = match prep {
        Ok(p) => p,
        Err(e) => {
            return empty_eval_response_error(e.message(), libloot);
        },
    };
    match run(p, req, answers, libloot) {
        Ok(out) => out,
        Err(e) => empty_eval_response_error(e.message(), libloot),
    }
}

impl EvalResponse {
    /// Whether this answer reports a failure.
    pub fn is_error(&self) -> (r: bool)
        ensures
            r == (self.error is Some),
    {
        self.error.is_some()
    }

    /// This answer with its timings, where they are asked for. They always say how the call came
    /// by its prepared game; nothing else in the answer depends on them.
    pub fn with_timings(
        self,
        wanted: bool,
        total_ms: u64,
        tag: PrepCacheTag,
        phases_ms: NameMap<u64>,
    ) -> (r: EvalResponse)
        ensures
            r == (EvalResponse { timings: r.timings, ..self }),
            is_timings(r.timings, wanted, total_ms, Some(tag), phases_ms),
            r.timings is Some <==> wanted,
            r.timings matches Some(t) ==> is_cache_word(opt_text(t.prep_cache)),
    {
        let mut out = self;
        out.timings = timings_out(wanted, total_ms, Some(tag), phases_ms);
        out
    }
}

/// Only plugins of the page are shown.
pub proof fn law_shown_plugins_are_on_the_page(
    names: Seq<Seq<char>>,
    facts: Seq<Option<PluginFacts>>,
    content: PluginMetadataContent,
    include_req_la: bool,
    n: int,
    name: Seq<char>,
)
    requires
        n <= names.len(),
        plugin_table(names, facts, content, include_req_la, n).contains_key(name),
    ensures
        names.contains(name),
    decreases n,
{
    if n > 0 {
        if plugin_table(names, facts, content, include_req_la, n - 1).contains_key(name) {
            law_shown_plugins_are_on_the_page(
                names,
                facts,
                content,
                include_req_la,
                n - 1,
                name,
            );
        } else {
            assert(names[n - 1] == name);
        }
    }
}

/// Where problems alone are asked for, every plugin in the answer has one.
pub proof fn law_problem_pages_show_problems(
    names: Seq<Seq<char>>,
    facts: Seq<Option<PluginFacts>>,
    include_req_la: bool,
    n: int,
    name: Seq<char>,
)
    requires
        plugin_table(
            names,
            facts,
            PluginMetadataContent::Problems,
            include_req_la,
            n,
        ).contains_key(name),
    ensures
        ({
            let p = plugin_table(
                names,
                facts,
                PluginMetadataContent::Problems,
                include_req_la,
                n,
            )[name];
            p.metadata_problems is Some && !crate::metadata::no_problems(p.metadata_problems->0)
        }),
    decreases n,
{
    if n > 0 {
        let before = plugin_table(
            names,
            facts,
            PluginMetadataContent::Problems,
            include_req_la,
            n - 1,
        );
        if before.contains_key(name) {
            law_problem_pages_show_problems(names, facts, include_req_la, n - 1, name);
        }
    }
}

/// What is known of a plugin, with its texts as character sequences.
pub open spec fn facts_view(facts: Option<PluginFacts>) -> Option<
    (PluginView, Result<Option<MetadataView>, Seq<char>>),
> {
    match facts {
        Some(f) => Some((bare_plugin(f.header), evaluated(f.metadata))),
        None => None,
    }
}

/// Two lists that say the same of each plugin give the same table.
proof fn lemma_same_table(
    names: Seq<Seq<char>>,
    a: Seq<Option<PluginFacts>>,
    b: Seq<Option<PluginFacts>>,
    content: PluginMetadataContent,
    include_req_la: bool,
    n: int,
)
    requires
        forall|i: int|
            0 <= i < n ==> facts_view(#[trigger] facts_at(a, i)) == facts_view(facts_at(b, i)),
    ensures
        plugin_table(names, a, content, include_req_la, n) == plugin_table(
            names,
            b,
            content,
            include_req_la,
            n,
        ),
    decreases n,
{
    if n > 0 {
        lemma_same_table(names, a, b, content, include_req_la, n - 1);
        assert(facts_view(facts_at(a, n - 1)) == facts_view(facts_at(b, n - 1)));
    }
}

/// Two lists that say the same of the masters of each plugin give the same issues.
proof fn lemma_same_issues(
    order: Seq<Seq<char>>,
    a: Seq<Option<Vec<String>>>,
    b: Seq<Option<Vec<String>>>,
    n: int,
)
    requires
        forall|i: int| 0 <= i < n ==> #[trigger] masters_of(a, i) == masters_of(b, i),
    ensures
        master_issues(order, a, n) == master_issues(order, b, n),
    decreases n,
{
    if n > 0 {
        lemma_same_issues(order, a, b, n - 1);
        assert(masters_of(a, n - 1) == masters_of(b, n - 1));
    }
}

/// Whether two sets of answers say the same of the game, the metadata of its plugins aside.
pub open spec fn same_game(a: RunAnswers, b: RunAnswers) -> bool {
    &&& match (a.ambiguous, b.ambiguous) {
        (Ok(x), Ok(y)) => x == y,
        (Err(x), Err(y)) => x@ == y@,
        _ => false,
    }
    &&& match (a.sorted, b.sorted) {
        (Ok(x), Ok(y)) => texts(x@) == texts(y@),
        (Err(x), Err(y)) => x@ == y@,
        _ => false,
    }
    &&& match (a.general_messages, b.general_messages) {
        (Ok(x), Ok(y)) => message_views(x@) == message_views(y@),
        (Err(QueryError::LockPoisoned), Err(QueryError::LockPoisoned)) => true,
        (Err(QueryError::Failed(x)), Err(QueryError::Failed(y))) => x@ == y@,
        _ => false,
    }
    &&& forall|i: int| 0 <= i ==> #[trigger] masters_of(a.masters@, i) == masters_of(b.masters@, i)
}

/// Whether a list holds, for each plugin of a page, what `read` says of it.
pub open spec fn gathered(
    facts: Seq<Option<PluginFacts>>,
    names: Seq<Seq<char>>,
    read: spec_fn(Seq<char>) -> Option<(PluginView, Result<Option<MetadataView>, Seq<char>>)>,
) -> bool {
    forall|i: int|
        0 <= i < names.len() ==> facts_view(#[trigger] facts_at(facts, i)) == read(names[i])
}

/// Whether two evaluations ended in the same way: with the same answer, field by field, or with the
/// same failure.
pub open spec fn same_result(
    a: Result<EvalResponse, LootError>,
    b: Result<EvalResponse, LootError>,
) -> bool {
    match (a, b) {
        (Ok(x), Ok(y)) => x@ == y@,
        (Err(x), Err(y)) => x@ == y@ && error_text(x@) == error_text(y@),
        _ => false,
    }
}

/// It makes no difference whether the metadata of the plugins is evaluated in parallel or one
/// plugin after the other: as long as the game says the same of each plugin, two evaluations of one
/// request end in the same way. `read` is what the game says of each plugin.
pub proof fn law_parallel_and_sequential_agree(
    prep: PreparedEval,
    req: EvalRequest,
    libloot: BuildView,
    parallel: RunAnswers,
    sequential: RunAnswers,
    read: spec_fn(Seq<char>) -> Option<(PluginView, Result<Option<MetadataView>, Seq<char>>)>,
    a: Result<EvalResponse, LootError>,
    b: Result<EvalResponse, LootError>,
)
    requires
        same_game(parallel, sequential),
        gathered(parallel.plugins@, metadata_names(req, texts(prep.current@)), read),
        gathered(sequential.plugins@, metadata_names(req, texts(prep.current@)), read),
        is_run_result(a, prep, req, parallel, libloot),
        is_run_result(b, prep, req, sequential, libloot),
    ensures
        same_result(a, b),
{
    let current = texts(prep.current@);
    let names = metadata_names(req, current);
    assert(run_failure(req, parallel) == run_failure(req, sequential));
    lemma_same_issues(current, parallel.masters@, sequential.masters@, current.len() as int);
    lemma_same_table(
        names,
        parallel.plugins@,
        sequential.plugins@,
        req.plugin_metadata_content,
        req.plugin_problems_include_requirements_load_after,
        names.len() as int,
    );
    if let (Ok(x), Ok(y)) = (a, b) {
        assert(x@ =~= y@);
    }
}

/// The table of two runs of plugins, one after the other, is that of both together; of a plugin
/// that is in both the second counts.
pub proof fn law_tables_add_up(
    first: Seq<Seq<char>>,
    second: Seq<Seq<char>>,
    first_facts: Seq<Option<PluginFacts>>,
    second_facts: Seq<Option<PluginFacts>>,
    content: PluginMetadataContent,
    include_req_la: bool,
    n: int,
)
    requires
        first_facts.len() == first.len(),
        0 <= n <= second.len(),
    ensures
        plugin_table(
            first + second,
            first_facts + second_facts,
            content,
            include_req_la,
            first.len() + n,
        ) == plugin_table(
            first,
            first_facts,
            content,
            include_req_la,
            first.len() as int,
        ).union_prefer_right(
            plugin_table(second, second_facts, content, include_req_la, n),
        ),
    decreases n,
{
    let names = first + second;
    let facts = first_facts + second_facts;
    let one = plugin_table(first, first_facts, content, include_req_la, first.len() as int);
    if n == 0 {
        lemma_table_prefix(
            first,
            names,
            first_facts,
            facts,
            content,
            include_req_la,
            first.len() as int,
        );
        assert(one.union_prefer_right(Map::<Seq<char>, PluginView>::empty()) =~= one);
    } else {
        law_tables_add_up(
            first,
            second,
            first_facts,
            second_facts,
            content,
            include_req_la,
            n - 1,
        );
        let at = first.len() + n - 1;
        assert(names[at] == second[n - 1]);
        assert(facts_at(facts, at) == facts_at(second_facts, n - 1));
        let two = plugin_table(second, second_facts, content, include_req_la, n - 1);
        if let Some(p) = plugin_shown(content, include_req_la, facts_at(second_facts, n - 1)) {
            assert(one.union_prefer_right(two).insert(second[n - 1], p)
                =~= one.union_prefer_right(two.insert(second[n - 1], p)));
        }
    }
}

/// A table depends only on the plugins that it covers.
proof fn lemma_table_prefix(
    a: Seq<Seq<char>>,
    b: Seq<Seq<char>>,
    a_facts: Seq<Option<PluginFacts>>,
    b_facts: Seq<Option<PluginFacts>>,
    content: PluginMetadataContent,
    include_req_la: bool,
    n: int,
)
    requires
        forall|i: int| 0 <= i < n ==> #[trigger] a[i] == b[i],
        forall|i: int| 0 <= i < n ==> #[trigger] facts_at(a_facts, i) == facts_at(b_facts, i),
    ensures
        plugin_table(a, a_facts, content, include_req_la, n) == plugin_table(
            b,
            b_facts,
            content,
            include_req_la,
            n,
        ),
    decreases n,
{
    if n > 0 {
        lemma_table_prefix(a, b, a_facts, b_facts, content, include_req_la, n - 1);
        assert(a[n - 1] == b[n - 1]);
        assert(facts_at(a_facts, n - 1) == facts_at(b_facts, n - 1));
    }
}

/// The plugins of a page and those of all that comes after it make up the plugins from the start of
/// the page on.
pub proof fn law_pages_of_plugins_add_up(
    current: Seq<Seq<char>>,
    offset: int,
    limit: u32,
    page_facts: Seq<Option<PluginFacts>>,
    rest_facts: Seq<Option<PluginFacts>>,
    content: PluginMetadataContent,
    include_req_la: bool,
)
    requires
        0 <= offset,
        page_facts.len() == page(current, offset, Some(limit)).len(),
    ensures
        ({
            let one = page(current, offset, Some(limit));
            let two = page(current, offset + limit, None);
            let all = page(current, offset, None);
            plugin_table(
                all,
                page_facts + rest_facts,
                content,
                include_req_la,
                all.len() as int,
            ) == plugin_table(
                one,
                page_facts,
                content,
                include_req_la,
                one.len() as int,
            ).union_prefer_right(
                plugin_table(two, rest_facts, content, include_req_la, two.len() as int),
            )
        }),
{
    let one = page(current, offset, Some(limit));
    let two = page(current, offset + limit, None);
    law_pages_cover(current, offset, limit);
    law_tables_add_up(
        one,
        two,
        page_facts,
        rest_facts,
        content,
        include_req_la,
        two.len() as int,
    );
}

/// The questions lead to the failure that ends an evaluation, or through all that the request wants:
/// a question is asked exactly where the request wants its answer and none before it failed.
pub proof fn law_questions_asked(req: EvalRequest, answers: RunAnswers)
    ensures
        ({
            let asked = |q: RunQuestion| is_asked(req, answers, RunQuestion::Ambiguity, q);
            &&& asked(RunQuestion::Ambiguity)
            &&& asked(RunQuestion::Sorting) == (answers.ambiguous is Ok
                && req.include_load_order_suggested)
            &&& asked(RunQuestion::GeneralMessages) == (answers.ambiguous is Ok && (
            req.include_load_order_suggested ==> answers.sorted is Ok))
            &&& asked(RunQuestion::Masters) == (run_failure(req, answers) is None
                && req.include_master_header_issues)
            &&& asked(RunQuestion::Plugins) == (run_failure(req, answers) is None
                && req.include_plugin_metadata)
            &&& asked(RunQuestion::Done)
        }),
{
    reveal_with_fuel(is_asked, 7);
}

/// Answers to questions that are not asked do not matter: two evaluations of one request whose
/// answers agree on every question that is asked end in the same way.
pub proof fn law_unasked_answers_do_not_matter(
    prep: PreparedEval,
    req: EvalRequest,
    libloot: BuildView,
    one: RunAnswers,
    two: RunAnswers,
    a: Result<EvalResponse, LootError>,
    b: Result<EvalResponse, LootError>,
)
    requires
        one.ambiguous == two.ambiguous,
        is_asked(req, one, RunQuestion::Ambiguity, RunQuestion::Sorting) ==> one.sorted
            == two.sorted,
        is_asked(req, one, RunQuestion::Ambiguity, RunQuestion::GeneralMessages)
            ==> one.general_messages == two.general_messages,
        is_asked(req, one, RunQuestion::Ambiguity, RunQuestion::Masters) ==> one.masters
            == two.masters,
        is_asked(req, one, RunQuestion::Ambiguity, RunQuestion::Plugins) ==> one.plugins
            == two.plugins,
        is_run_result(a, prep, req, one, libloot),
        is_run_result(b, prep, req, two, libloot),
    ensures
        same_result(a, b),
{
    law_questions_asked(req, one);
    assert(run_failure(req, one) == run_failure(req, two));
    if let (Ok(x), Ok(y)) = (a, b) {
        assert(x@ =~= y@);
    }
}

/// The views of the plugins in an answer leave none out.
pub proof fn law_plugin_views(m: NameMap<PluginOut>, name: Seq<char>)
    ensures
        plugin_views(m).contains_key(name) == m@.contains_key(name),
        m@.contains_key(name) ==> plugin_views(m)[name] == m@[name]@,
{
}

/// Plugins of which nothing is known are not shown, and nothing else is.
pub proof fn law_unknown_plugins_are_not_shown(
    names: Seq<Seq<char>>,
    facts: Seq<Option<PluginFacts>>,
    content: PluginMetadataContent,
    include_req_la: bool,
    n: int,
    name: Seq<char>,
)
    requires
        forall|i: int|
            0 <= i < n && #[trigger] names[i] == name ==> i >= facts.len() || facts[i] is None,
    ensures
        !plugin_table(names, facts, content, include_req_la, n).contains_key(name),
    decreases n,
{
    if n > 0 {
        law_unknown_plugins_are_not_shown(names, facts, content, include_req_la, n - 1, name);
        if names[n - 1] == name {
            assert(facts_at(facts, n - 1) is None);
        }
    }
}

/// The entry of a plugin in a table is decided by what is known of that plugin alone.
proof fn lemma_table_entry(
    names: Seq<Seq<char>>,
    facts: Seq<Option<PluginFacts>>,
    content: PluginMetadataContent,
    include_req_la: bool,
    n: int,
    i: int,
)
    requires
        0 <= i < n,
        forall|j: int| 0 <= j < n && j != i ==> #[trigger] names[j] != names[i],
    ensures
        ({
            let table = plugin_table(names, facts, content, include_req_la, n);
            match plugin_shown(content, include_req_la, facts_at(facts, i)) {
                Some(p) => table.contains_key(names[i]) && table[names[i]] == p,
                None => !table.contains_key(names[i]),
            }
        }),
    decreases n,
{
    if i < n - 1 {
        lemma_table_entry(names, facts, content, include_req_la, n - 1, i);
        assert(names[n - 1] != names[i]);
    } else {
        lemma_not_in_table(names, facts, content, include_req_la, n - 1, names[i]);
    }
}

/// A name that is not on a page is not in its table.
proof fn lemma_not_in_table(
    names: Seq<Seq<char>>,
    facts: Seq<Option<PluginFacts>>,
    content: PluginMetadataContent,
    include_req_la: bool,
    n: int,
    name: Seq<char>,
)
    requires
        forall|j: int| 0 <= j < n ==> #[trigger] names[j] != name,
    ensures
        !plugin_table(names, facts, content, include_req_la, n).contains_key(name),
    decreases n,
{
    if n > 0 {
        lemma_not_in_table(names, facts, content, include_req_la, n - 1, name);
        assert(names[n - 1] != name);
    }
}

/// Whether a plugin is shown with what its header says.
pub open spec fn shows_header(p: PluginView, h: PluginHeader) -> bool {
    &&& p.active == Some(h.active)
    &&& p.version == opt_text(h.version)
    &&& p.header_version_bits == h.header_version_bits
    &&& p.crc == h.crc
    &&& p.is_master == h.is_master
    &&& p.is_light == h.is_light
    &&& p.bash_tags_in_plugin_header == texts(h.bash_tags@)
}

/// What an answer says of a plugin on its page that is loaded. With whole metadata every such plugin
/// is there, with its header and its YAML. With problems alone it is there exactly where its metadata
/// gives reason to or could not be evaluated, with its header and its problems.
pub proof fn law_plugin_entries(
    names: Seq<Seq<char>>,
    facts: Seq<Option<PluginFacts>>,
    content: PluginMetadataContent,
    include_req_la: bool,
    n: int,
    i: int,
)
    requires
        0 <= i < n <= names.len(),
        i < facts.len(),
        facts[i] is Some,
        forall|j: int| 0 <= j < n && j != i ==> #[trigger] names[j] != names[i],
    ensures
        ({
            let table = plugin_table(names, facts, content, include_req_la, n);
            let f = facts[i]->0;
            let p = table[names[i]];
            &&& table.contains_key(names[i]) <==> (content == PluginMetadataContent::Full
                || f.metadata is Err || (f.metadata matches Ok(Some(m)) && gives_reason(
                m,
                include_req_la,
            )))
            &&& table.contains_key(names[i]) ==> shows_header(p, f.header)
            &&& content == PluginMetadataContent::Full ==> p.metadata_problems is None
                && p.metadata_yaml == match f.metadata {
                Ok(Some(m)) => m.yaml@,
                Ok(None) => Seq::empty(),
                Err(e) => "# metadata error: "@ + e@,
            }
            &&& content == PluginMetadataContent::Problems && table.contains_key(names[i])
                ==> p.metadata_yaml.len() == 0 && p.metadata_problems is Some
            &&& content == PluginMetadataContent::Problems ==> (f.metadata matches Ok(Some(m)) ==> (
            table.contains_key(names[i]) ==> p.metadata_problems == Some(
                problems(m@, include_req_la),
            )))
        }),
{
    let f = facts[i]->0;
    lemma_table_entry(names, facts, content, include_req_la, n, i);
    assert(facts_at(facts, i) == Some(f));
    law_header_is_shown(f.header);
    law_whole_metadata(bare_plugin(f.header), f.metadata, include_req_la);
    law_problems_alone(bare_plugin(f.header), f.metadata, include_req_la);
}

/// The plugins whose metadata is evaluated are those of the page that is asked for, and none unless
/// metadata is asked for.
pub proof fn law_plugins_evaluated(req: EvalRequest, current: Seq<Seq<char>>)
    ensures
        !req.include_plugin_metadata ==> metadata_names(req, current).len() == 0,
        req.include_plugin_metadata ==> metadata_names(req, current) == page(
            current,
            req.plugin_metadata_offset as int,
            req.plugin_metadata_limit,
        ),
{
}

/// What an answer to an evaluation says, field by field.
pub proof fn law_evaluation_answer(
    r: EvalResponse,
    prep: PreparedEval,
    req: EvalRequest,
    answers: RunAnswers,
    libloot: BuildView,
)
    requires
        answers_request(r, prep, req, answers, libloot),
    ensures
        r.libloot_version@ == libloot.version,
        r.libloot_revision@ == libloot.revision,
        r.masterlist_path@ == prep.masterlist_path_str@,
        r.prelude_loaded == prep.prelude_loaded,
        r.userlist_loaded == prep.userlist_loaded,
        texts(r.load_order_current@) == texts(prep.current@),
        req.include_load_order_suggested ==> texts(r.load_order_suggested@) == texts(
            answers.sorted->Ok_0@,
        ) && r.evaluate_note is None,
        !req.include_load_order_suggested ==> texts(r.load_order_suggested@) == texts(prep.current@)
            && opt_text(r.evaluate_note) == Some(
            "load_order_suggested equals load_order_current; sort_plugins was skipped (include_load_order_suggested: false)."@,
        ),
        r.load_order_ambiguous == Some(answers.ambiguous->Ok_0),
        req.general_messages_min_severity == GeneralMessageMinSeverity::Say ==> msg_views(
            r.general_messages@,
        ) == message_views(answers.general_messages->Ok_0@).map_values(|m: MessageView| shown(m)),
        req.general_messages_min_severity == GeneralMessageMinSeverity::Warn ==> msg_views(
            r.general_messages@,
        ) == message_views(answers.general_messages->Ok_0@).filter(
            |m: MessageView| m.message_type != MessageType::Say,
        ).map_values(|m: MessageView| shown(m)),
        req.general_messages_min_severity == GeneralMessageMinSeverity::Error ==> msg_views(
            r.general_messages@,
        ) == message_views(answers.general_messages->Ok_0@).filter(
            |m: MessageView| m.message_type == MessageType::Error,
        ).map_values(|m: MessageView| shown(m)),
        !req.include_master_header_issues ==> r.master_header_issues@.len() == 0,
        req.include_master_header_issues ==> issue_views(r.master_header_issues@) == master_issues(
            texts(prep.current@),
            answers.masters@,
            prep.current@.len() as int,
        ),
        !req.include_plugin_metadata ==> r.plugin_metadata_page is None && r.plugins@.dom()
            =~= Set::<Seq<char>>::empty(),
        req.include_plugin_metadata ==> r.plugin_metadata_page is Some,
        req.include_plugin_metadata ==> ({
            let names = page(
                texts(prep.current@),
                req.plugin_metadata_offset as int,
                req.plugin_metadata_limit,
            );
            let p = r.plugin_metadata_page->0;
            &&& p.total == prep.current@.len()
            &&& p.offset == req.plugin_metadata_offset
            &&& p.returned == names.len()
            &&& p.has_more == (req.plugin_metadata_offset + names.len() < prep.current@.len())
            &&& plugin_views(r.plugins) == plugin_table(
                names,
                answers.plugins@,
                req.plugin_metadata_content,
                req.plugin_problems_include_requirements_load_after,
                names.len() as int,
            )
        }),
        r.timings is None,
        r.error is None,
{
    let msgs = message_views(answers.general_messages->Ok_0@);
    law_general_messages(msgs);
    law_plugins_evaluated(req, texts(prep.current@));
    if !req.include_master_header_issues {
        assert(issue_views(r.master_header_issues@).len() == r.master_header_issues@.len());
    }
    assert(texts(prep.current@).len() == prep.current@.len());
    if !req.include_plugin_metadata {
        assert(plugin_views(r.plugins) == Map::<Seq<char>, PluginView>::empty());
        assert forall|name: Seq<char>| !r.plugins@.contains_key(name) by {
            law_plugin_views(r.plugins, name);
        }
    }
}

/// What the answer to a request that failed says: the failure, and nothing of a game.
pub proof fn law_failed_evaluation(r: EvalResponse, msg: Seq<char>, libloot: BuildView)
    requires
        is_failure(r, msg, libloot),
    ensures
        opt_text(r.error) == Some(msg),
        r.libloot_version@ == libloot.version,
        r.libloot_revision@ == libloot.revision,
        r.masterlist_path@.len() == 0,
        !r.prelude_loaded && !r.userlist_loaded,
        r.load_order_current@.len() == 0 && r.load_order_suggested@.len() == 0,
        r.load_order_ambiguous is None,
        r.general_messages@.len() == 0,
        r.plugins@.len() == 0,
        r.master_header_issues@.len() == 0,
        r.plugin_metadata_page is None && r.evaluate_note is None && r.timings is None,
{
}

/// An evaluation fails exactly where libloot fails to say whether the order is ambiguous, to sort,
/// where that is asked for, or to give its general messages; the first of these is reported.
pub proof fn law_evaluation_failures(req: EvalRequest, answers: RunAnswers)
    ensures
        run_failure(req, answers) is None <==> answers.ambiguous is Ok && (
        req.include_load_order_suggested ==> answers.sorted is Ok)
            && answers.general_messages is Ok,
        answers.ambiguous matches Err(e) ==> run_failure(req, answers) == Some(
            ErrorView::Ambiguity(e@),
        ),
        answers.ambiguous is Ok && req.include_load_order_suggested ==> (answers.sorted matches Err(
            e,
        ) ==> run_failure(req, answers) == Some(ErrorView::Sort(e@))),
        answers.ambiguous is Ok && (req.include_load_order_suggested ==> answers.sorted is Ok) ==> (
        answers.general_messages matches Err(QueryError::Failed(e)) ==> run_failure(req, answers)
            == Some(ErrorView::GeneralMessages(e@))),
        answers.ambiguous is Ok && (req.include_load_order_suggested ==> answers.sorted is Ok) ==> (
        answers.general_messages matches Err(QueryError::LockPoisoned) ==> run_failure(req, answers)
            == Some(ErrorView::DatabaseLock)),
{
}

/// An evaluation ends with an answer to the request exactly where nothing failed, and otherwise with
/// the failure.
pub proof fn law_evaluation_result(
    r: Result<EvalResponse, LootError>,
    prep: PreparedEval,
    req: EvalRequest,
    answers: RunAnswers,
    libloot: BuildView,
)
    requires
        is_run_result(r, prep, req, answers, libloot),
    ensures
        r is Ok <==> answers.ambiguous is Ok && (req.include_load_order_suggested
            ==> answers.sorted is Ok) && answers.general_messages is Ok,
        r matches Ok(out) ==> answers_request(out, prep, req, answers, libloot),
        r matches Err(e) ==> run_failure(req, answers) == Some(e@),
{
    law_evaluation_failures(req, answers);
}

/// The view of an answer leaves nothing out: two answers with the same view agree in every field.
pub proof fn law_answers_leave_nothing_out(a: EvalResponse, b: EvalResponse)
    requires
        a@ == b@,
    ensures
        a.libloot_version@ == b.libloot_version@,
        a.libloot_revision@ == b.libloot_revision@,
        a.masterlist_path@ == b.masterlist_path@,
        a.prelude_loaded == b.prelude_loaded,
        a.userlist_loaded == b.userlist_loaded,
        texts(a.load_order_current@) == texts(b.load_order_current@),
        texts(a.load_order_suggested@) == texts(b.load_order_suggested@),
        a.load_order_ambiguous == b.load_order_ambiguous,
        msg_views(a.general_messages@) == msg_views(b.general_messages@),
        plugin_views(a.plugins) == plugin_views(b.plugins),
        issue_views(a.master_header_issues@) == issue_views(b.master_header_issues@),
        a.plugin_metadata_page == b.plugin_metadata_page,
        opt_text(a.evaluate_note) == opt_text(b.evaluate_note),
        opt_timings(a.timings) == opt_timings(b.timings),
        opt_text(a.error) == opt_text(b.error),
{
    let x = a@;
    let y = b@;
    assert(x.libloot_version == y.libloot_version && x.libloot_revision == y.libloot_revision);
    assert(x.masterlist_path == y.masterlist_path);
    assert(x.load_order_current == y.load_order_current);
    assert(x.load_order_suggested == y.load_order_suggested);
    assert(x.general_messages == y.general_messages && x.plugins == y.plugins);
    assert(x.master_header_issues == y.master_header_issues);
}

} // verus!
