//! Answering a request for the load order alone.

use crate::errors::{error_text, ErrorView, LootError};
use crate::names::NameMap;
use crate::profile::{
    decided_order, files_order, load_order_from_profile_texts, profile_source_name, profile_texts,
    read_load_order_from_profile_dir, texts_order, ProfileFiles, ProfileSource, ProfileTexts,
};
use crate::request::EvalRequest;
use crate::text::{given, given_text, opt_text, texts, trimmed};
use crate::timings::{is_timings, timings_out, ToolTimingsOut};
use vstd::prelude::*;

verus! {

/// A load order and where it comes from.
#[derive(Debug)]
pub struct LoadOrderReadResponse {
    pub load_order: Vec<String>,
    /// Known only where the load order comes from libloadorder.
    pub load_order_ambiguous: Option<bool>,
    pub plugin_count: usize,
    /// `loadorder_txt`, `plugins_txt` or `libloadorder`.
    pub source: Option<String>,
    pub note: Option<String>,
    pub timings: Option<ToolTimingsOut>,
    pub error: Option<String>,
}

/// Where a load order is to be read.
#[derive(Debug)]
pub enum LoadOrderPlan {
    Libloadorder,
    /// In the files of this profile directory; where they list nothing, from libloadorder.
    Profile(String),
}

/// The profile directory to read, if the quick way is to be tried at all.
pub open spec fn planned_profile(
    use_libloadorder: bool,
    local_path: Option<Seq<char>>,
) -> Result<Option<Seq<char>>, ErrorView> {
    if use_libloadorder {
        Ok(None)
    } else {
        match given(local_path) {
            Some(dir) => Ok(Some(dir)),
            None => Err(ErrorView::ProfileRequired),
        }
    }
}

/// Where the load order that a request asks for is to be read.
pub fn load_order_plan(req: &EvalRequest) -> (r: Result<LoadOrderPlan, LootError>)
    ensures
        match r {
            Ok(LoadOrderPlan::Libloadorder) => planned_profile(
                req.load_order_use_libloadorder,
                opt_text(req.game_local_path),
            ) == Ok::<Option<Seq<char>>, ErrorView>(None),
            Ok(LoadOrderPlan::Profile(dir)) => planned_profile(
                req.load_order_use_libloadorder,
                opt_text(req.game_local_path),
            ) == Ok::<Option<Seq<char>>, ErrorView>(Some(dir@)),
            Err(e) => planned_profile(
                req.load_order_use_libloadorder,
                opt_text(req.game_local_path),
            ) == Err::<Option<Seq<char>>, ErrorView>(e@),
        },
{
    if req.load_order_use_libloadorder {
        return Ok(LoadOrderPlan::Libloadorder);
    }
    match given_text(&req.game_local_path) {
        Some(dir) => Ok(LoadOrderPlan::Profile(dir)),
        None => Err(LootError::ProfileRequired),
    }
}

/// What libloadorder says of the load order.
#[derive(Debug)]
pub struct LibraryOrder {
    pub load_order: Vec<String>,
    pub ambiguous: bool,
}

/// The note of an answer that was read from a profile's files.
pub open spec fn profile_note() -> Seq<char> {
    "load_order_ambiguous is only computed when source is libloadorder"@
}

/// An answer with a load order that a profile's files list.
pub open spec fn answers_from_profile(
    r: LoadOrderReadResponse,
    order: Seq<Seq<char>>,
    source: ProfileSource,
) -> bool {
    &&& texts(r.load_order@) == order
    &&& r.load_order_ambiguous is None
    &&& r.plugin_count == order.len()
    &&& opt_text(r.source) == Some(profile_source_name(source))
    &&& opt_text(r.note) == Some(profile_note())
    &&& r.timings is None
    &&& r.error is None
}

/// An answer with a load order from libloadorder.
pub open spec fn answers_from_library(r: LoadOrderReadResponse, order: LibraryOrder) -> bool {
    &&& texts(r.load_order@) == texts(order.load_order@)
    &&& r.load_order_ambiguous == Some(order.ambiguous)
    &&& r.plugin_count == order.load_order@.len()
    &&& opt_text(r.source) == Some("libloadorder"@)
    &&& r.note is None
    &&& r.timings is None
    &&& r.error is None
}

/// The answer with a load order from libloadorder.
pub fn library_order_response(order: LibraryOrder) -> (r: LoadOrderReadResponse)
    ensures
        answers_from_library(r, order),
{
    let plugin_count: usize = order.load_order.len();
    LoadOrderReadResponse {
        load_order: order.load_order,
        load_order_ambiguous: Some(order.ambiguous),
        plugin_count,
        source: Some("libloadorder".to_owned()),
        note: None,
        timings: None,
        error: None,
    }
}

/// Reads the load order that a request asks for. `profile` holds the texts of the profile's files
/// and is looked at only where the request names a profile and does not rule the files out;
/// `library` is what libloadorder gave and is looked at only where no file lists anything.
pub fn run_read_load_order(
    req: &EvalRequest,
    profile: &ProfileTexts,
    library: Result<LibraryOrder, LootError>,
) -> (r: Result<LoadOrderReadResponse, LootError>)
    ensures
        match planned_profile(req.load_order_use_libloadorder, opt_text(req.game_local_path)) {
            Err(e) => r matches Err(f) && f@ == e,
            Ok(dir) => match (dir, texts_order(*profile)) {
                (Some(_), Some((order, source))) => r matches Ok(out) && answers_from_profile(
                    out,
                    order,
                    source,
                ),
                _ => match library {
                    Ok(o) => r matches Ok(out) && answers_from_library(out, o),
                    Err(e) => r matches Err(f) && f@ == e@,
                },
            },
        },
{
    if let LoadOrderPlan::Profile(_dir) = match load_order_plan(req) {
        Ok(p) => p,
        Err(e) => {
            return Err(e);
        },
    } {
        if let Some((load_order, source)) = load_order_from_profile_texts(profile) {
            let plugin_count: usize = load_order.len();
            assert(texts(load_order@).len() == plugin_count);
            return Ok(
                LoadOrderReadResponse {
                    load_order,
                    load_order_ambiguous: None,
                    plugin_count,
                    source: Some(source.name()),
                    note: Some(
                        "load_order_ambiguous is only computed when source is libloadorder".to_owned(),
                    ),
                    timings: None,
                    error: None,
                },
            );
        }
    }
    match library {
        Ok(o) => Ok(library_order_response(o)),
        Err(e) => Err(e),
    }
}

/// Whether libloadorder has to be asked: where the request rules the profile's files out, or they
/// list nothing.
pub fn needs_libloadorder(plan: &LoadOrderPlan, profile: &ProfileFiles) -> (r: bool)
    ensures
        r == (plan is Libloadorder || files_order(*profile) is None),
        decided_order(*profile) matches Some(o) ==> r == (plan is Libloadorder || o is None),
{
    match plan {
        LoadOrderPlan::Libloadorder => true,
        LoadOrderPlan::Profile(_dir) => read_load_order_from_profile_dir(profile).is_none(),
    }
}

/// An answer that says nothing but what went wrong.
pub open spec fn is_order_failure(r: LoadOrderReadResponse, msg: Seq<char>) -> bool {
    &&& r.load_order@.len() == 0
    &&& r.load_order_ambiguous is None
    &&& r.plugin_count == 0
    &&& r.source is None
    &&& r.note is None
    &&& r.timings is None
    &&& opt_text(r.error) == Some(msg)
}

/// Answers a request for the load order. `profile` holds the contents of the profile's files and
/// counts only where the request names a profile and does not rule the files out; `library` is
/// what libloadorder gave and counts only where no file lists anything. Failures are reported in
/// the answer.
pub fn read_load_order(
    req: &EvalRequest,
    profile: &ProfileFiles,
    library: Result<LibraryOrder, LootError>,
) -> (r: LoadOrderReadResponse)
    ensures
        match planned_profile(req.load_order_use_libloadorder, opt_text(req.game_local_path)) {
            Err(e) => is_order_failure(r, error_text(e)),
            Ok(dir) => match (dir, files_order(*profile)) {
                (Some(_), Some((order, source))) => answers_from_profile(r, order, source),
                _ => match library {
                    Ok(o) => answers_from_library(r, o),
                    Err(e) => is_order_failure(r, error_text(e@)),
                },
            },
        },
        planned_profile(req.load_order_use_libloadorder, opt_text(req.game_local_path)) matches Ok(
            Some(_),
        ) ==> (decided_order(*profile) matches Some(Some((order, source)))
            ==> answers_from_profile(r, order, source)),
        r.plugin_count == r.load_order@.len(),
        r.timings is None,
        r.load_order_ambiguous is Some <==> opt_text(r.source) == Some("libloadorder"@),
{
    let loaded = profile_texts(profile);
    let r = match run_read_load_order(req, &loaded, library) {
        Ok(out) => out,
        Err(e) => LoadOrderReadResponse {
            load_order: Vec::new(),
            load_order_ambiguous: None,
            plugin_count: 0,
            source: None,
            note: None,
            timings: None,
            error: Some(e.message()),
        },
    };
    assert(texts(r.load_order@).len() == r.load_order@.len());
    proof {
        reveal_strlit("libloadorder");
        reveal_strlit("loadorder_txt");
        reveal_strlit("plugins_txt");
        assert("libloadorder"@.len() != "loadorder_txt"@.len());
        assert("libloadorder"@.len() != "plugins_txt"@.len());
    }
    r
}

impl LoadOrderReadResponse {
    /// Whether this answer reports a failure.
    pub fn is_error(&self) -> (r: bool)
        ensures
            r == (self.error is Some),
    {
        self.error.is_some()
    }

    /// This answer with its timings, where they are asked for. They speak of no prepared game;
    /// nothing else in the answer depends on them.
    pub fn with_timings(self, wanted: bool, total_ms: u64, phases_ms: NameMap<u64>) -> (r:
        LoadOrderReadResponse)
        ensures
            r == (LoadOrderReadResponse { timings: r.timings, ..self }),
            is_timings(r.timings, wanted, total_ms, None, phases_ms),
            r.timings is Some <==> wanted,
    {
        let mut out = self;
        out.timings = timings_out(wanted, total_ms, None, phases_ms);
        out
    }
}

/// The quick way is taken unless the request rules it out, and then needs a profile directory, which
/// is taken trimmed.
pub proof fn law_planned_reading(local_path: Option<Seq<char>>)
    ensures
        planned_profile(true, local_path) == Ok::<Option<Seq<char>>, ErrorView>(None),
        ({
            let known = local_path is Some && trimmed(local_path->0).len() > 0;
            let plan = planned_profile(false, local_path);
            &&& known ==> plan == Ok::<Option<Seq<char>>, ErrorView>(Some(trimmed(local_path->0)))
            &&& !known ==> plan == Err::<Option<Seq<char>>, ErrorView>(ErrorView::ProfileRequired)
        }),
{
}

/// What an answer from the files of a profile says, field by field.
pub proof fn law_answer_from_files(
    r: LoadOrderReadResponse,
    order: Seq<Seq<char>>,
    source: ProfileSource,
)
    requires
        answers_from_profile(r, order, source),
    ensures
        r.load_order@.len() == order.len(),
        forall|i: int| 0 <= i < order.len() ==> (#[trigger] r.load_order@[i])@ == order[i],
        r.plugin_count == order.len(),
        r.load_order_ambiguous is None,
        source == ProfileSource::LoadorderTxt ==> opt_text(r.source) == Some("loadorder_txt"@),
        source == ProfileSource::PluginsTxt ==> opt_text(r.source) == Some("plugins_txt"@),
        opt_text(r.note) == Some(
            "load_order_ambiguous is only computed when source is libloadorder"@,
        ),
        r.timings is None,
        r.error is None,
{
    assert(texts(r.load_order@).len() == r.load_order@.len());
    assert forall|i: int| 0 <= i < order.len() implies (#[trigger] r.load_order@[i])@ == order[i] by {
        assert(texts(r.load_order@)[i] == r.load_order@[i]@);
    }
}

/// What an answer from libloadorder says, field by field.
pub proof fn law_answer_from_library(r: LoadOrderReadResponse, order: LibraryOrder)
    requires
        answers_from_library(r, order),
    ensures
        r.load_order@.len() == order.load_order@.len(),
        forall|i: int|
            0 <= i < order.load_order@.len() ==> (#[trigger] r.load_order@[i])@
                == order.load_order@[i]@,
        r.plugin_count == order.load_order@.len(),
        r.load_order_ambiguous == Some(order.ambiguous),
        opt_text(r.source) == Some("libloadorder"@),
        r.note is None,
        r.timings is None,
        r.error is None,
{
    assert(texts(r.load_order@).len() == r.load_order@.len());
    assert(texts(order.load_order@).len() == order.load_order@.len());
    assert forall|i: int| 0 <= i < order.load_order@.len() implies (
    #[trigger] r.load_order@[i])@ == order.load_order@[i]@ by {
        assert(texts(r.load_order@)[i] == texts(order.load_order@)[i]);
    }
}

/// What an answer says of a load order that could not be read: the failure alone.
pub proof fn law_unread_order(r: LoadOrderReadResponse, msg: Seq<char>)
    requires
        is_order_failure(r, msg),
    ensures
        opt_text(r.error) == Some(msg),
        r.load_order@.len() == 0,
        r.plugin_count == 0,
        r.load_order_ambiguous is None,
        r.source is None,
        r.note is None,
        r.timings is None,
{
}

} // verus!
