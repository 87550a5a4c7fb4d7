//! What LOOT knows of single plugins, and what is shown of it.

use crate::errors::prefixed;
use crate::messages::{
    message_out, message_views, msg_views, shown, Message, MessageType, MessageView, MsgOut, MsgView,
};
use crate::request::PluginMetadataContent;
use crate::text::{copy_opt, opt_text, texts};
use vstd::prelude::*;

verus! {

/// A file that a plugin's metadata mentions.
#[derive(Debug)]
pub struct FileMeta {
    pub name: String,
    pub display_name: Option<String>,
}

/// A file that metadata mentions, as it is shown.
#[derive(Debug)]
pub struct FileRefOut {
    pub name: String,
    pub display_name: Option<String>,
}

/// A file reference with its texts as character sequences.
pub struct FileView {
    pub name: Seq<char>,
    pub display_name: Option<Seq<char>>,
}

impl View for FileMeta {
    type V = FileView;

    open spec fn view(&self) -> FileView {
        FileView { name: self.name@, display_name: opt_text(self.display_name) }
    }
}

impl View for FileRefOut {
    type V = FileView;

    open spec fn view(&self) -> FileView {
        FileView { name: self.name@, display_name: opt_text(self.display_name) }
    }
}

/// The views of a list of files.
pub open spec fn file_views(v: Seq<FileMeta>) -> Seq<FileView> {
    v.map_values(|f: FileMeta| f@)
}

/// The views of a list of shown files.
pub open spec fn file_ref_views(v: Seq<FileRefOut>) -> Seq<FileView> {
    v.map_values(|f: FileRefOut| f@)
}

/// The evaluated metadata of a plugin.
#[derive(Debug)]
pub struct PluginMetadata {
    /// All of it as YAML.
    pub yaml: String,
    pub messages: Vec<Message>,
    pub incompatibilities: Vec<FileMeta>,
    pub requirements: Vec<FileMeta>,
    pub load_after_files: Vec<FileMeta>,
}

/// [`PluginMetadata`] with its texts as character sequences.
pub struct MetadataView {
    pub yaml: Seq<char>,
    pub messages: Seq<MessageView>,
    pub incompatibilities: Seq<FileView>,
    pub requirements: Seq<FileView>,
    pub load_after_files: Seq<FileView>,
}

impl View for PluginMetadata {
    type V = MetadataView;

    open spec fn view(&self) -> MetadataView {
        MetadataView {
            yaml: self.yaml@,
            messages: message_views(self.messages@),
            incompatibilities: file_views(self.incompatibilities@),
            requirements: file_views(self.requirements@),
            load_after_files: file_views(self.load_after_files@),
        }
    }
}

/// The problems of a plugin.
#[derive(Debug)]
pub struct PluginMetadataProblemsOut {
    pub messages: Vec<MsgOut>,
    pub incompatibilities: Vec<FileRefOut>,
    pub requirements: Vec<FileRefOut>,
    pub load_after: Vec<FileRefOut>,
}

/// [`PluginMetadataProblemsOut`] with its texts as character sequences.
#[verifier::ext_equal]
pub struct ProblemsView {
    pub messages: Seq<MsgView>,
    pub incompatibilities: Seq<FileView>,
    pub requirements: Seq<FileView>,
    pub load_after: Seq<FileView>,
}

impl View for PluginMetadataProblemsOut {
    type V = ProblemsView;

    open spec fn view(&self) -> ProblemsView {
        ProblemsView {
            messages: msg_views(self.messages@),
            incompatibilities: file_ref_views(self.incompatibilities@),
            requirements: file_ref_views(self.requirements@),
            load_after: file_ref_views(self.load_after@),
        }
    }
}

/// A file in the form in which it is shown.
pub fn file_to_out(f: &FileMeta) -> (r: FileRefOut)
    ensures
        r@ == f@,
{
    FileRefOut { name: f.name.clone(), display_name: copy_opt(&f.display_name) }
}

/// Files in the form in which they are shown.
fn files_to_out(files: &Vec<FileMeta>) -> (r: Vec<FileRefOut>)
    ensures
        file_ref_views(r@) == file_views(files@),
{
    let mut out: Vec<FileRefOut> = Vec::new();
    let mut i: usize = 0;
    while i < files.len()
        invariant
            i <= files@.len(),
            out@.len() == i,
            forall|j: int| 0 <= j < i ==> (#[trigger] out@[j])@ == files@[j]@,
        decreases files@.len() - i,
    {
        let f = file_to_out(&files[i]);
        out.push(f);
        i += 1;
    }
    assert(file_ref_views(out@) =~= file_views(files@));
    out
}

/// The messages that report a problem, in their order: warnings and errors.
pub open spec fn problem_messages(msgs: Seq<MessageView>) -> Seq<MsgView> {
    msgs.filter(|m: MessageView| m.message_type != MessageType::Say).map_values(
        |m: MessageView| shown(m),
    )
}

/// The problems that a plugin's metadata reports; requirements and load-after files count only
/// where they are asked for.
pub open spec fn problems(meta: MetadataView, include_req_la: bool) -> ProblemsView {
    ProblemsView {
        messages: problem_messages(meta.messages),
        incompatibilities: meta.incompatibilities,
        requirements: if include_req_la {
            meta.requirements
        } else {
            Seq::empty()
        },
        load_after: if include_req_la {
            meta.load_after_files
        } else {
            Seq::empty()
        },
    }
}

/// The warnings and errors among messages, as they are shown.
fn problem_messages_out(msgs: &Vec<Message>) -> (r: Vec<MsgOut>)
    ensures
        msg_views(r@) == problem_messages(message_views(msgs@)),
{
    let ghost all = message_views(msgs@);
    let ghost f = |m: MessageView| m.message_type != MessageType::Say;
    let ghost g = |m: MessageView| shown(m);
    let mut out: Vec<MsgOut> = Vec::new();
    let mut i: usize = 0;
    proof {
        reveal(Seq::filter);
        assert(msg_views(out@) =~= all.take(0).filter(f).map_values(g));
    }
    while i < msgs.len()
        invariant
            i <= msgs@.len(),
            all == message_views(msgs@),
            f == (|m: MessageView| m.message_type != MessageType::Say),
            g == (|m: MessageView| shown(m)),
            msg_views(out@) == all.take(i as int).filter(f).map_values(g),
        decreases msgs@.len() - i,
    {
        let ghost before = msg_views(out@);
        proof {
            reveal(Seq::filter);
            assert(all.take(i + 1).drop_last() =~= all.take(i as int));
            assert(all.take(i + 1).last() == msgs@[i as int]@);
        }
        let kind = msgs[i].message_type;
        if kind == MessageType::Warn || kind == MessageType::Error {
            let m = message_out(&msgs[i]);
            out.push(m);
            assert(msg_views(out@) =~= before.push(m@));
            assert(all.take(i as int).filter(f).push(all[i as int]).map_values(g) =~= all.take(
                i as int,
            ).filter(f).map_values(g).push(shown(all[i as int])));
        }
        i += 1;
    }
    assert(all.take(all.len() as int) =~= all);
    out
}

/// The problems that a plugin's metadata reports.
pub fn problems_from_plugin_metadata(meta: &PluginMetadata, include_req_la: bool) -> (r:
    PluginMetadataProblemsOut)
    ensures
        r@ == problems(meta@, include_req_la),
        shows_files(file_ref_views(r.incompatibilities@), meta.incompatibilities@),
        r.incompatibilities@.len() == meta.incompatibilities@.len(),
        include_req_la ==> shows_files(file_ref_views(r.requirements@), meta.requirements@)
            && shows_files(file_ref_views(r.load_after@), meta.load_after_files@),
        !include_req_la ==> r.requirements@.len() == 0 && r.load_after@.len() == 0,
        (r.messages@.len() == 0 && r.incompatibilities@.len() == 0 && r.requirements@.len() == 0
            && r.load_after@.len() == 0) == !gives_reason(*meta, include_req_la),
{
    proof {
        law_reasons_are_problems(*meta, include_req_la);
        law_problems_list_the_files(*meta, include_req_la);
    }
    let messages = problem_messages_out(&meta.messages);
    let incompatibilities = files_to_out(&meta.incompatibilities);
    let (requirements, load_after) = if include_req_la {
        (files_to_out(&meta.requirements), files_to_out(&meta.load_after_files))
    } else {
        let a: Vec<FileRefOut> = Vec::new();
        let b: Vec<FileRefOut> = Vec::new();
        (a, b)
    };
    let r = PluginMetadataProblemsOut { messages, incompatibilities, requirements, load_after };
    assert(r@ =~= problems(meta@, include_req_la));
    r
}

/// Whether there is no problem at all.
pub open spec fn no_problems(p: ProblemsView) -> bool {
    p.messages.len() == 0 && p.incompatibilities.len() == 0 && p.requirements.len() == 0
        && p.load_after.len() == 0
}

/// Whether there is no problem at all.
pub fn problems_out_is_empty(p: &PluginMetadataProblemsOut) -> (r: bool)
    ensures
        r == no_problems(p@),
{
    p.messages.len() == 0 && p.incompatibilities.len() == 0 && p.requirements.len() == 0
        && p.load_after.len() == 0
}

/// What the header of a loaded plugin says.
#[derive(Debug)]
pub struct PluginHeader {
    pub active: bool,
    pub version: Option<String>,
    /// The bits of the header version, a single-precision number.
    pub header_version_bits: Option<u32>,
    pub crc: Option<u32>,
    pub is_master: bool,
    pub is_light: bool,
    pub bash_tags: Vec<String>,
}

/// What is shown of a plugin.
#[derive(Debug)]
pub struct PluginOut {
    pub active: Option<bool>,
    pub version: Option<String>,
    /// The bits of the header version, a single-precision number.
    pub header_version_bits: Option<u32>,
    pub crc: Option<u32>,
    pub is_master: bool,
    pub is_light: bool,
    pub bash_tags_in_plugin_header: Vec<String>,
    pub metadata_yaml: String,
    pub metadata_problems: Option<PluginMetadataProblemsOut>,
}

/// [`PluginOut`] with its texts as character sequences.
#[verifier::ext_equal]
pub struct PluginView {
    pub active: Option<bool>,
    pub version: Option<Seq<char>>,
    pub header_version_bits: Option<u32>,
    pub crc: Option<u32>,
    pub is_master: bool,
    pub is_light: bool,
    pub bash_tags_in_plugin_header: Seq<Seq<char>>,
    pub metadata_yaml: Seq<char>,
    pub metadata_problems: Option<ProblemsView>,
}

impl View for PluginOut {
    type V = PluginView;

    open spec fn view(&self) -> PluginView {
        PluginView {
            active: self.active,
            version: opt_text(self.version),
            header_version_bits: self.header_version_bits,
            crc: self.crc,
            is_master: self.is_master,
            is_light: self.is_light,
            bash_tags_in_plugin_header: texts(self.bash_tags_in_plugin_header@),
            metadata_yaml: self.metadata_yaml@,
            metadata_problems: match self.metadata_problems {
                Some(p) => Some(p@),
                None => None,
            },
        }
    }
}

/// What is shown of a plugin before its metadata is added.
pub open spec fn bare_plugin(h: PluginHeader) -> PluginView {
    PluginView {
        active: Some(h.active),
        version: opt_text(h.version),
        header_version_bits: h.header_version_bits,
        crc: h.crc,
        is_master: h.is_master,
        is_light: h.is_light,
        bash_tags_in_plugin_header: texts(h.bash_tags@),
        metadata_yaml: Seq::empty(),
        metadata_problems: None,
    }
}

/// What is shown of a plugin before its metadata is added.
pub fn base_plugin_out(h: PluginHeader) -> (r: PluginOut)
    ensures
        r@ == bare_plugin(h),
        r.active == Some(h.active),
        r.version == h.version,
        r.header_version_bits == h.header_version_bits,
        r.crc == h.crc,
        r.is_master == h.is_master,
        r.is_light == h.is_light,
        r.bash_tags_in_plugin_header == h.bash_tags,
        r.metadata_yaml@.len() == 0,
        r.metadata_problems is None,
{
    let r = PluginOut {
        active: Some(h.active),
        version: h.version,
        header_version_bits: h.header_version_bits,
        crc: h.crc,
        is_master: h.is_master,
        is_light: h.is_light,
        bash_tags_in_plugin_header: h.bash_tags,
        metadata_yaml: String::new(),
        metadata_problems: None,
    };
    assert(r@ =~= bare_plugin(h));
    r
}

/// What evaluating the metadata of a plugin gave: the metadata, nothing, or a failure.
pub open spec fn evaluated(m: Result<Option<PluginMetadata>, String>) -> Result<
    Option<MetadataView>,
    Seq<char>,
> {
    match m {
        Ok(Some(m)) => Ok(Some(m@)),
        Ok(None) => Ok(None),
        Err(e) => Err(e@),
    }
}

/// The one message that reports that the metadata could not be evaluated.
pub open spec fn failure_problems(cause: Seq<char>) -> ProblemsView {
    ProblemsView {
        messages: seq![
            MsgView {
                severity: "error"@,
                text: "metadata error: "@ + cause,
                condition: None,
            },
        ],
        incompatibilities: Seq::empty(),
        requirements: Seq::empty(),
        load_after: Seq::empty(),
    }
}

/// A plugin with its metadata added. As a whole it is added as YAML. Where problems alone are
/// asked for, a plugin that has none is not shown.
pub open spec fn with_metadata(
    content: PluginMetadataContent,
    include_req_la: bool,
    base: PluginView,
    metadata: Result<Option<MetadataView>, Seq<char>>,
) -> Option<PluginView> {
    match content {
        PluginMetadataContent::Full => match metadata {
            Ok(Some(m)) => Some(PluginView { metadata_yaml: m.yaml, ..base }),
            Ok(None) => Some(base),
            Err(e) => Some(PluginView { metadata_yaml: "# metadata error: "@ + e, ..base }),
        },
        PluginMetadataContent::Problems => match metadata {
            Ok(Some(m)) => if no_problems(problems(m, include_req_la)) {
                None
            } else {
                Some(
                    PluginView {
                        metadata_problems: Some(problems(m, include_req_la)),
                        ..base
                    },
                )
            },
            Ok(None) => None,
            Err(e) => Some(
                PluginView { metadata_problems: Some(failure_problems(e)), ..base },
            ),
        },
    }
}

/// The view of an optional plugin.
pub open spec fn opt_plugin(p: Option<PluginOut>) -> Option<PluginView> {
    match p {
        Some(p) => Some(p@),
        None => None,
    }
}

/// Adds the metadata to what is shown of a plugin; the result is nothing where the plugin is not
/// shown.
pub fn fill_plugin_metadata_output(
    content: PluginMetadataContent,
    include_req_la: bool,
    base: PluginOut,
    metadata: Result<Option<PluginMetadata>, String>,
) -> (r: Option<PluginOut>)
    ensures
        opt_plugin(r) == with_metadata(content, include_req_la, base@, evaluated(metadata)),
        r matches Some(p) ==> p.active == base.active && p.version == base.version
            && p.header_version_bits == base.header_version_bits && p.crc == base.crc && p.is_master
            == base.is_master && p.is_light == base.is_light && p.bash_tags_in_plugin_header
            == base.bash_tags_in_plugin_header,
        content == PluginMetadataContent::Full ==> r is Some && r->0.metadata_yaml@ == match metadata {
            Ok(Some(m)) => m.yaml@,
            Ok(None) => base.metadata_yaml@,
            Err(e) => "# metadata error: "@ + e@,
        },
        content == PluginMetadataContent::Problems ==> (r is Some <==> (metadata is Err || (
        metadata matches Ok(Some(m)) && gives_reason(m, include_req_la)))),
{
    proof {
        law_problems_alone(base@, metadata, include_req_la);
    }
    let mut out = base;
    match content {
        PluginMetadataContent::Full => {
            match metadata {
                Ok(Some(m)) => {
                    out.metadata_yaml = m.yaml;
                },
                Ok(None) => {},
                Err(e) => {
                    out.metadata_yaml = prefixed("# metadata error: ", e.as_str());
                },
            }
            Some(out)
        },
        PluginMetadataContent::Problems => {
            match metadata {
                Ok(Some(m)) => {
                    let prob = problems_from_plugin_metadata(&m, include_req_la);
                    if problems_out_is_empty(&prob) {
                        return None;
                    }
                    out.metadata_problems = Some(prob);
                    Some(out)
                },
                Ok(None) => None,
                Err(e) => {
                    let mut messages: Vec<MsgOut> = Vec::new();
                    messages.push(
                        MsgOut {
                            severity: "error".to_owned(),
                            text: prefixed("metadata error: ", e.as_str()),
                            condition: None,
                        },
                    );
                    let prob = PluginMetadataProblemsOut {
                        messages,
                        incompatibilities: Vec::new(),
                        requirements: Vec::new(),
                        load_after: Vec::new(),
                    };
                    assert(prob@ =~= failure_problems(e@));
                    out.metadata_problems = Some(prob);
                    Some(out)
                },
            }
        },
    }
}

/// Where problems alone are asked for, whatever plugin is shown has one, and no YAML is added.
pub proof fn law_shown_plugins_have_problems(
    include_req_la: bool,
    base: PluginView,
    metadata: Result<Option<MetadataView>, Seq<char>>,
)
    ensures
        with_metadata(PluginMetadataContent::Problems, include_req_la, base, metadata) matches Some(
            p,
        ) ==> p.metadata_problems is Some && !no_problems(p.metadata_problems->0)
            && p.metadata_yaml == base.metadata_yaml,
{
}

/// Whether a message reports a problem: it is a warning or an error.
pub open spec fn is_warning_or_error(m: Message) -> bool {
    m.message_type == MessageType::Warn || m.message_type == MessageType::Error
}

/// Whether metadata gives reason to show a plugin among those with problems: a warning or an error,
/// an incompatibility, or, where they are asked for, a requirement or a file to load after.
pub open spec fn gives_reason(meta: PluginMetadata, include_req_la: bool) -> bool {
    (exists|i: int| 0 <= i < meta.messages@.len() && is_warning_or_error(#[trigger] meta.messages@[i]))
        || meta.incompatibilities@.len() > 0 || (include_req_la && (meta.requirements@.len() > 0
        || meta.load_after_files@.len() > 0))
}

/// Whether a list of files is shown whole: each file with its name and its display name, in order.
pub open spec fn shows_files(shown: Seq<FileView>, files: Seq<FileMeta>) -> bool {
    &&& shown.len() == files.len()
    &&& forall|i: int|
        0 <= i < files.len() ==> (#[trigger] shown[i]).name == files[i].name@
            && shown[i].display_name == opt_text(files[i].display_name)
}

/// The views of files and of what is shown of a plugin leave nothing out.
pub proof fn law_metadata_views(f: FileRefOut, p: PluginOut, q: PluginMetadataProblemsOut)
    ensures
        f@.name == f.name@,
        f@.display_name == opt_text(f.display_name),
        p@.active == p.active,
        p@.version == opt_text(p.version),
        p@.header_version_bits == p.header_version_bits,
        p@.crc == p.crc,
        p@.is_master == p.is_master,
        p@.is_light == p.is_light,
        p@.bash_tags_in_plugin_header == texts(p.bash_tags_in_plugin_header@),
        p@.metadata_yaml == p.metadata_yaml@,
        p.metadata_problems is None ==> p@.metadata_problems is None,
        p.metadata_problems matches Some(x) ==> p@.metadata_problems == Some(x@),
        q@.messages == msg_views(q.messages@),
        q@.incompatibilities.len() == q.incompatibilities@.len(),
        forall|i: int|
            0 <= i < q.incompatibilities@.len() ==> #[trigger] q@.incompatibilities[i]
                == q.incompatibilities@[i]@,
        q@.requirements.len() == q.requirements@.len(),
        forall|i: int|
            0 <= i < q.requirements@.len() ==> #[trigger] q@.requirements[i]
                == q.requirements@[i]@,
        q@.load_after.len() == q.load_after@.len(),
        forall|i: int|
            0 <= i < q.load_after@.len() ==> #[trigger] q@.load_after[i] == q.load_after@[i]@,
{
}

/// The messages among the problems are the warnings and the errors, all of them and in their order.
/// The result says at which place each of the messages that are shown stood.
pub proof fn law_problem_messages(msgs: Seq<Message>) -> (places: Seq<int>)
    ensures
        places.len() == problem_messages(message_views(msgs)).len(),
        forall|k: int, l: int| 0 <= k < l < places.len() ==> places[k] < places[l],
        forall|k: int|
            0 <= k < places.len() ==> 0 <= #[trigger] places[k] < msgs.len() && is_warning_or_error(
                msgs[places[k]],
            ) && problem_messages(message_views(msgs))[k] == shown(msgs[places[k]]@),
        forall|i: int|
            0 <= i < msgs.len() && is_warning_or_error(#[trigger] msgs[i]) ==> places.contains(i),
    decreases msgs.len(),
{
    reveal(Seq::filter);
    let f = |m: MessageView| m.message_type != MessageType::Say;
    let g = |m: MessageView| shown(m);
    let views = message_views(msgs);
    if msgs.len() == 0 {
        assert(problem_messages(views).len() == 0);
        Seq::empty()
    } else {
        let rest = msgs.drop_last();
        let before = law_problem_messages(rest);
        assert(views.drop_last() =~= message_views(rest));
        assert(views.last() == msgs.last()@);
        if is_warning_or_error(msgs.last()) {
            let places = before.push(msgs.len() - 1);
            let kept = message_views(rest).filter(f);
            assert(kept.push(views.last()).map_values(g) =~= kept.map_values(g).push(
                shown(views.last()),
            ));
            assert forall|k: int| 0 <= k < places.len() implies 0 <= #[trigger] places[k]
                < msgs.len() && is_warning_or_error(msgs[places[k]]) && problem_messages(views)[k]
                == shown(msgs[places[k]]@) by {
                if k < before.len() {
                    assert(places[k] == before[k]);
                    assert(rest[before[k]] == msgs[before[k]]);
                }
            }
            assert forall|i: int|
                0 <= i < msgs.len() && is_warning_or_error(#[trigger] msgs[i]) implies
                places.contains(i) by {
                if i < rest.len() {
                    assert(rest[i] == msgs[i]);
                    let k = before.index_of(i);
                    assert(places[k] == i);
                } else {
                    assert(places[before.len() as int] == i);
                }
            }
            places
        } else {
            assert forall|k: int| 0 <= k < before.len() implies 0 <= #[trigger] before[k]
                < msgs.len() && is_warning_or_error(msgs[before[k]]) && problem_messages(views)[k]
                == shown(msgs[before[k]]@) by {
                assert(rest[before[k]] == msgs[before[k]]);
            }
            assert forall|i: int|
                0 <= i < msgs.len() && is_warning_or_error(#[trigger] msgs[i]) implies
                before.contains(i) by {
                assert(rest[i] == msgs[i]);
            }
            before
        }
    }
}

/// The problems of a plugin list every incompatibility of its metadata, and its requirements and the
/// files to load after exactly where they are asked for.
pub proof fn law_problems_list_the_files(meta: PluginMetadata, include_req_la: bool)
    ensures
        ({
            let p = problems(meta@, include_req_la);
            &&& shows_files(p.incompatibilities, meta.incompatibilities@)
            &&& include_req_la ==> shows_files(p.requirements, meta.requirements@) && shows_files(
                p.load_after,
                meta.load_after_files@,
            )
            &&& !include_req_la ==> p.requirements.len() == 0 && p.load_after.len() == 0
            &&& p.messages == problem_messages(message_views(meta.messages@))
        }),
{
}

/// There are no problems exactly where the metadata gives no reason to show the plugin.
pub proof fn law_reasons_are_problems(meta: PluginMetadata, include_req_la: bool)
    ensures
        no_problems(problems(meta@, include_req_la)) == !gives_reason(meta, include_req_la),
{
    let places = law_problem_messages(meta.messages@);
    law_problems_list_the_files(meta, include_req_la);
    if places.len() > 0 {
        assert(is_warning_or_error(meta.messages@[places[0]]));
    }
}

/// What the header of a plugin says is shown as it is.
pub proof fn law_header_is_shown(h: PluginHeader)
    ensures
        ({
            let p = bare_plugin(h);
            &&& p.active == Some(h.active)
            &&& p.version == opt_text(h.version)
            &&& p.header_version_bits == h.header_version_bits
            &&& p.crc == h.crc
            &&& p.is_master == h.is_master
            &&& p.is_light == h.is_light
            &&& p.bash_tags_in_plugin_header == texts(h.bash_tags@)
            &&& p.metadata_yaml.len() == 0
            &&& p.metadata_problems is None
        }),
{
}

/// Whether two plugins say the same, their metadata aside.
pub open spec fn same_header(a: PluginView, b: PluginView) -> bool {
    &&& a.active == b.active
    &&& a.version == b.version
    &&& a.header_version_bits == b.header_version_bits
    &&& a.crc == b.crc
    &&& a.is_master == b.is_master
    &&& a.is_light == b.is_light
    &&& a.bash_tags_in_plugin_header == b.bash_tags_in_plugin_header
}

/// As a whole, metadata is shown as its YAML, a failure as a comment, and a plugin without metadata
/// as it is; every plugin is shown, and nothing else in it changes.
pub proof fn law_whole_metadata(
    base: PluginView,
    metadata: Result<Option<PluginMetadata>, String>,
    include_req_la: bool,
)
    ensures
        with_metadata(
            PluginMetadataContent::Full,
            include_req_la,
            base,
            evaluated(metadata),
        ) matches Some(p) && same_header(p, base) && p.metadata_problems == base.metadata_problems
            && p.metadata_yaml == match metadata {
            Ok(Some(m)) => m.yaml@,
            Ok(None) => base.metadata_yaml,
            Err(e) => "# metadata error: "@ + e@,
        },
{
}

/// Where problems alone are asked for, a plugin is shown exactly where its metadata gives reason to
/// or could not be evaluated; it is shown with its problems, or with one error that names the cause.
pub proof fn law_problems_alone(
    base: PluginView,
    metadata: Result<Option<PluginMetadata>, String>,
    include_req_la: bool,
)
    ensures
        ({
            let r = with_metadata(
                PluginMetadataContent::Problems,
                include_req_la,
                base,
                evaluated(metadata),
            );
            &&& r is Some <==> (metadata is Err || (metadata matches Ok(Some(m)) && gives_reason(
                m,
                include_req_la,
            )))
            &&& r matches Some(p) ==> same_header(p, base) && p.metadata_yaml == base.metadata_yaml
            &&& metadata matches Ok(Some(m)) ==> (r matches Some(p) ==> p.metadata_problems == Some(
                problems(m@, include_req_la),
            ))
            &&& metadata matches Err(e) ==> (r matches Some(p) ==> {
                let q = p.metadata_problems->0;
                &&& p.metadata_problems is Some
                &&& q.messages.len() == 1
                &&& q.messages[0].severity == "error"@
                &&& q.messages[0].text == "metadata error: "@ + e@
                &&& q.messages[0].condition is None
                &&& q.incompatibilities.len() == 0
                &&& q.requirements.len() == 0
                &&& q.load_after.len() == 0
            })
        }),
{
    if let Ok(Some(m)) = metadata {
        law_reasons_are_problems(m, include_req_la);
    }
}

/// The view of an optional plugin leaves nothing out.
pub proof fn law_optional_plugins(p: PluginOut)
    ensures
        opt_plugin(None) is None,
        opt_plugin(Some(p)) == Some(p@),
{
}

} // verus!
