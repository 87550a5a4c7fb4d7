//! LOOT messages: how they are worded, how severe they are, and which are shown.

use crate::request::GeneralMessageMinSeverity;
use crate::text::{copy_opt, join_texts, joined, opt_text, same_text, texts};
use vstd::prelude::*;

verus! {

/// The kind of a LOOT message.
#[derive(Debug, Clone, Copy, PartialEq, Eq, Structural)]
pub enum MessageType {
    Say,
    Warn,
    Error,
}

/// A LOOT message.
#[derive(Debug)]
pub struct Message {
    pub message_type: MessageType,
    /// The texts of the message, one for each language it is given in.
    pub content: Vec<String>,
    pub condition: Option<String>,
}

/// [`Message`] with its texts as character sequences.
pub struct MessageView {
    pub message_type: MessageType,
    pub content: Seq<Seq<char>>,
    pub condition: Option<Seq<char>>,
}

impl View for Message {
    type V = MessageView;

    open spec fn view(&self) -> MessageView {
        MessageView {
            message_type: self.message_type,
            content: texts(self.content@),
            condition: opt_text(self.condition),
        }
    }
}

/// The views of a list of messages.
pub open spec fn message_views(v: Seq<Message>) -> Seq<MessageView> {
    v.map_values(|m: Message| m@)
}

/// A message as it is shown.
#[derive(Debug, Clone)]
pub struct MsgOut {
    pub severity: String,
    pub text: String,
    pub condition: Option<String>,
}

/// [`MsgOut`] with its texts as character sequences.
pub struct MsgView {
    pub severity: Seq<char>,
    pub text: Seq<char>,
    pub condition: Option<Seq<char>>,
}

impl View for MsgOut {
    type V = MsgView;

    open spec fn view(&self) -> MsgView {
        MsgView {
            severity: self.severity@,
            text: self.text@,
            condition: opt_text(self.condition),
        }
    }
}

/// The views of a list of shown messages.
pub open spec fn msg_views(v: Seq<MsgOut>) -> Seq<MsgView> {
    v.map_values(|m: MsgOut| m@)
}

/// The texts of a message, each on lines of its own.
pub fn message_text(m: &Message) -> (r: String)
    ensures
        r@ == joined(m@.content, "\n"@),
{
    join_texts(&m.content, "\n")
}

/// The word for a kind of message.
pub open spec fn severity_word(t: MessageType) -> Seq<char> {
    match t {
        MessageType::Say => "say"@,
        MessageType::Warn => "warn"@,
        MessageType::Error => "error"@,
    }
}

/// The word for a kind of message.
pub fn message_severity(t: MessageType) -> (r: String)
    ensures
        r@ == severity_word(t),
{
    match t {
        MessageType::Say => "say".to_owned(),
        MessageType::Warn => "warn".to_owned(),
        MessageType::Error => "error".to_owned(),
    }
}

/// How severe a message is whose severity is given by a word.
pub open spec fn word_rank(s: Seq<char>) -> u8 {
    if s == "warn"@ {
        1
    } else if s == "error"@ {
        2
    } else {
        0
    }
}

/// How severe a message is whose severity is given by a word.
pub fn severity_str_rank(s: &str) -> (r: u8)
    ensures
        r == word_rank(s@),
{
    if same_text(s, "warn") {
        1
    } else if same_text(s, "error") {
        2
    } else {
        0
    }
}

/// The rank from which on messages are shown.
pub open spec fn least_rank(m: GeneralMessageMinSeverity) -> u8 {
    match m {
        GeneralMessageMinSeverity::Say => 0,
        GeneralMessageMinSeverity::Warn => 1,
        GeneralMessageMinSeverity::Error => 2,
    }
}

/// The rank from which on messages are shown.
pub fn min_severity_rank(m: GeneralMessageMinSeverity) -> (r: u8)
    ensures
        r == least_rank(m),
{
    match m {
        GeneralMessageMinSeverity::Say => 0,
        GeneralMessageMinSeverity::Warn => 1,
        GeneralMessageMinSeverity::Error => 2,
    }
}

/// A message in the form in which it is shown.
pub open spec fn shown(m: MessageView) -> MsgView {
    MsgView {
        severity: severity_word(m.message_type),
        text: joined(m.content, "\n"@),
        condition: m.condition,
    }
}

/// A message in the form in which it is shown.
pub fn message_out(m: &Message) -> (r: MsgOut)
    ensures
        r@ == shown(m@),
        r.severity@ == match m.message_type {
            MessageType::Say => "say"@,
            MessageType::Warn => "warn"@,
            MessageType::Error => "error"@,
        },
        r.text@ == joined(texts(m.content@), seq!['\n']),
        opt_text(r.condition) == opt_text(m.condition),
{
    proof {
        law_messages_as_shown(m@);
    }
    MsgOut {
        severity: message_severity(m.message_type),
        text: message_text(m),
        condition: copy_opt(&m.condition),
    }
}

/// Messages in the form in which they are shown.
pub fn messages_out(msgs: &Vec<Message>) -> (r: Vec<MsgOut>)
    ensures
        msg_views(r@) == message_views(msgs@).map_values(|m: MessageView| shown(m)),
{
    let mut out: Vec<MsgOut> = Vec::new();
    let mut i: usize = 0;
    while i < msgs.len()
        invariant
            i <= msgs@.len(),
            out@.len() == i,
            forall|j: int| 0 <= j < i ==> (#[trigger] out@[j])@ == shown(msgs@[j]@),
        decreases msgs@.len() - i,
    {
        let m = message_out(&msgs[i]);
        out.push(m);
        i += 1;
    }
    assert(msg_views(out@) =~= message_views(msgs@).map_values(|m: MessageView| shown(m)));
    out
}

/// The messages whose severity reaches a rank, in their order.
pub open spec fn at_least(msgs: Seq<MsgOut>, rank: u8) -> Seq<MsgOut> {
    msgs.filter(|m: MsgOut| word_rank(m.severity@) >= rank)
}

/// The messages whose severity reaches a rank, in their order, as views.
pub open spec fn at_least_views(msgs: Seq<MsgView>, rank: u8) -> Seq<MsgView> {
    msgs.filter(|m: MsgView| word_rank(m.severity) >= rank)
}

/// Filtering messages filters their views.
pub proof fn lemma_at_least_views(msgs: Seq<MsgOut>, rank: u8)
    ensures
        msg_views(at_least(msgs, rank)) == at_least_views(msg_views(msgs), rank),
    decreases msgs.len(),
{
    reveal(Seq::filter);
    if msgs.len() == 0 {
        assert(msg_views(at_least(msgs, rank)) =~= at_least_views(msg_views(msgs), rank));
    } else {
        lemma_at_least_views(msgs.drop_last(), rank);
        assert(msg_views(msgs).drop_last() =~= msg_views(msgs.drop_last()));
        let before = at_least(msgs.drop_last(), rank);
        assert(msg_views(before.push(msgs.last())) =~= msg_views(before).push(msgs.last()@));
    }
}

/// The messages that are severe enough to be shown, in their order.
pub fn filter_general_messages(msgs: Vec<MsgOut>, min: GeneralMessageMinSeverity) -> (r: Vec<
    MsgOut,
>)
    ensures
        r@ == at_least(msgs@, least_rank(min)),
        min == GeneralMessageMinSeverity::Say ==> r@ == msgs@,
        min == GeneralMessageMinSeverity::Warn ==> r@ == msgs@.filter(
            |m: MsgOut| m.severity@ == "warn"@ || m.severity@ == "error"@,
        ),
        min == GeneralMessageMinSeverity::Error ==> r@ == msgs@.filter(
            |m: MsgOut| m.severity@ == "error"@,
        ),
{
    proof {
        law_filter_by_severity(msgs@);
    }
    let rank: u8 = min_severity_rank(min);
    let ghost f = |m: MsgOut| word_rank(m.severity@) >= rank;
    let ghost all = msgs@;
    let mut out: Vec<MsgOut> = Vec::new();
    assert(all.take(0).filter(f) =~= Seq::<MsgOut>::empty()) by {
        reveal(Seq::filter);
    }
    for m in it: msgs
        invariant
            it.seq() == all,
            f == (|m: MsgOut| word_rank(m.severity@) >= rank),
            out@ == all.take(it.index()).filter(f),
    {
        proof {
            reveal(Seq::filter);
            assert(all.take(it.index() + 1).drop_last() =~= all.take(it.index()));
        }
        if severity_str_rank(m.severity.as_str()) >= rank {
            out.push(m);
        }
    }
    assert(all.take(all.len() as int) =~= all);
    out
}

/// The least severity `say` hides no message.
pub proof fn law_say_shows_all(msgs: Seq<MsgOut>)
    ensures
        at_least(msgs, least_rank(GeneralMessageMinSeverity::Say)) == msgs,
    decreases msgs.len(),
{
    reveal(Seq::filter);
    if msgs.len() > 0 {
        law_say_shows_all(msgs.drop_last());
        assert(msgs.drop_last().push(msgs.last()) =~= msgs);
    } else {
        assert(at_least(msgs, 0) =~= msgs);
    }
}

/// Filtering twice is filtering once by the larger of the two ranks, in whichever order.
pub proof fn law_filters_compose(msgs: Seq<MsgOut>, first: u8, second: u8)
    ensures
        at_least(at_least(msgs, first), second) == at_least(
            msgs,
            if first < second {
                second
            } else {
                first
            },
        ),
        at_least(at_least(msgs, first), second) == at_least(at_least(msgs, second), first),
    decreases msgs.len(),
{
    reveal(Seq::filter);
    if msgs.len() > 0 {
        law_filters_compose(msgs.drop_last(), first, second);
        let one = at_least(msgs.drop_last(), first);
        let two = at_least(msgs.drop_last(), second);
        assert(one.push(msgs.last()).drop_last() =~= one);
        assert(two.push(msgs.last()).drop_last() =~= two);
    } else {
        assert(at_least(msgs, first) =~= msgs);
        assert(at_least(msgs, second) =~= msgs);
    }
}

/// The words for the kinds of messages rank as the kinds do: `say`, then `warn`, then `error`.
pub proof fn law_severity_ranks()
    ensures
        word_rank(severity_word(MessageType::Say)) == least_rank(GeneralMessageMinSeverity::Say),
        word_rank(severity_word(MessageType::Warn)) == least_rank(GeneralMessageMinSeverity::Warn),
        word_rank(severity_word(MessageType::Error)) == least_rank(
            GeneralMessageMinSeverity::Error,
        ),
{
    reveal_strlit("say");
    reveal_strlit("warn");
    reveal_strlit("error");
    assert("error"@ != "warn"@) by {
        assert("error"@.len() != "warn"@.len());
    }
    assert("say"@ != "warn"@ && "say"@ != "error"@) by {
        assert("say"@.len() != "warn"@.len());
        assert("say"@.len() != "error"@.len());
    }
}

/// A message is shown with the word for its kind, with its texts on lines of their own, and with its
/// condition.
pub proof fn law_messages_as_shown(m: MessageView)
    ensures
        m.message_type == MessageType::Say ==> shown(m).severity == "say"@,
        m.message_type == MessageType::Warn ==> shown(m).severity == "warn"@,
        m.message_type == MessageType::Error ==> shown(m).severity == "error"@,
        shown(m).text == joined(m.content, seq!['\n']),
        shown(m).condition == m.condition,
{
    reveal_strlit("\n");
    assert("\n"@ =~= seq!['\n']);
}

/// The views of messages leave nothing out.
pub proof fn law_message_views(m: Message, o: MsgOut, ms: Seq<Message>, os: Seq<MsgOut>)
    ensures
        m@.message_type == m.message_type,
        m@.content == texts(m.content@),
        m@.condition == opt_text(m.condition),
        o@.severity == o.severity@,
        o@.text == o.text@,
        o@.condition == opt_text(o.condition),
        message_views(ms).len() == ms.len(),
        forall|i: int| 0 <= i < ms.len() ==> #[trigger] message_views(ms)[i] == ms[i]@,
        msg_views(os).len() == os.len(),
        forall|i: int| 0 <= i < os.len() ==> #[trigger] msg_views(os)[i] == os[i]@,
{
}

/// Filters that let the same messages through leave the same.
proof fn lemma_filter_msgs_same(
    s: Seq<MsgOut>,
    f: spec_fn(MsgOut) -> bool,
    g: spec_fn(MsgOut) -> bool,
)
    requires
        forall|x: MsgOut| #[trigger] f(x) == g(x),
    ensures
        s.filter(f) == s.filter(g),
    decreases s.len(),
{
    reveal(Seq::filter);
    if s.len() > 0 {
        lemma_filter_msgs_same(s.drop_last(), f, g);
        assert(f(s.last()) == g(s.last()));
    }
}

/// `say` shows all messages, `warn` those that say `warn` or `error`, and `error` those that say
/// `error`, each in the order in which they came.
pub proof fn law_filter_by_severity(msgs: Seq<MsgOut>)
    ensures
        at_least(msgs, least_rank(GeneralMessageMinSeverity::Say)) == msgs,
        at_least(msgs, least_rank(GeneralMessageMinSeverity::Warn)) == msgs.filter(
            |m: MsgOut| m.severity@ == "warn"@ || m.severity@ == "error"@,
        ),
        at_least(msgs, least_rank(GeneralMessageMinSeverity::Error)) == msgs.filter(
            |m: MsgOut| m.severity@ == "error"@,
        ),
{
    law_severity_ranks();
    law_say_shows_all(msgs);
    let warn = least_rank(GeneralMessageMinSeverity::Warn);
    let error = least_rank(GeneralMessageMinSeverity::Error);
    let f = |m: MsgOut| word_rank(m.severity@) >= warn;
    let f2 = |m: MsgOut| m.severity@ == "warn"@ || m.severity@ == "error"@;
    let g = |m: MsgOut| word_rank(m.severity@) >= error;
    let g2 = |m: MsgOut| m.severity@ == "error"@;
    reveal_strlit("warn");
    reveal_strlit("error");
    assert("error"@.len() != "warn"@.len());
    lemma_filter_msgs_same(msgs, f, f2);
    lemma_filter_msgs_same(msgs, g, g2);
}

/// What is shown of LOOT's general messages: all of them, or only the warnings and errors, or only
/// the errors, in the order in which LOOT gives them.
pub proof fn law_general_messages(msgs: Seq<MessageView>)
    ensures
        at_least_views(
            msgs.map_values(|m: MessageView| shown(m)),
            least_rank(GeneralMessageMinSeverity::Say),
        ) == msgs.map_values(|m: MessageView| shown(m)),
        at_least_views(
            msgs.map_values(|m: MessageView| shown(m)),
            least_rank(GeneralMessageMinSeverity::Warn),
        ) == msgs.filter(|m: MessageView| m.message_type != MessageType::Say).map_values(
            |m: MessageView| shown(m),
        ),
        at_least_views(
            msgs.map_values(|m: MessageView| shown(m)),
            least_rank(GeneralMessageMinSeverity::Error),
        ) == msgs.filter(|m: MessageView| m.message_type == MessageType::Error).map_values(
            |m: MessageView| shown(m),
        ),
    decreases msgs.len(),
{
    reveal(Seq::filter);
    let show = |m: MessageView| shown(m);
    let bad = |m: MessageView| m.message_type != MessageType::Say;
    let worst = |m: MessageView| m.message_type == MessageType::Error;
    law_severity_ranks();
    if msgs.len() == 0 {
        assert(msgs.map_values(show) =~= Seq::<MsgView>::empty());
        assert(msgs.filter(bad).map_values(show) =~= Seq::<MsgView>::empty());
        assert(msgs.filter(worst).map_values(show) =~= Seq::<MsgView>::empty());
        assert(at_least_views(msgs.map_values(show), 0) =~= Seq::<MsgView>::empty());
        assert(at_least_views(msgs.map_values(show), 1) =~= Seq::<MsgView>::empty());
        assert(at_least_views(msgs.map_values(show), 2) =~= Seq::<MsgView>::empty());
    } else {
        let rest = msgs.drop_last();
        law_general_messages(rest);
        assert(msgs.map_values(show).drop_last() =~= rest.map_values(show));
        assert(msgs.map_values(show).last() == shown(msgs.last()));
        assert(msgs.map_values(show) =~= rest.map_values(show).push(shown(msgs.last())));
        assert(rest.filter(bad).push(msgs.last()).map_values(show) =~= rest.filter(bad).map_values(
            show,
        ).push(shown(msgs.last())));
        assert(rest.filter(worst).push(msgs.last()).map_values(show) =~= rest.filter(
            worst,
        ).map_values(show).push(shown(msgs.last())));
    }
}

} // verus!
