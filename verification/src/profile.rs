//! The text files of a profile: the load order and the list of mods.

use crate::text::{
    after_first, joined, lemma_lines_of_joined, lemma_lines_of_parts, lemma_trimmed_ends, lines,
    opt_text, split_lines, starts_with_char, texts, trim, trimmed,
};
use vstd::prelude::*;
use vstd::utf8::{decode_utf8, valid_utf8};

verus! {

/// What `f` finds in each of `ls`, in their order; lines in which it finds nothing are left out.
pub open spec fn found_in(
    ls: Seq<Seq<char>>,
    f: spec_fn(Seq<char>) -> Option<Seq<char>>,
) -> Seq<Seq<char>>
    decreases ls.len(),
{
    if ls.len() == 0 {
        Seq::empty()
    } else {
        match f(ls.last()) {
            Some(name) => found_in(ls.drop_last(), f).push(name),
            None => found_in(ls.drop_last(), f),
        }
    }
}

/// A line of `loadorder.txt`: the trimmed line, unless it is blank or a comment.
pub open spec fn loadorder_entry(line: Seq<char>) -> Option<Seq<char>> {
    let t = trimmed(line);
    if t.len() == 0 || t[0] == '#' {
        None
    } else {
        Some(t)
    }
}

/// A line of `plugins.txt`: as in `loadorder.txt`, but an asterisk in front of the name, which
/// marks an active plugin, is left out.
pub open spec fn plugins_entry(line: Seq<char>) -> Option<Seq<char>> {
    match loadorder_entry(line) {
        Some(t) => {
            let name = if t[0] == '*' {
                trimmed(t.drop_first())
            } else {
                t
            };
            if name.len() == 0 {
                None
            } else {
                Some(name)
            }
        },
        None => None,
    }
}

/// A line of `modlist.txt`: the mod that a plus sign enables.
pub open spec fn enabled_mod(line: Seq<char>) -> Option<Seq<char>> {
    match loadorder_entry(line) {
        Some(t) => if t[0] == '+' && trimmed(t.drop_first()).len() > 0 {
            Some(trimmed(t.drop_first()))
        } else {
            None
        },
        None => None,
    }
}

/// The plugins that the text of a `loadorder.txt` lists.
pub open spec fn loadorder_names(text: Seq<char>) -> Seq<Seq<char>> {
    found_in(lines(text), |l: Seq<char>| loadorder_entry(l))
}

/// The plugins that the text of a `plugins.txt` lists.
pub open spec fn plugins_names(text: Seq<char>) -> Seq<Seq<char>> {
    found_in(lines(text), |l: Seq<char>| plugins_entry(l))
}

/// The mods that the text of a `modlist.txt` enables.
pub open spec fn enabled_mods(text: Seq<char>) -> Seq<Seq<char>> {
    found_in(lines(text), |l: Seq<char>| enabled_mod(l))
}

/// Trims a line and drops it where it is blank or a comment.
fn content_of(line: &str) -> (r: Option<String>)
    ensures
        match r {
            Some(t) => loadorder_entry(line@) == Some(t@),
            None => loadorder_entry(line@) is None,
        },
{
    let t = trim(line);
    if t.as_str().is_empty() || starts_with_char(t.as_str(), '#') {
        None
    } else {
        Some(t)
    }
}

/// The plugins that the text of a `loadorder.txt` lists: one on each line, comments aside.
pub fn parse_loadorder_txt(content: &str) -> (r: Vec<String>)
    ensures
        texts(r@) == loadorder_names(content@),
{
    let all = split_lines(content);
    let mut out: Vec<String> = Vec::new();
    let ghost ls = lines(content@);
    let ghost f = |l: Seq<char>| loadorder_entry(l);
    let mut i: usize = 0;
    assert(texts(out@) =~= found_in(ls.take(0), f));
    while i < all.len()
        invariant
            i <= all@.len(),
            texts(all@) == ls,
            f == (|l: Seq<char>| loadorder_entry(l)),
            texts(out@) == found_in(ls.take(i as int), f),
        decreases all@.len() - i,
    {
        let ghost before = texts(out@);
        assert(ls.take(i + 1).drop_last() =~= ls.take(i as int));
        assert(ls.take(i + 1).last() == all@[i as int]@);
        if let Some(t) = content_of(all[i].as_str()) {
            out.push(t);
            assert(texts(out@) =~= before.push(t@));
        }
        i += 1;
    }
    assert(ls.take(ls.len() as int) =~= ls);
    out
}

/// The plugins that the text of a `plugins.txt` lists, the active and the inactive ones.
pub fn parse_plugins_txt_order(content: &str) -> (r: Vec<String>)
    ensures
        texts(r@) == plugins_names(content@),
{
    let all = split_lines(content);
    let mut out: Vec<String> = Vec::new();
    let ghost ls = lines(content@);
    let ghost f = |l: Seq<char>| plugins_entry(l);
    let mut i: usize = 0;
    assert(texts(out@) =~= found_in(ls.take(0), f));
    while i < all.len()
        invariant
            i <= all@.len(),
            texts(all@) == ls,
            f == (|l: Seq<char>| plugins_entry(l)),
            texts(out@) == found_in(ls.take(i as int), f),
        decreases all@.len() - i,
    {
        let ghost before = texts(out@);
        assert(ls.take(i + 1).drop_last() =~= ls.take(i as int));
        assert(ls.take(i + 1).last() == all@[i as int]@);
        if let Some(t) = content_of(all[i].as_str()) {
            let name = if starts_with_char(t.as_str(), '*') {
                let rest = after_first(t.as_str());
                trim(rest.as_str())
            } else {
                t
            };
            if !name.as_str().is_empty() {
                out.push(name);
                assert(texts(out@) =~= before.push(name@));
            }
        }
        i += 1;
    }
    assert(ls.take(ls.len() as int) =~= ls);
    out
}

/// The mods that the text of a `modlist.txt` enables, in the order of the file.
pub fn parse_mo2_enabled_mods(content: &str) -> (r: Vec<String>)
    ensures
        texts(r@) == enabled_mods(content@),
{
    let all = split_lines(content);
    let mut out: Vec<String> = Vec::new();
    let ghost ls = lines(content@);
    let ghost f = |l: Seq<char>| enabled_mod(l);
    let mut i: usize = 0;
    assert(texts(out@) =~= found_in(ls.take(0), f));
    while i < all.len()
        invariant
            i <= all@.len(),
            texts(all@) == ls,
            f == (|l: Seq<char>| enabled_mod(l)),
            texts(out@) == found_in(ls.take(i as int), f),
        decreases all@.len() - i,
    {
        let ghost before = texts(out@);
        assert(ls.take(i + 1).drop_last() =~= ls.take(i as int));
        assert(ls.take(i + 1).last() == all@[i as int]@);
        if let Some(t) = content_of(all[i].as_str()) {
            if starts_with_char(t.as_str(), '+') {
                let rest = after_first(t.as_str());
                let name = trim(rest.as_str());
                if !name.as_str().is_empty() {
                    out.push(name);
                    assert(texts(out@) =~= before.push(name@));
                }
            }
        }
        i += 1;
    }
    assert(ls.take(ls.len() as int) =~= ls);
    out
}

/// The text that bytes stand for when what is not UTF-8 among them is replaced.
pub uninterp spec fn utf8_lossy(bytes: Seq<u8>) -> Seq<char>;

/// `String::from_utf8_lossy`. Its result depends on the bytes alone; bytes that are valid UTF-8
/// are decoded as they are.
#[verifier::external_body]
fn decode_lossy(bytes: &[u8]) -> (r: String)
    ensures
        r@ == utf8_lossy(bytes@),
        valid_utf8(bytes@) ==> r@ == decode_utf8(bytes@),
{
    String::from_utf8_lossy(bytes).into_owned()
}

/// The text of a profile file, whatever its encoding.
pub fn read_profile_text_lossy(bytes: &Vec<u8>) -> (r: String)
    ensures
        r@ == utf8_lossy(bytes@),
        valid_utf8(bytes@) ==> r@ == decode_utf8(bytes@),
{
    decode_lossy(bytes.as_slice())
}

/// The contents of the files of a profile directory that list plugins: of each file that is there
/// and can be read.
#[derive(Debug)]
pub struct ProfileFiles {
    /// `loadorder.txt`
    pub loadorder: Option<Vec<u8>>,
    /// `plugins.txt`
    pub plugins: Option<Vec<u8>>,
    /// `Plugins.txt`
    pub plugins_capital: Option<Vec<u8>>,
}

/// The texts of the files of a profile directory that list plugins.
#[derive(Debug)]
pub struct ProfileTexts {
    pub loadorder: Option<String>,
    pub plugins: Option<String>,
    pub plugins_capital: Option<String>,
}

/// Which file of a profile a load order was read from.
#[derive(Debug, Clone, Copy, PartialEq, Eq, Structural)]
pub enum ProfileSource {
    LoadorderTxt,
    PluginsTxt,
}

/// How a source is called in answers.
pub open spec fn profile_source_name(s: ProfileSource) -> Seq<char> {
    match s {
        ProfileSource::LoadorderTxt => "loadorder_txt"@,
        ProfileSource::PluginsTxt => "plugins_txt"@,
    }
}

impl ProfileSource {
    /// How this source is called in answers.
    pub fn name(&self) -> (r: String)
        ensures
            r@ == profile_source_name(*self),
    {
        match self {
            ProfileSource::LoadorderTxt => "loadorder_txt".to_owned(),
            ProfileSource::PluginsTxt => "plugins_txt".to_owned(),
        }
    }
}

/// The load order of a profile: that of `loadorder.txt`, where it lists anything; else that of
/// `plugins.txt`; else that of `Plugins.txt`.
pub open spec fn profile_order(
    loadorder: Option<Seq<char>>,
    plugins: Option<Seq<char>>,
    plugins_capital: Option<Seq<char>>,
) -> Option<(Seq<Seq<char>>, ProfileSource)> {
    if loadorder is Some && loadorder_names(loadorder->0).len() > 0 {
        Some((loadorder_names(loadorder->0), ProfileSource::LoadorderTxt))
    } else if plugins is Some && plugins_names(plugins->0).len() > 0 {
        Some((plugins_names(plugins->0), ProfileSource::PluginsTxt))
    } else if plugins_capital is Some && plugins_names(plugins_capital->0).len() > 0 {
        Some((plugins_names(plugins_capital->0), ProfileSource::PluginsTxt))
    } else {
        None
    }
}

/// The load order that the texts of a profile's files give.
pub open spec fn texts_order(files: ProfileTexts) -> Option<(Seq<Seq<char>>, ProfileSource)> {
    profile_order(
        opt_text(files.loadorder),
        opt_text(files.plugins),
        opt_text(files.plugins_capital),
    )
}

/// A load order that was read from a profile, as character sequences.
pub open spec fn order_view(o: Option<(Vec<String>, ProfileSource)>) -> Option<
    (Seq<Seq<char>>, ProfileSource),
> {
    match o {
        Some(p) => Some((texts(p.0@), p.1)),
        None => None,
    }
}

/// The load order that the texts of a profile's files give.
pub fn load_order_from_profile_texts(files: &ProfileTexts) -> (r: Option<
    (Vec<String>, ProfileSource),
>)
    ensures
        order_view(r) == texts_order(*files),
{
    if let Some(text) = &files.loadorder {
        let v = parse_loadorder_txt(text.as_str());
        assert(texts(v@).len() == v@.len());
        if v.len() > 0 {
            return Some((v, ProfileSource::LoadorderTxt));
        }
    }
    if let Some(text) = &files.plugins {
        let v = parse_plugins_txt_order(text.as_str());
        assert(texts(v@).len() == v@.len());
        if v.len() > 0 {
            return Some((v, ProfileSource::PluginsTxt));
        }
    }
    if let Some(text) = &files.plugins_capital {
        let v = parse_plugins_txt_order(text.as_str());
        assert(texts(v@).len() == v@.len());
        if v.len() > 0 {
            return Some((v, ProfileSource::PluginsTxt));
        }
    }
    None
}

/// The text of optional contents.
pub open spec fn opt_lossy(bytes: Option<Vec<u8>>) -> Option<Seq<char>> {
    match bytes {
        Some(b) => Some(utf8_lossy(b@)),
        None => None,
    }
}

/// Contents that are there and are valid UTF-8.
pub open spec fn is_utf8(bytes: Option<Vec<u8>>) -> bool {
    bytes is Some && valid_utf8(bytes->0@)
}

/// The text of a profile file that may be absent.
fn text_of_file(bytes: &Option<Vec<u8>>) -> (r: Option<String>)
    ensures
        opt_text(r) == opt_lossy(*bytes),
        is_utf8(*bytes) ==> opt_text(r) == Some(decode_utf8(bytes->0@)),
{
    match bytes {
        Some(b) => Some(read_profile_text_lossy(b)),
        None => None,
    }
}

/// A `loadorder.txt` in UTF-8 that lists plugins.
pub open spec fn utf8_loadorder(bytes: Option<Vec<u8>>) -> Option<Seq<Seq<char>>> {
    if is_utf8(bytes) && loadorder_names(decode_utf8(bytes->0@)).len() > 0 {
        Some(loadorder_names(decode_utf8(bytes->0@)))
    } else {
        None
    }
}

/// A `plugins.txt` in UTF-8 that lists plugins.
pub open spec fn utf8_plugins(bytes: Option<Vec<u8>>) -> Option<Seq<Seq<char>>> {
    if is_utf8(bytes) && plugins_names(decode_utf8(bytes->0@)).len() > 0 {
        Some(plugins_names(decode_utf8(bytes->0@)))
    } else {
        None
    }
}

/// The load order of a profile directory as far as files in UTF-8 decide it. The first file, in the
/// order `loadorder.txt`, `plugins.txt`, `Plugins.txt`, that lists plugins decides; a file that is
/// absent, or is in UTF-8 and lists none, is passed over. Where every file is passed over there is
/// no load order.
pub open spec fn decided_order(files: ProfileFiles) -> Option<
    Option<(Seq<Seq<char>>, ProfileSource)>,
> {
    if let Some(names) = utf8_loadorder(files.loadorder) {
        Some(Some((names, ProfileSource::LoadorderTxt)))
    } else if files.loadorder is Some && !is_utf8(files.loadorder) {
        None
    } else if let Some(names) = utf8_plugins(files.plugins) {
        Some(Some((names, ProfileSource::PluginsTxt)))
    } else if files.plugins is Some && !is_utf8(files.plugins) {
        None
    } else if let Some(names) = utf8_plugins(files.plugins_capital) {
        Some(Some((names, ProfileSource::PluginsTxt)))
    } else if files.plugins_capital is Some && !is_utf8(files.plugins_capital) {
        None
    } else {
        Some(None)
    }
}

/// The texts of the files of a profile directory.
pub fn profile_texts(files: &ProfileFiles) -> (r: ProfileTexts)
    ensures
        opt_text(r.loadorder) == opt_lossy(files.loadorder),
        opt_text(r.plugins) == opt_lossy(files.plugins),
        opt_text(r.plugins_capital) == opt_lossy(files.plugins_capital),
        decided_order(*files) matches Some(o) ==> texts_order(r) == o,
        is_utf8(files.loadorder) ==> opt_text(r.loadorder) == Some(
            decode_utf8(files.loadorder->0@),
        ),
        is_utf8(files.plugins) ==> opt_text(r.plugins) == Some(decode_utf8(files.plugins->0@)),
        is_utf8(files.plugins_capital) ==> opt_text(r.plugins_capital) == Some(
            decode_utf8(files.plugins_capital->0@),
        ),
{
    ProfileTexts {
        loadorder: text_of_file(&files.loadorder),
        plugins: text_of_file(&files.plugins),
        plugins_capital: text_of_file(&files.plugins_capital),
    }
}

/// The load order that the files of a profile directory give.
pub open spec fn files_order(files: ProfileFiles) -> Option<(Seq<Seq<char>>, ProfileSource)> {
    profile_order(
        opt_lossy(files.loadorder),
        opt_lossy(files.plugins),
        opt_lossy(files.plugins_capital),
    )
}

/// The load order that the files of a profile directory give.
pub fn read_load_order_from_profile_dir(files: &ProfileFiles) -> (r: Option<
    (Vec<String>, ProfileSource),
>)
    ensures
        order_view(r) == files_order(*files),
        decided_order(*files) matches Some(o) ==> order_view(r) == o,
{
    let loaded = profile_texts(files);
    load_order_from_profile_texts(&loaded)
}

/// Every plugin that a `loadorder.txt` lists is a trimmed, non-empty name that starts no comment.
pub proof fn law_loadorder_names_are_clean(text: Seq<char>, i: int)
    requires
        0 <= i < loadorder_names(text).len(),
    ensures
        loadorder_names(text)[i].len() > 0,
        loadorder_names(text)[i][0] != '#',
        trimmed(loadorder_names(text)[i]) == loadorder_names(text)[i],
{
    let f = |l: Seq<char>| loadorder_entry(l);
    lemma_found_in_member(lines(text), f, i);
    let line = choose|l: Seq<char>| #[trigger] f(l) == Some(loadorder_names(text)[i]);
    lemma_trimmed_ends(line);
}

/// Every plugin that a `plugins.txt` lists is a trimmed, non-empty name.
pub proof fn law_plugins_names_are_clean(text: Seq<char>, i: int)
    requires
        0 <= i < plugins_names(text).len(),
    ensures
        plugins_names(text)[i].len() > 0,
        trimmed(plugins_names(text)[i]) == plugins_names(text)[i],
{
    let f = |l: Seq<char>| plugins_entry(l);
    lemma_found_in_member(lines(text), f, i);
    let line = choose|l: Seq<char>| #[trigger] f(l) == Some(plugins_names(text)[i]);
    lemma_trimmed_ends(line);
    lemma_trimmed_ends(trimmed(line).drop_first());
}

/// Each result of `found_in` comes from some line.
proof fn lemma_found_in_member(
    ls: Seq<Seq<char>>,
    f: spec_fn(Seq<char>) -> Option<Seq<char>>,
    i: int,
)
    requires
        0 <= i < found_in(ls, f).len(),
    ensures
        exists|l: Seq<char>| #[trigger] f(l) == Some(found_in(ls, f)[i]),
    decreases ls.len(),
{
    let rest = found_in(ls.drop_last(), f);
    if i < rest.len() {
        lemma_found_in_member(ls.drop_last(), f, i);
    } else {
        assert(f(ls.last()) == Some(found_in(ls, f)[i]));
    }
}

/// Lines in each of which something is found give one result each.
proof fn lemma_found_in_all(
    ls: Seq<Seq<char>>,
    f: spec_fn(Seq<char>) -> Option<Seq<char>>,
    names: Seq<Seq<char>>,
)
    requires
        ls.len() == names.len(),
        forall|i: int| 0 <= i < ls.len() ==> f(#[trigger] ls[i]) == Some(names[i]),
    ensures
        found_in(ls, f) == names,
    decreases ls.len(),
{
    if ls.len() == 0 {
        assert(found_in(ls, f) =~= names);
    } else {
        assert forall|i: int| 0 <= i < ls.drop_last().len() implies f(
            #[trigger] ls.drop_last()[i],
        ) == Some(names.drop_last()[i]) by {
            assert(ls.drop_last()[i] == ls[i]);
        }
        lemma_found_in_all(ls.drop_last(), f, names.drop_last());
        assert(f(ls[ls.len() - 1]) == Some(names[ls.len() - 1]));
        assert(names.drop_last().push(names.last()) =~= names);
    }
}

/// A load order that is written one plugin to a line reads back as it was written, with either
/// kind of line ending and whatever whitespace surrounds the names.
pub proof fn law_loadorder_reads_back(names: Seq<Seq<char>>, ls: Seq<Seq<char>>)
    requires
        names.len() > 0,
        ls.len() == names.len(),
        forall|i: int| 0 <= i < names.len() ==> (#[trigger] names[i]).len() > 0 && names[i][0] != '#',
        forall|i: int|
            0 <= i < ls.len() ==> !(#[trigger] ls[i]).contains('\n') && trimmed(ls[i]) == names[i],
    ensures
        loadorder_names(joined(ls, seq!['\n'])) == names,
{
    let f = |l: Seq<char>| loadorder_entry(l);
    lemma_lines_of_joined(ls);
    assert forall|i: int| 0 <= i < ls.len() implies f(#[trigger] ls[i]) == Some(names[i]) by {
        assert(names[i].len() > 0);
    }
    lemma_found_in_all(ls, f, names);
}

/// A `plugins.txt` whose lines name the plugins, each with or without an asterisk in front, lists
/// exactly these plugins in this order: the active and the inactive ones alike.
pub proof fn law_plugins_txt_reads_back(names: Seq<Seq<char>>, ls: Seq<Seq<char>>)
    requires
        names.len() > 0,
        ls.len() == names.len(),
        forall|i: int|
            0 <= i < names.len() ==> (#[trigger] names[i]).len() > 0 && names[i][0] != '#'
                && names[i][0] != '*' && trimmed(names[i]) == names[i],
        forall|i: int|
            0 <= i < ls.len() ==> !(#[trigger] ls[i]).contains('\n') && (trimmed(ls[i]) == names[i]
                || trimmed(ls[i]) == seq!['*'] + names[i]),
    ensures
        plugins_names(joined(ls, seq!['\n'])) == names,
{
    let f = |l: Seq<char>| plugins_entry(l);
    lemma_lines_of_joined(ls);
    assert forall|i: int| 0 <= i < ls.len() implies f(#[trigger] ls[i]) == Some(names[i]) by {
        assert(names[i].len() > 0);
        if trimmed(ls[i]) != names[i] {
            assert((seq!['*'] + names[i]).drop_first() =~= names[i]);
        }
    }
    lemma_found_in_all(ls, f, names);
}

/// A line in which nothing is found adds nothing, wherever it stands.
proof fn lemma_found_in_skips(
    before: Seq<Seq<char>>,
    line: Seq<char>,
    after: Seq<Seq<char>>,
    f: spec_fn(Seq<char>) -> Option<Seq<char>>,
)
    requires
        f(line) is None,
    ensures
        found_in(before.push(line) + after, f) == found_in(before + after, f),
    decreases after.len(),
{
    let with = before.push(line) + after;
    let without = before + after;
    if after.len() == 0 {
        assert(with.drop_last() =~= without);
        assert(with.last() == line);
    } else {
        lemma_found_in_skips(before, line, after.drop_last(), f);
        assert(with.drop_last() =~= before.push(line) + after.drop_last());
        assert(without.drop_last() =~= before + after.drop_last());
    }
}

/// Comments and blank lines do not count in any of the three files: a text that has such a line
/// more names the same plugins and mods in the same order.
pub proof fn law_comments_do_not_count(
    before: Seq<Seq<char>>,
    line: Seq<char>,
    after: Seq<Seq<char>>,
)
    requires
        before.len() + after.len() > 0,
        forall|i: int| 0 <= i < before.len() ==> !(#[trigger] before[i]).contains('\n'),
        forall|i: int| 0 <= i < after.len() ==> !(#[trigger] after[i]).contains('\n'),
        !line.contains('\n'),
        trimmed(line).len() == 0 || trimmed(line)[0] == '#',
    ensures
        ({
            let with = joined(before.push(line) + after, seq!['\n']);
            let without = joined(before + after, seq!['\n']);
            &&& loadorder_names(with) == loadorder_names(without)
            &&& plugins_names(with) == plugins_names(without)
            &&& enabled_mods(with) == enabled_mods(without)
        }),
{
    lemma_lines_of_joined(before.push(line) + after);
    lemma_lines_of_joined(before + after);
    lemma_found_in_skips(before, line, after, |l: Seq<char>| loadorder_entry(l));
    lemma_found_in_skips(before, line, after, |l: Seq<char>| plugins_entry(l));
    lemma_found_in_skips(before, line, after, |l: Seq<char>| enabled_mod(l));
}

/// What is found in two runs of lines is what is found in the one and then in the other.
proof fn lemma_found_in_parts(
    a: Seq<Seq<char>>,
    b: Seq<Seq<char>>,
    f: spec_fn(Seq<char>) -> Option<Seq<char>>,
)
    ensures
        found_in(a + b, f) == found_in(a, f) + found_in(b, f),
    decreases b.len(),
{
    if b.len() == 0 {
        assert(a + b =~= a);
        assert(found_in(a, f) + found_in(b, f) =~= found_in(a, f));
    } else {
        lemma_found_in_parts(a, b.drop_last(), f);
        assert((a + b).drop_last() =~= a + b.drop_last());
        assert(found_in(a + b, f) =~= found_in(a, f) + found_in(b, f));
    }
}

/// Each of the three files can be read in parts: what two texts with a line feed between them name
/// is what the one names and then what the other names.
pub proof fn law_texts_read_in_parts(a: Seq<char>, b: Seq<char>)
    ensures
        loadorder_names(a + seq!['\n'] + b) == loadorder_names(a) + loadorder_names(b),
        plugins_names(a + seq!['\n'] + b) == plugins_names(a) + plugins_names(b),
        enabled_mods(a + seq!['\n'] + b) == enabled_mods(a) + enabled_mods(b),
{
    lemma_lines_of_parts(a, b);
    lemma_found_in_parts(lines(a), lines(b), |l: Seq<char>| loadorder_entry(l));
    lemma_found_in_parts(lines(a), lines(b), |l: Seq<char>| plugins_entry(l));
    lemma_found_in_parts(lines(a), lines(b), |l: Seq<char>| enabled_mod(l));
}

/// A text of one line has that line.
proof fn lemma_one_line(line: Seq<char>)
    requires
        !line.contains('\n'),
    ensures
        lines(line) == seq![line],
{
    let ls = seq![line];
    lemma_lines_of_joined(ls);
    reveal_with_fuel(joined, 2);
    assert(joined(ls, seq!['\n']) =~= line);
}

/// What is found in one line alone.
proof fn lemma_found_in_one(line: Seq<char>, f: spec_fn(Seq<char>) -> Option<Seq<char>>)
    ensures
        f(line) is None ==> found_in(seq![line], f).len() == 0,
        f(line) matches Some(name) ==> found_in(seq![line], f) == seq![name],
{
    assert(seq![line].drop_last() =~= Seq::<Seq<char>>::empty());
    assert(found_in(seq![line].drop_last(), f) =~= Seq::<Seq<char>>::empty());
    if let Some(name) = f(line) {
        assert(found_in(seq![line], f) =~= seq![name]);
    }
}

/// What one line of each of the three files names, whitespace round it aside: nothing where it is
/// blank or starts with `#`. A `loadorder.txt` names the plugin that stands there, a `plugins.txt`
/// too, or the one that stands behind an asterisk, and a `modlist.txt` only the mod that stands
/// behind a plus sign.
pub proof fn law_what_a_line_names(line: Seq<char>)
    requires
        !line.contains('\n'),
    ensures
        ({
            let t = trimmed(line);
            let behind = trimmed(t.drop_first());
            &&& t.len() == 0 || t[0] == '#' ==> loadorder_names(line).len() == 0 && plugins_names(
                line,
            ).len() == 0 && enabled_mods(line).len() == 0
            &&& t.len() > 0 && t[0] != '#' ==> {
                &&& loadorder_names(line) == seq![t]
                &&& t[0] != '*' ==> plugins_names(line) == seq![t]
                &&& t[0] == '*' && behind.len() > 0 ==> plugins_names(line) == seq![behind]
                &&& t[0] == '*' && behind.len() == 0 ==> plugins_names(line).len() == 0
                &&& t[0] != '+' ==> enabled_mods(line).len() == 0
                &&& t[0] == '+' && behind.len() > 0 ==> enabled_mods(line) == seq![behind]
                &&& t[0] == '+' && behind.len() == 0 ==> enabled_mods(line).len() == 0
            }
        }),
{
    lemma_one_line(line);
    lemma_found_in_one(line, |l: Seq<char>| loadorder_entry(l));
    lemma_found_in_one(line, |l: Seq<char>| plugins_entry(l));
    lemma_found_in_one(line, |l: Seq<char>| enabled_mod(l));
}

/// The load order of a profile comes from the first file, in the order `loadorder.txt`,
/// `plugins.txt`, `Plugins.txt`, that is there and lists a plugin, and holds all that this file
/// lists; where no file lists one there is no load order.
pub proof fn law_first_file_that_lists(
    loadorder: Option<Seq<char>>,
    plugins: Option<Seq<char>>,
    plugins_capital: Option<Seq<char>>,
)
    ensures
        ({
            let first = loadorder is Some && loadorder_names(loadorder->0).len() > 0;
            let second = plugins is Some && plugins_names(plugins->0).len() > 0;
            let third = plugins_capital is Some && plugins_names(plugins_capital->0).len() > 0;
            let order = profile_order(loadorder, plugins, plugins_capital);
            let (names, source) = order->0;
            &&& order is Some <==> first || second || third
            &&& first ==> names == loadorder_names(loadorder->0)
            &&& first ==> source == ProfileSource::LoadorderTxt
            &&& !first && second ==> names == plugins_names(plugins->0)
            &&& !first && !second && third ==> names == plugins_names(plugins_capital->0)
            &&& !first && (second || third) ==> source == ProfileSource::PluginsTxt
        }),
{
}

/// What texts and files of a profile give is what the profile gives, whether the files are looked at
/// or their texts; an absent file counts as an absent text.
pub proof fn law_profile_views(
    files: ProfileTexts,
    contents: ProfileFiles,
    o: Option<(Vec<String>, ProfileSource)>,
)
    ensures
        texts_order(files) == profile_order(
            opt_text(files.loadorder),
            opt_text(files.plugins),
            opt_text(files.plugins_capital),
        ),
        opt_text(files.loadorder) == opt_lossy(contents.loadorder) && opt_text(files.plugins)
            == opt_lossy(contents.plugins) && opt_text(files.plugins_capital) == opt_lossy(
            contents.plugins_capital,
        ) ==> files_order(contents) == texts_order(files),
        contents.loadorder is None ==> opt_lossy(contents.loadorder) is None,
        contents.loadorder matches Some(b) ==> opt_lossy(contents.loadorder) == Some(
            utf8_lossy(b@),
        ),
        o is None ==> order_view(o) is None,
        o matches Some(p) ==> {
            let (names, source) = order_view(o)->0;
            &&& order_view(o) is Some
            &&& source == p.1
            &&& names.len() == p.0@.len()
            &&& forall|i: int| 0 <= i < p.0@.len() ==> #[trigger] names[i] == p.0@[i]@
        },
        profile_source_name(ProfileSource::LoadorderTxt) == "loadorder_txt"@,
        profile_source_name(ProfileSource::PluginsTxt) == "plugins_txt"@,
{
}

/// The text of contents in UTF-8, where they are there.
pub open spec fn decoded(bytes: Option<Vec<u8>>) -> Option<Seq<char>> {
    match bytes {
        Some(b) => Some(decode_utf8(b@)),
        None => None,
    }
}

/// Files that are all in UTF-8, as far as they are there, decide the load order: it is the one that
/// their texts give.
pub proof fn law_utf8_files_decide(files: ProfileFiles)
    requires
        files.loadorder matches Some(b) ==> valid_utf8(b@),
        files.plugins matches Some(b) ==> valid_utf8(b@),
        files.plugins_capital matches Some(b) ==> valid_utf8(b@),
    ensures
        decided_order(files) == Some(
            profile_order(
                decoded(files.loadorder),
                decoded(files.plugins),
                decoded(files.plugins_capital),
            ),
        ),
{
}

/// A `loadorder.txt` in UTF-8 that lists plugins decides alone, and without one a `plugins.txt` in
/// UTF-8 that lists plugins does, whatever the files after them hold.
pub proof fn law_earlier_files_decide(files: ProfileFiles, a: Vec<u8>)
    requires
        valid_utf8(a@),
    ensures
        files.loadorder == Some(a) && loadorder_names(decode_utf8(a@)).len() > 0 ==> decided_order(
            files,
        ) == Some(Some((loadorder_names(decode_utf8(a@)), ProfileSource::LoadorderTxt))),
        files.loadorder is None && files.plugins == Some(a) && plugins_names(
            decode_utf8(a@),
        ).len() > 0 ==> decided_order(files) == Some(
            Some((plugins_names(decode_utf8(a@)), ProfileSource::PluginsTxt)),
        ),
{
}

} // verus!
