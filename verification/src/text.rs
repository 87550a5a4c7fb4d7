//! Character-level helpers: trimming, ASCII case folding, splitting and joining.

use vstd::prelude::*;

verus! {

/// `String::push` appends one character to the end of the string and changes nothing else.
pub assume_specification[ String::push ](s: &mut String, ch: char)
    ensures
        final(s)@ == old(s)@.push(ch),
;

/// Unicode `White_Space`, the property that decides what trimming removes.
pub open spec fn is_whitespace(c: char) -> bool {
    let n = c as u32;
    ||| 0x9 <= n <= 0xd
    ||| n == 0x20
    ||| n == 0x85
    ||| n == 0xa0
    ||| n == 0x1680
    ||| 0x2000 <= n <= 0x200a
    ||| n == 0x2028
    ||| n == 0x2029
    ||| n == 0x202f
    ||| n == 0x205f
    ||| n == 0x3000
}

/// `s` without the whitespace at its two ends.
pub open spec fn trimmed(s: Seq<char>) -> Seq<char>
    decreases s.len(),
{
    if s.len() == 0 {
        s
    } else if is_whitespace(s.first()) {
        trimmed(s.drop_first())
    } else if is_whitespace(s.last()) {
        trimmed(s.drop_last())
    } else {
        s
    }
}

/// ASCII upper case letters become lower case, every other character is kept.
pub open spec fn lower_char(c: char) -> char {
    if 'A' <= c && c <= 'Z' {
        ((c as u8 + 32) as u8) as char
    } else {
        c
    }
}

/// `s` with its ASCII letters in lower case.
pub open spec fn lowered(s: Seq<char>) -> Seq<char> {
    Seq::new(s.len(), |i: int| lower_char(s[i]))
}

/// The pieces of `s` between its line feeds, from the first to the last.
pub open spec fn lines(s: Seq<char>) -> Seq<Seq<char>>
    decreases s.len(),
{
    if s.len() == 0 {
        seq![Seq::empty()]
    } else {
        let before = lines(s.drop_last());
        if s.last() == '\n' {
            before.push(Seq::empty())
        } else {
            before.drop_last().push(before.last().push(s.last()))
        }
    }
}

/// `parts` one after the other with `sep` between each two.
pub open spec fn joined(parts: Seq<Seq<char>>, sep: Seq<char>) -> Seq<char>
    decreases parts.len(),
{
    if parts.len() == 0 {
        Seq::empty()
    } else if parts.len() == 1 {
        parts[0]
    } else {
        joined(parts.drop_last(), sep) + sep + parts.last()
    }
}

/// Whether `s` ends with `suffix`.
pub open spec fn ends_with(s: Seq<char>, suffix: Seq<char>) -> bool {
    suffix.len() <= s.len() && s.skip(s.len() - suffix.len()) == suffix
}

/// The character sequences of `v`.
pub open spec fn texts(v: Seq<String>) -> Seq<Seq<char>> {
    v.map_values(|s: String| s@)
}

/// The characters of an optional text.
pub open spec fn opt_text(o: Option<String>) -> Option<Seq<char>> {
    match o {
        Some(s) => Some(s@),
        None => None,
    }
}

/// An optional text counts as given when something is left of it after trimming.
pub open spec fn given(o: Option<Seq<char>>) -> Option<Seq<char>> {
    match o {
        Some(s) => if trimmed(s).len() > 0 {
            Some(trimmed(s))
        } else {
            None
        },
        None => None,
    }
}

pub open spec fn is_digit(c: char) -> bool {
    '0' <= c && c <= '9'
}

/// The number that a run of decimal digits stands for.
pub open spec fn digits_value(s: Seq<char>) -> nat
    decreases s.len(),
{
    if s.len() == 0 {
        0
    } else {
        digits_value(s.drop_last()) * 10 + (s.last() as u32 - '0' as u32) as nat
    }
}

/// The digits of a number that may be written with a leading plus sign.
pub open spec fn unsigned_digits(s: Seq<char>) -> Seq<char> {
    if s.len() > 1 && s[0] == '+' {
        s.drop_first()
    } else {
        s
    }
}

/// The `u64` that `s` spells: an optional plus sign, then decimal digits only, at least one.
pub open spec fn unsigned_value(s: Seq<char>) -> Option<u64> {
    let d = unsigned_digits(s);
    if d.len() > 0 && (forall|i: int| 0 <= i < d.len() ==> is_digit(#[trigger] d[i]))
        && digits_value(d) <= u64::MAX {
        Some(digits_value(d) as u64)
    } else {
        None
    }
}

/// The characters of `s`.
pub fn chars_of(s: &str) -> (r: Vec<char>)
    ensures
        r@ == s@,
{
    let mut out: Vec<char> = Vec::new();
    for c in it: s.chars()
        invariant
            out@ == it.seq().take(it.index()),
            it.seq() == s@,
    {
        out.push(c);
        assert(it.seq().take(it.index() + 1) =~= it.seq().take(it.index()).push(c));
    }
    assert(s@.take(s@.len() as int) =~= s@);
    out
}

/// The text made of `chars[from..to]`.
pub fn text_of(chars: &Vec<char>, from: usize, to: usize) -> (r: String)
    requires
        from <= to <= chars@.len(),
    ensures
        r@ == chars@.subrange(from as int, to as int),
{
    let mut out = String::new();
    let mut i: usize = from;
    while i < to
        invariant
            from <= i <= to <= chars@.len(),
            out@ == chars@.subrange(from as int, i as int),
        decreases to - i,
    {
        out.push(chars[i]);
        assert(chars@.subrange(from as int, i + 1) =~= chars@.subrange(from as int, i as int).push(chars@[i as int]));
        i += 1;
    }
    out
}

/// Whether a character is whitespace.
pub fn char_is_whitespace(c: char) -> (r: bool)
    ensures
        r == is_whitespace(c),
{
    let n: u32 = c as u32;
    (0x9 <= n && n <= 0xd) || n == 0x20 || n == 0x85 || n == 0xa0 || n == 0x1680 || (0x2000 <= n
        && n <= 0x200a) || n == 0x2028 || n == 0x2029 || n == 0x202f || n == 0x205f || n == 0x3000
}

/// A copy of `s` without the whitespace at its two ends.
pub fn trim(s: &str) -> (r: String)
    ensures
        r@ == trimmed(s@),
{
    let chars = chars_of(s);
    let mut from: usize = 0;
    let mut to: usize = chars.len();
    assert(chars@.subrange(0, to as int) =~= s@);
    while from < to && char_is_whitespace(chars[from])
        invariant
            from <= to == chars@.len(),
            chars@ == s@,
            trimmed(s@) == trimmed(chars@.subrange(from as int, to as int)),
        decreases to - from,
    {
        assert(chars@.subrange(from as int, to as int).drop_first() =~= chars@.subrange(
            from + 1,
            to as int,
        ));
        from += 1;
    }
    while from < to && char_is_whitespace(chars[to - 1])
        invariant
            from <= to <= chars@.len(),
            chars@ == s@,
            from < to ==> !is_whitespace(chars@[from as int]),
            trimmed(s@) == trimmed(chars@.subrange(from as int, to as int)),
        decreases to - from,
    {
        assert(chars@.subrange(from as int, to as int).drop_last() =~= chars@.subrange(
            from as int,
            to - 1,
        ));
        to -= 1;
    }
    text_of(&chars, from, to)
}

/// A copy of `s` with its ASCII letters in lower case.
pub fn to_ascii_lowercase(s: &str) -> (r: String)
    ensures
        r@ == lowered(s@),
{
    let mut out = String::new();
    for c in it: s.chars()
        invariant
            it.seq() == s@,
            out@ == lowered(s@.take(it.index())),
    {
        let low = if 'A' <= c && c <= 'Z' {
            (c as u8 + 32) as char
        } else {
            c
        };
        out.push(low);
        assert(lowered(s@.take(it.index() + 1)) =~= lowered(s@.take(it.index())).push(low));
    }
    assert(s@.take(s@.len() as int) =~= s@);
    out
}

/// Whether two texts hold the same characters.
pub fn same_text(a: &str, b: &str) -> (r: bool)
    ensures
        r == (a@ == b@),
{
    let x = chars_of(a);
    let y = chars_of(b);
    if x.len() != y.len() {
        return false;
    }
    let mut i: usize = 0;
    while i < x.len()
        invariant
            i <= x@.len() == y@.len(),
            x@ == a@,
            y@ == b@,
            forall|j: int| 0 <= j < i ==> x@[j] == y@[j],
        decreases x@.len() - i,
    {
        if x[i] != y[i] {
            assert(a@[i as int] != b@[i as int]);
            return false;
        }
        i += 1;
    }
    assert(a@ =~= b@);
    true
}

/// Whether two texts are the same but for the case of their ASCII letters.
pub fn eq_ignore_ascii_case(a: &str, b: &str) -> (r: bool)
    ensures
        r == (lowered(a@) == lowered(b@)),
{
    let x = to_ascii_lowercase(a);
    let y = to_ascii_lowercase(b);
    same_text(x.as_str(), y.as_str())
}

/// Whether `s` ends with `suffix`.
pub fn text_ends_with(s: &str, suffix: &str) -> (r: bool)
    ensures
        r == ends_with(s@, suffix@),
{
    let x = chars_of(s);
    let y = chars_of(suffix);
    if x.len() < y.len() {
        return false;
    }
    let d: usize = x.len() - y.len();
    let tail = text_of(&x, d, x.len());
    assert(tail@ =~= s@.skip(d as int));
    same_text(tail.as_str(), suffix)
}

/// The first `n` characters of `s`.
pub fn take_chars(s: &str, n: usize) -> (r: String)
    requires
        n <= s@.len(),
    ensures
        r@ == s@.take(n as int),
{
    let x = chars_of(s);
    let out = text_of(&x, 0, n);
    assert(out@ =~= s@.take(n as int));
    out
}

/// Whether `c` is the first character of `s`.
pub fn starts_with_char(s: &str, c: char) -> (r: bool)
    ensures
        r == (s@.len() > 0 && s@[0] == c),
{
    if s.is_empty() {
        false
    } else {
        s.get_char(0) == c
    }
}

/// What follows the first character of `s`.
pub fn after_first(s: &str) -> (r: String)
    requires
        s@.len() > 0,
    ensures
        r@ == s@.drop_first(),
{
    let x = chars_of(s);
    let out = text_of(&x, 1, x.len());
    assert(out@ =~= s@.drop_first());
    out
}

/// The lines of `s`; the line feeds themselves are left out.
pub fn split_lines(s: &str) -> (r: Vec<String>)
    ensures
        texts(r@) == lines(s@),
{
    let mut out: Vec<String> = Vec::new();
    let mut cur = String::new();
    assert(texts(out@).push(cur@) =~= lines(s@.take(0)));
    for c in it: s.chars()
        invariant
            it.seq() == s@,
            texts(out@).push(cur@) == lines(s@.take(it.index())),
    {
        let ghost done = s@.take(it.index() + 1);
        let ghost so_far = texts(out@);
        assert(done.drop_last() =~= s@.take(it.index()));
        assert(done.last() == c);
        if c == '\n' {
            let ghost line = cur@;
            out.push(cur);
            cur = String::new();
            assert(texts(out@) =~= so_far.push(line));
            assert(cur@ =~= Seq::<char>::empty());
        } else {
            let ghost line = cur@;
            cur.push(c);
            assert(so_far.push(line).drop_last() =~= so_far);
        }
    }
    assert(s@.take(s@.len() as int) =~= s@);
    let ghost so_far = texts(out@);
    let ghost line = cur@;
    out.push(cur);
    assert(texts(out@) =~= so_far.push(line));
    out
}

/// `parts` one after the other with `sep` between each two.
pub fn join_texts(parts: &Vec<String>, sep: &str) -> (r: String)
    ensures
        r@ == joined(texts(parts@), sep@),
{
    let mut out = String::new();
    let mut i: usize = 0;
    let ghost all = texts(parts@);
    assert(all.take(0) =~= Seq::<Seq<char>>::empty());
    while i < parts.len()
        invariant
            i <= parts@.len(),
            all == texts(parts@),
            out@ == joined(all.take(i as int), sep@),
        decreases parts@.len() - i,
    {
        let ghost next = all.take(i + 1);
        assert(next.drop_last() =~= all.take(i as int));
        assert(next.last() == parts@[i as int]@);
        if i > 0 {
            out.append(sep);
        } else {
            assert(out@ =~= Seq::<char>::empty());
            assert(next[0] =~= out@ + next[0]);
        }
        out.append(parts[i].as_str());
        i += 1;
    }
    assert(all.take(all.len() as int) =~= all);
    out
}

/// A copy of an optional text.
pub fn copy_opt(o: &Option<String>) -> (r: Option<String>)
    ensures
        opt_text(r) == opt_text(*o),
{
    match o {
        Some(s) => Some(s.clone()),
        None => None,
    }
}

/// A copy of a list of texts.
pub fn copy_texts(v: &Vec<String>) -> (r: Vec<String>)
    ensures
        texts(r@) == texts(v@),
{
    let mut out: Vec<String> = Vec::new();
    let mut i: usize = 0;
    while i < v.len()
        invariant
            i <= v@.len(),
            texts(out@) == texts(v@).take(i as int),
        decreases v@.len() - i,
    {
        let ghost before = texts(out@);
        let s = v[i].clone();
        out.push(s);
        assert(texts(out@) =~= before.push(s@));
        assert(texts(v@).take(i + 1) =~= texts(v@).take(i as int).push(v@[i as int]@));
        i += 1;
    }
    assert(texts(v@).take(v@.len() as int) =~= texts(v@));
    out
}

/// The trimmed text, where something is left of it.
pub fn given_text(o: &Option<String>) -> (r: Option<String>)
    ensures
        opt_text(r) == given(opt_text(*o)),
{
    match o {
        Some(s) => {
            let t = trim(s.as_str());
            if t.as_str().is_empty() {
                None
            } else {
                Some(t)
            }
        },
        None => None,
    }
}

/// The number that `s` spells, where it spells one that fits.
pub fn parse_unsigned(s: &str) -> (r: Option<u64>)
    ensures
        r == unsigned_value(s@),
{
    let x = chars_of(s);
    let from: usize = if x.len() > 1 && x[0] == '+' {
        1
    } else {
        0
    };
    let ghost d = unsigned_digits(s@);
    assert(d =~= x@.skip(from as int));
    if x.len() == from {
        return None;
    }
    let mut value: u64 = 0;
    let mut i: usize = from;
    assert(d.take(0) =~= Seq::<char>::empty());
    while i < x.len()
        invariant
            from <= i <= x@.len(),
            d == x@.skip(from as int),
            d == unsigned_digits(s@),
            d.len() > 0,
            value == digits_value(d.take(i - from)),
            forall|j: int| 0 <= j < i - from ==> is_digit(#[trigger] d[j]),
        decreases x@.len() - i,
    {
        let c = x[i];
        assert(d[i - from] == c);
        if !('0' <= c && c <= '9') {
            assert(!is_digit(d[i - from]));
            return None;
        }
        let ghost next = d.take(i - from + 1);
        assert(next.drop_last() =~= d.take(i - from));
        let digit: u64 = (c as u32 - '0' as u32) as u64;
        if value > (u64::MAX - digit) / 10 {
            proof {
                assert(digits_value(next) > u64::MAX);
                lemma_digits_value_monotone(d, i - from + 1);
            }
            return None;
        }
        value = value * 10 + digit;
        i += 1;
    }
    assert(d.take(d.len() as int) =~= d);
    Some(value)
}

/// A longer run of digits stands for a number that is at least as large.
proof fn lemma_digits_value_monotone(d: Seq<char>, n: int)
    requires
        0 <= n <= d.len(),
    ensures
        digits_value(d.take(n)) <= digits_value(d),
    decreases d.len() - n,
{
    if n < d.len() {
        assert(d.take(n + 1).drop_last() =~= d.take(n));
        lemma_digits_value_monotone(d, n + 1);
    } else {
        assert(d.take(n) =~= d);
    }
}

/// Trimming leaves nothing to trim: what is left neither starts nor ends with whitespace.
pub proof fn lemma_trimmed_ends(s: Seq<char>)
    ensures
        trimmed(s).len() > 0 ==> !is_whitespace(trimmed(s).first()) && !is_whitespace(
            trimmed(s).last(),
        ),
        trimmed(trimmed(s)) == trimmed(s),
    decreases s.len(),
{
    if s.len() > 0 {
        if is_whitespace(s.first()) {
            lemma_trimmed_ends(s.drop_first());
        } else if is_whitespace(s.last()) {
            lemma_trimmed_ends(s.drop_last());
        }
    }
}

/// Whitespace put round a text is trimmed away again.
pub proof fn lemma_trimmed_padding(s: Seq<char>, before: Seq<char>, after: Seq<char>)
    requires
        forall|i: int| 0 <= i < before.len() ==> is_whitespace(#[trigger] before[i]),
        forall|i: int| 0 <= i < after.len() ==> is_whitespace(#[trigger] after[i]),
    ensures
        trimmed(before + s + after) == trimmed(s),
    decreases before.len() + after.len() + s.len(),
{
    let all = before + s + after;
    if before.len() > 0 {
        assert(is_whitespace(before[0]));
        assert(all.drop_first() =~= before.drop_first() + s + after);
        assert forall|i: int| 0 <= i < before.drop_first().len() implies is_whitespace(
            #[trigger] before.drop_first()[i],
        ) by {
            assert(is_whitespace(before[i + 1]));
        }
        lemma_trimmed_padding(s, before.drop_first(), after);
    } else if s.len() > 0 && is_whitespace(s.first()) {
        assert(all.drop_first() =~= before + s.drop_first() + after);
        lemma_trimmed_padding(s.drop_first(), before, after);
    } else if after.len() > 0 {
        assert(is_whitespace(after.last()));
        assert(all.last() == after.last());
        assert(all.drop_last() =~= before + s + after.drop_last());
        if s.len() == 0 {
            assert(is_whitespace(after[0]));
            lemma_all_whitespace(all);
            assert(trimmed(s) =~= Seq::<char>::empty());
        } else {
            lemma_trimmed_padding(s, before, after.drop_last());
        }
    } else {
        assert(all =~= s);
    }
}

/// Nothing is left of a text of whitespace alone.
pub proof fn lemma_all_whitespace(s: Seq<char>)
    requires
        forall|i: int| 0 <= i < s.len() ==> is_whitespace(#[trigger] s[i]),
    ensures
        trimmed(s) == Seq::<char>::empty(),
    decreases s.len(),
{
    if s.len() > 0 {
        assert(is_whitespace(s[0]));
        assert forall|i: int| 0 <= i < s.drop_first().len() implies is_whitespace(
            #[trigger] s.drop_first()[i],
        ) by {
            assert(is_whitespace(s[i + 1]));
        }
        lemma_all_whitespace(s.drop_first());
    } else {
        assert(s =~= Seq::<char>::empty());
    }
}

/// Appending a line feed and a text without line feeds adds that text as one more line.
pub proof fn lemma_lines_append(head: Seq<char>, tail: Seq<char>)
    requires
        !tail.contains('\n'),
    ensures
        lines(head + seq!['\n'] + tail) == lines(head).push(tail),
    decreases tail.len(),
{
    let all = head + seq!['\n'] + tail;
    if tail.len() == 0 {
        assert(all.drop_last() =~= head);
        assert(tail =~= Seq::<char>::empty());
    } else {
        assert(tail.contains(tail.last()));
        assert(!tail.drop_last().contains('\n')) by {
            if tail.drop_last().contains('\n') {
                let i = tail.drop_last().index_of('\n');
                assert(tail[i] == '\n');
            }
        }
        lemma_lines_append(head, tail.drop_last());
        assert(all.drop_last() =~= head + seq!['\n'] + tail.drop_last());
        let before = lines(head).push(tail.drop_last());
        assert(before.drop_last() =~= lines(head));
        assert(tail.drop_last().push(tail.last()) =~= tail);
    }
}

/// The lines of two texts with a line feed between them are those of the one and then those of the
/// other.
pub proof fn lemma_lines_of_parts(head: Seq<char>, tail: Seq<char>)
    ensures
        lines(head + seq!['\n'] + tail) == lines(head) + lines(tail),
        lines(tail).len() > 0,
    decreases tail.len(),
{
    let all = head + seq!['\n'] + tail;
    if tail.len() == 0 {
        assert(all.drop_last() =~= head);
        assert(lines(all) =~= lines(head) + lines(tail));
    } else {
        lemma_lines_of_parts(head, tail.drop_last());
        assert(all.drop_last() =~= head + seq!['\n'] + tail.drop_last());
        assert(lines(all) =~= lines(head) + lines(tail));
    }
}

/// A text without line feeds is its own only line.
pub proof fn lemma_single_line(s: Seq<char>)
    requires
        !s.contains('\n'),
    ensures
        lines(s) == seq![s],
    decreases s.len(),
{
    if s.len() == 0 {
        assert(s =~= Seq::<char>::empty());
    } else {
        assert(s.contains(s.last()));
        assert(!s.drop_last().contains('\n')) by {
            if s.drop_last().contains('\n') {
                let i = s.drop_last().index_of('\n');
                assert(s[i] == '\n');
            }
        }
        lemma_single_line(s.drop_last());
        assert(s.drop_last().push(s.last()) =~= s);
        assert(lines(s) =~= seq![s]);
    }
}

/// Splitting undoes joining with line feeds, for parts that hold none themselves.
pub proof fn lemma_lines_of_joined(parts: Seq<Seq<char>>)
    requires
        parts.len() > 0,
        forall|i: int| 0 <= i < parts.len() ==> !(#[trigger] parts[i]).contains('\n'),
    ensures
        lines(joined(parts, seq!['\n'])) == parts,
    decreases parts.len(),
{
    if parts.len() == 1 {
        lemma_single_line(parts[0]);
        assert(parts =~= seq![parts[0]]);
    } else {
        let rest = parts.drop_last();
        assert forall|i: int| 0 <= i < rest.len() implies !(#[trigger] rest[i]).contains('\n') by {
            assert(rest[i] == parts[i]);
        }
        lemma_lines_of_joined(rest);
        lemma_lines_append(joined(rest, seq!['\n']), parts.last());
        assert(rest.push(parts.last()) =~= parts);
    }
}

/// Exactly these characters are whitespace: the ASCII ones from the tab to the carriage return, the
/// space, and those that Unicode adds.
pub proof fn law_whitespace_characters(c: char)
    ensures
        is_whitespace(c) <==> (c == '\t' || c == '\n' || c == '\u{b}' || c == '\u{c}' || c == '\r'
            || c == ' ' || c == '\u{85}' || c == '\u{a0}' || c == '\u{1680}' || (c >= '\u{2000}'
            && c <= '\u{200a}') || c == '\u{2028}' || c == '\u{2029}' || c == '\u{202f}' || c
            == '\u{205f}' || c == '\u{3000}'),
{
}

/// Whether `s[b..e]` has only whitespace round it and none at its own ends.
pub open spec fn is_middle(s: Seq<char>, b: int, e: int) -> bool {
    &&& 0 <= b <= e <= s.len()
    &&& forall|i: int| 0 <= i < b ==> is_whitespace(#[trigger] s[i])
    &&& forall|i: int| e <= i < s.len() ==> is_whitespace(#[trigger] s[i])
    &&& b < e ==> !is_whitespace(s[b]) && !is_whitespace(s[e - 1])
}

/// Trimming cuts a run of whitespace off each end and nothing else: what is left is a piece of the
/// text that has only whitespace round it and none at its own ends.
pub proof fn law_trimmed_is_the_middle(s: Seq<char>) -> (r: (int, int))
    ensures
        is_middle(s, r.0, r.1),
        s.subrange(r.0, r.1) == trimmed(s),
    decreases s.len(),
{
    if s.len() == 0 {
        assert(s.subrange(0, 0) =~= trimmed(s));
        (0, 0)
    } else if is_whitespace(s.first()) {
        let t = s.drop_first();
        let (b, e) = law_trimmed_is_the_middle(t);
        assert(s.subrange(b + 1, e + 1) =~= t.subrange(b, e));
        assert forall|i: int| 0 <= i < b + 1 implies is_whitespace(#[trigger] s[i]) by {
            if i > 0 {
                assert(t[i - 1] == s[i]);
            }
        }
        assert forall|i: int| e + 1 <= i < s.len() implies is_whitespace(#[trigger] s[i]) by {
            assert(t[i - 1] == s[i]);
        }
        (b + 1, e + 1)
    } else if is_whitespace(s.last()) {
        let t = s.drop_last();
        let (b, e) = law_trimmed_is_the_middle(t);
        assert(s.subrange(b, e) =~= t.subrange(b, e));
        assert forall|i: int| 0 <= i < b implies is_whitespace(#[trigger] s[i]) by {
            assert(t[i] == s[i]);
        }
        assert forall|i: int| e <= i < s.len() implies is_whitespace(#[trigger] s[i]) by {
            if i < t.len() {
                assert(t[i] == s[i]);
            }
        }
        (b, e)
    } else {
        assert(s.subrange(0, s.len() as int) =~= trimmed(s));
        (0, s.len() as int)
    }
}

/// Lowering the case changes each of the letters `A` to `Z` to the letter that is 32 places further
/// on, and no other character.
pub proof fn law_lowered_letters(s: Seq<char>)
    ensures
        lowered(s).len() == s.len(),
        forall|i: int|
            0 <= i < s.len() ==> if s[i] >= 'A' && s[i] <= 'Z' {
                #[trigger] lowered(s)[i] as u32 == s[i] as u32 + 32
            } else {
                lowered(s)[i] == s[i]
            },
{
}

/// Joining puts the separator between the parts and nowhere else.
pub proof fn law_joined_parts(a: Seq<Seq<char>>, b: Seq<Seq<char>>, one: Seq<char>, sep: Seq<char>)
    ensures
        joined(Seq::empty(), sep) == Seq::<char>::empty(),
        joined(seq![one], sep) == one,
        a.len() > 0 && b.len() > 0 ==> joined(a + b, sep) == joined(a, sep) + sep + joined(b, sep),
    decreases b.len(),
{
    if a.len() > 0 && b.len() > 0 {
        let all = a + b;
        assert(all.drop_last() =~= a + b.drop_last());
        assert(all.last() == b.last());
        if b.len() > 1 {
            law_joined_parts(a, b.drop_last(), one, sep);
            assert(joined(all, sep) =~= joined(a, sep) + sep + joined(b, sep));
        } else {
            assert(a + b.drop_last() =~= a);
            assert(joined(b, sep) == b[0]);
        }
    }
}

/// The lines of a text make up the text when line feeds are put between them, and none of them holds
/// a line feed.
pub proof fn law_lines_make_up_the_text(s: Seq<char>)
    ensures
        lines(s).len() > 0,
        joined(lines(s), seq!['\n']) == s,
        forall|i: int| 0 <= i < lines(s).len() ==> !(#[trigger] lines(s)[i]).contains('\n'),
    decreases s.len(),
{
    let sep = seq!['\n'];
    if s.len() == 0 {
        assert(joined(lines(s), sep) =~= s);
    } else {
        let before = lines(s.drop_last());
        law_lines_make_up_the_text(s.drop_last());
        let now = lines(s);
        if s.last() == '\n' {
            assert(now.drop_last() =~= before);
            assert(joined(now, sep) =~= s);
            assert forall|i: int| 0 <= i < now.len() implies !(#[trigger] now[i]).contains('\n') by {
                if i < before.len() {
                    assert(now[i] == before[i]);
                }
            }
        } else {
            assert(now.drop_last() =~= before.drop_last());
            assert(s =~= s.drop_last().push(s.last()));
            assert(joined(now, sep) =~= joined(before, sep).push(s.last()));
            assert forall|i: int| 0 <= i < now.len() implies !(#[trigger] now[i]).contains('\n') by {
                if i < now.len() - 1 {
                    assert(now[i] == before[i]);
                } else {
                    assert(!before[i].contains('\n'));
                    let last = before[i].push(s.last());
                    if last.contains('\n') {
                        let j = last.index_of('\n');
                        if j < before[i].len() {
                            assert(before[i][j] == '\n');
                        }
                    }
                }
            }
        }
    }
}

/// A text ends with another exactly where it is something followed by that other.
pub proof fn law_ends_with_is_a_suffix(s: Seq<char>, suffix: Seq<char>, before: Seq<char>)
    ensures
        ends_with(before + suffix, suffix),
        ends_with(s, suffix) ==> s == s.take(s.len() - suffix.len()) + suffix,
{
    let all = before + suffix;
    assert(all.skip(all.len() - suffix.len()) =~= suffix);
    if ends_with(s, suffix) {
        assert(s =~= s.take(s.len() - suffix.len()) + suffix);
    }
}

/// The views of texts leave nothing out.
pub proof fn law_text_views(v: Seq<String>, o: Option<String>)
    ensures
        texts(v).len() == v.len(),
        forall|i: int| 0 <= i < v.len() ==> #[trigger] texts(v)[i] == v[i]@,
        o is None ==> opt_text(o) is None,
        o matches Some(s) ==> opt_text(o) == Some(s@),
{
}

/// A text counts as given, trimmed, exactly where it holds a character that is not whitespace.
pub proof fn law_given_texts(s: Seq<char>)
    ensures
        given(None) is None,
        (exists|i: int| 0 <= i < s.len() && !is_whitespace(#[trigger] s[i])) ==> given(Some(s))
            == Some(trimmed(s)),
        (forall|i: int| 0 <= i < s.len() ==> is_whitespace(#[trigger] s[i])) ==> given(
            Some(s),
        ) is None,
{
    let (b, e) = law_trimmed_is_the_middle(s);
    if b == e {
        assert(trimmed(s).len() == 0);
        assert forall|i: int| 0 <= i < s.len() implies is_whitespace(#[trigger] s[i]) by {}
    } else {
        assert(!is_whitespace(s[b]));
    }
}

/// Digits are read in the decimal system: one more digit at the end makes ten times the number and
/// the digit.
pub proof fn law_digits_are_decimal(s: Seq<char>, c: char)
    requires
        '0' <= c && c <= '9',
    ensures
        is_digit(c),
        digits_value(Seq::empty()) == 0,
        digits_value(s.push(c)) == 10 * digits_value(s) + (c as u32 - 48),
{
    assert(s.push(c).drop_last() =~= s);
}

/// A number is one or more of the digits `0` to `9`, with or without one plus sign in front, that
/// fits into 64 bits; nothing else is one.
pub proof fn law_numbers_are_digits(d: Seq<char>)
    ensures
        unsigned_value(Seq::empty()) is None,
        d.len() > 0 && (forall|i: int| 0 <= i < d.len() ==> '0' <= (#[trigger] d[i]) && d[i] <= '9')
            ==> unsigned_value(d) == unsigned_value(seq!['+'] + d) && if digits_value(d)
            <= 0xffff_ffff_ffff_ffff {
            unsigned_value(d) == Some(digits_value(d) as u64)
        } else {
            unsigned_value(d) is None
        },
        (exists|i: int| 0 < i < d.len() && !('0' <= (#[trigger] d[i]) && d[i] <= '9'))
            ==> unsigned_value(d) is None,
        d.len() > 0 && d[0] != '+' && !('0' <= d[0] && d[0] <= '9') ==> unsigned_value(d) is None,
        unsigned_value(seq!['+']) is None,
{
    let plus = seq!['+'] + d;
    assert(plus.drop_first() =~= d);
    if d.len() > 0 && (forall|i: int|
        0 <= i < d.len() ==> '0' <= (#[trigger] d[i]) && d[i] <= '9') {
        assert('0' <= d[0]);
        assert(unsigned_digits(d) == d);
        assert(unsigned_digits(plus) == d);
        assert forall|i: int| 0 <= i < d.len() implies is_digit(#[trigger] d[i]) by {}
    }
    if exists|i: int| 0 < i < d.len() && !('0' <= (#[trigger] d[i]) && d[i] <= '9') {
        let i = choose|i: int| 0 < i < d.len() && !('0' <= (#[trigger] d[i]) && d[i] <= '9');
        if d[0] == '+' {
            assert(unsigned_digits(d)[i - 1] == d[i]);
            assert(!is_digit(unsigned_digits(d)[i - 1]));
        } else {
            assert(!is_digit(unsigned_digits(d)[i]));
        }
    }
    if d.len() > 0 && d[0] != '+' && !('0' <= d[0] && d[0] <= '9') {
        assert(!is_digit(unsigned_digits(d)[0]));
    }
    assert(!is_digit(unsigned_digits(seq!['+'])[0]));
}

} // verus!
