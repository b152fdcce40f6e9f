//! Text operations on character sequences.
//!
//! Strings are modelled by their characters. Byte lengths are lengths of the
//! UTF-8 encoding of those characters.

use vstd::prelude::*;

verus! {

/// `String::push` appends one character.
pub assume_specification[ String::push ](text: &mut String, c: char)
    ensures
        final(text)@ == old(text)@.push(c),
;

/// The characters that Unicode lists as `White_Space`.
pub open spec fn is_space(c: char) -> bool {
    ||| '\u{9}' <= c <= '\u{d}'
    ||| c == '\u{20}'
    ||| c == '\u{85}'
    ||| c == '\u{a0}'
    ||| c == '\u{1680}'
    ||| '\u{2000}' <= c <= '\u{200a}'
    ||| c == '\u{2028}'
    ||| c == '\u{2029}'
    ||| c == '\u{202f}'
    ||| c == '\u{205f}'
    ||| c == '\u{3000}'
}

/// The control characters of ASCII and of the Latin-1 supplement.
pub open spec fn is_control_char(c: char) -> bool {
    c <= '\u{1f}' || '\u{7f}' <= c <= '\u{9f}'
}

/// Number of bytes that the UTF-8 encoding of `text` takes.
pub open spec fn byte_len(text: Seq<char>) -> nat {
    vstd::utf8::encode_utf8(text).len()
}

/// The contents of a list of strings.
pub open spec fn texts(list: Seq<String>) -> Seq<Seq<char>> {
    list.map_values(|item: String| item@)
}

/// Tells whether `c` is white space.
pub fn is_whitespace(c: char) -> (r: bool)
    ensures
        r == is_space(c),
{
    ('\u{9}' <= c && c <= '\u{d}') || c == '\u{20}' || c == '\u{85}' || c == '\u{a0}' || c
        == '\u{1680}' || ('\u{2000}' <= c && c <= '\u{200a}') || c == '\u{2028}' || c == '\u{2029}'
        || c == '\u{202f}' || c == '\u{205f}' || c == '\u{3000}'
}

/// Tells whether `c` is a control character.
pub fn is_control(c: char) -> (r: bool)
    ensures
        r == is_control_char(c),
{
    c <= '\u{1f}' || ('\u{7f}' <= c && c <= '\u{9f}')
}

/// The characters of `text`, in order.
pub fn chars_of(text: &str) -> (r: Vec<char>)
    ensures
        r@ == text@,
{
    let mut out: Vec<char> = Vec::new();
    for c in it: text.chars()
        invariant
            out@ == it.seq().take(it.index() as int),
            it.seq() == text@,
    {
        out.push(c);
    }
    out
}

/// The string made of `chars[from..to]`.
pub fn string_of(chars: &Vec<char>, from: usize, to: usize) -> (r: String)
    requires
        from <= to <= chars@.len(),
    ensures
        r@ == chars@.subrange(from as int, to as int),
{
    let mut out = String::new();
    let mut i: usize = from;
    while i < to
        invariant
            from <= i <= to <= chars@.len(),
            out@ == chars@.subrange(from as int, i as int),
        decreases to - i,
    {
        out.push(chars[i]);
        i += 1;
    }
    out
}

/// Tells whether two texts hold the same characters.
pub fn same_text(a: &str, b: &str) -> (r: bool)
    ensures
        r == (a@ == b@),
{
    let left = a.to_owned();
    let right = b.to_owned();
    left == right
}

/// The predicate that holds of `c` alone.
pub open spec fn just(c: char) -> spec_fn(char) -> bool {
    |x: char| x == c
}

/// The predicate that holds of white space.
pub open spec fn space() -> spec_fn(char) -> bool {
    |x: char| is_space(x)
}

/// The predicate that holds of ASCII white space.
pub open spec fn ascii_space() -> spec_fn(char) -> bool {
    |x: char| x == ' ' || x == '\t' || x == '\n' || x == '\u{c}' || x == '\r'
}

/// Index of the first character that `p` holds of, or the length of `s`.
pub open spec fn first_where(s: Seq<char>, p: spec_fn(char) -> bool) -> int
    decreases s.len(),
{
    if s.len() == 0 || p(s[0]) {
        0
    } else {
        1 + first_where(s.drop_first(), p)
    }
}

/// Index of the last character that `p` holds of, or -1.
pub open spec fn last_where(s: Seq<char>, p: spec_fn(char) -> bool) -> int
    decreases s.len(),
{
    if s.len() == 0 {
        -1
    } else if p(s.last()) {
        s.len() - 1
    } else {
        last_where(s.drop_last(), p)
    }
}

/// `s` without the leading characters that `p` holds of.
pub open spec fn without_leading(s: Seq<char>, p: spec_fn(char) -> bool) -> Seq<char>
    decreases s.len(),
{
    if s.len() > 0 && p(s[0]) {
        without_leading(s.drop_first(), p)
    } else {
        s
    }
}

/// `s` without the trailing characters that `p` holds of.
pub open spec fn without_trailing(s: Seq<char>, p: spec_fn(char) -> bool) -> Seq<char>
    decreases s.len(),
{
    if s.len() > 0 && p(s.last()) {
        without_trailing(s.drop_last(), p)
    } else {
        s
    }
}

/// `s` without leading and trailing white space.
pub open spec fn trimmed(s: Seq<char>) -> Seq<char> {
    without_trailing(without_leading(s, space()), space())
}

/// The pieces of `s` between the characters `c`.
pub open spec fn pieces(s: Seq<char>, c: char) -> Seq<Seq<char>>
    decreases s.len(),
{
    let i = first_where(s, just(c));
    if 0 <= i < s.len() {
        seq![s.take(i)] + pieces(s.skip(i + 1), c)
    } else {
        seq![s]
    }
}

/// A line without the carriage return before its line feed.
pub open spec fn line_body(s: Seq<char>) -> Seq<char> {
    if s.len() > 0 && s.last() == '\r' {
        s.drop_last()
    } else {
        s
    }
}

/// The lines of `s`: each ends with a line feed, or with a carriage return and
/// a line feed; the last may end without either.
pub open spec fn text_lines(s: Seq<char>) -> Seq<Seq<char>>
    decreases s.len(),
{
    let i = first_where(s, just('\n'));
    if s.len() == 0 {
        seq![]
    } else if 0 <= i < s.len() {
        seq![line_body(s.take(i))] + text_lines(s.skip(i + 1))
    } else {
        seq![s]
    }
}

/// The maximal runs of characters of `s` that are no ASCII white space.
pub open spec fn fields(s: Seq<char>) -> Seq<Seq<char>>
    decreases s.len(),
{
    let t = without_leading(s, ascii_space());
    let i = first_where(t, ascii_space());
    if 0 < t.len() <= s.len() && 0 < i <= t.len() {
        seq![t.take(i)] + fields(t.skip(i))
    } else {
        seq![]
    }
}

pub proof fn lemma_first_where(s: Seq<char>, p: spec_fn(char) -> bool, i: int)
    requires
        0 <= i <= s.len(),
        forall|k: int| 0 <= k < i ==> !p(#[trigger] s[k]),
        i < s.len() ==> p(s[i]),
    ensures
        first_where(s, p) == i,
    decreases s.len(),
{
    if i > 0 {
        assert(!p(s[0]));
        assert forall|k: int| 0 <= k < i - 1 implies !p(#[trigger] s.drop_first()[k]) by {
            assert(s.drop_first()[k] == s[k + 1]);
        }
        lemma_first_where(s.drop_first(), p, i - 1);
    }
}

pub proof fn lemma_last_where(s: Seq<char>, p: spec_fn(char) -> bool, i: int)
    requires
        -1 <= i < s.len(),
        forall|k: int| i < k < s.len() ==> !p(#[trigger] s[k]),
        i >= 0 ==> p(s[i]),
    ensures
        last_where(s, p) == i,
    decreases s.len(),
{
    if i < s.len() - 1 {
        assert(!p(s[s.len() - 1]));
        lemma_last_where(s.drop_last(), p, i);
    }
}

pub proof fn lemma_without_leading(s: Seq<char>, p: spec_fn(char) -> bool, i: int)
    requires
        0 <= i <= s.len(),
        forall|k: int| 0 <= k < i ==> p(#[trigger] s[k]),
        i < s.len() ==> !p(s[i]),
    ensures
        without_leading(s, p) == s.skip(i),
    decreases s.len(),
{
    if i > 0 {
        assert(p(s[0]));
        assert forall|k: int| 0 <= k < i - 1 implies p(#[trigger] s.drop_first()[k]) by {
            assert(s.drop_first()[k] == s[k + 1]);
        }
        lemma_without_leading(s.drop_first(), p, i - 1);
        assert(s.drop_first().skip(i - 1) == s.skip(i));
    } else {
        assert(s.skip(0) == s);
    }
}

pub proof fn lemma_without_trailing(s: Seq<char>, p: spec_fn(char) -> bool, i: int)
    requires
        0 <= i <= s.len(),
        forall|k: int| i <= k < s.len() ==> p(#[trigger] s[k]),
        i > 0 ==> !p(s[i - 1]),
    ensures
        without_trailing(s, p) == s.take(i),
    decreases s.len(),
{
    if i < s.len() {
        assert(p(s[s.len() - 1]));
        lemma_without_trailing(s.drop_last(), p, i);
        assert(s.drop_last().take(i) == s.take(i));
    } else {
        assert(s.take(i) == s);
    }
}

/// `text` without leading and trailing white space.
pub fn trim(text: &str) -> (r: String)
    ensures
        r@ == trimmed(text@),
{
    let chars = chars_of(text);
    let mut from: usize = 0;
    while from < chars.len() && is_whitespace(chars[from])
        invariant
            from <= chars@.len(),
            forall|k: int| 0 <= k < from ==> is_space(#[trigger] chars@[k]),
        decreases chars@.len() - from,
    {
        from += 1;
    }
    let mut to: usize = chars.len();
    while to > from && is_whitespace(chars[to - 1])
        invariant
            from <= to <= chars@.len(),
            forall|k: int| to <= k < chars@.len() ==> is_space(#[trigger] chars@[k]),
        decreases to - from,
    {
        to -= 1;
    }
    proof {
        lemma_without_leading(text@, space(), from as int);
        let rest = text@.skip(from as int);
        assert forall|k: int| to - from <= k < rest.len() implies space()(#[trigger] rest[k]) by {
            assert(rest[k] == chars@[k + from]);
        }
        lemma_without_trailing(rest, space(), to - from);
        assert(rest.take(to - from) == chars@.subrange(from as int, to as int));
    }
    string_of(&chars, from, to)
}

/// `text` without the trailing characters `c`.
pub fn trim_end_matches(text: &str, c: char) -> (r: String)
    ensures
        r@ == without_trailing(text@, just(c)),
{
    let chars = chars_of(text);
    let mut to: usize = chars.len();
    while to > 0 && chars[to - 1] == c
        invariant
            to <= chars@.len(),
            forall|k: int| to <= k < chars@.len() ==> #[trigger] chars@[k] == c,
        decreases to,
    {
        to -= 1;
    }
    proof {
        lemma_without_trailing(text@, just(c), to as int);
        assert(text@.take(to as int) == chars@.subrange(0, to as int));
    }
    string_of(&chars, 0, to)
}

/// Index of the first `c` in `chars[from..]`, or the length of `chars`.
fn find_char(chars: &Vec<char>, from: usize, c: char) -> (r: usize)
    requires
        from <= chars@.len(),
    ensures
        from <= r <= chars@.len(),
        r - from == first_where(chars@.skip(from as int), just(c)),
        r < chars@.len() ==> chars@[r as int] == c,
{
    let mut i: usize = from;
    while i < chars.len() && chars[i] != c
        invariant
            from <= i <= chars@.len(),
            forall|k: int| from <= k < i ==> #[trigger] chars@[k] != c,
        decreases chars@.len() - i,
    {
        i += 1;
    }
    proof {
        let rest = chars@.skip(from as int);
        assert forall|k: int| 0 <= k < i - from implies !just(c)(#[trigger] rest[k]) by {
            assert(rest[k] == chars@[k + from]);
        }
        lemma_first_where(rest, just(c), i - from);
    }
    i
}

/// Splits `text` at every `c`.
pub fn split(text: &str, c: char) -> (r: Vec<String>)
    ensures
        texts(r@) == pieces(text@, c),
        r@.len() > 0,
{
    let chars = chars_of(text);
    let mut out: Vec<String> = Vec::new();
    let mut from: usize = 0;
    proof {
        assert(text@.skip(0) == text@);
        assert(texts(out@) + pieces(text@.skip(0), c) == pieces(text@, c));
    }
    loop
        invariant
            from <= chars@.len(),
            chars@ == text@,
            texts(out@) + pieces(text@.skip(from as int), c) == pieces(text@, c),
        decreases chars@.len() - from,
    {
        let end = find_char(&chars, from, c);
        let ghost rest = text@.skip(from as int);
        let ghost before = out@;
        out.push(string_of(&chars, from, end));
        proof {
            assert(texts(out@) == texts(before).push(out@.last()@));
            assert(rest.take(end - from) == chars@.subrange(from as int, end as int));
        }
        if end == chars.len() {
            proof {
                assert(rest.take(end - from) == rest);
                assert(texts(out@) == texts(before) + pieces(rest, c));
            }
            return out;
        }
        proof {
            assert(rest.skip(end - from + 1) == text@.skip(end + 1));
            assert(texts(before) + (seq![rest.take(end - from)] + pieces(text@.skip(end + 1), c))
                == texts(out@) + pieces(text@.skip(end + 1), c));
        }
        from = end + 1;
    }
}

/// Splits `text` into lines.
pub fn lines(text: &str) -> (r: Vec<String>)
    ensures
        texts(r@) == text_lines(text@),
{
    let chars = chars_of(text);
    let mut out: Vec<String> = Vec::new();
    let mut from: usize = 0;
    proof {
        assert(text@.skip(0) == text@);
        assert(texts(out@) + text_lines(text@.skip(0)) == text_lines(text@));
    }
    while from < chars.len()
        invariant
            from <= chars@.len(),
            chars@ == text@,
            texts(out@) + text_lines(text@.skip(from as int)) == text_lines(text@),
        decreases chars@.len() - from,
    {
        let end = find_char(&chars, from, '\n');
        let ghost rest = text@.skip(from as int);
        let ghost before = out@;
        if end == chars.len() {
            out.push(string_of(&chars, from, end));
            proof {
                assert(out@.last()@ == rest);
                assert(texts(out@) == texts(before).push(rest));
                assert(texts(out@) == texts(before) + text_lines(rest));
            }
            return out;
        }
        let stop = if end > from && chars[end - 1] == '\r' {
            end - 1
        } else {
            end
        };
        out.push(string_of(&chars, from, stop));
        proof {
            let line = rest.take(end - from);
            assert(line.len() > 0 ==> line.last() == chars@[end - 1]);
            assert(out@.last()@ == line_body(line));
            assert(texts(out@) == texts(before).push(line_body(line)));
            assert(rest.skip(end - from + 1) == text@.skip(end + 1));
            assert(texts(before) + (seq![line_body(line)] + text_lines(text@.skip(end + 1)))
                == texts(out@) + text_lines(text@.skip(end + 1)));
        }
        from = end + 1;
    }
    proof {
        assert(text@.skip(from as int).len() == 0);
        assert(texts(out@) + text_lines(text@.skip(from as int)) == texts(out@));
    }
    out
}

/// Splits `text` at runs of ASCII white space.
pub fn split_ascii_whitespace(text: &str) -> (r: Vec<String>)
    ensures
        texts(r@) == fields(text@),
{
    let chars = chars_of(text);
    let mut out: Vec<String> = Vec::new();
    let mut from: usize = 0;
    proof {
        assert(text@.skip(0) == text@);
        assert(texts(out@) + fields(text@.skip(0)) == fields(text@));
    }
    loop
        invariant
            from <= chars@.len(),
            chars@ == text@,
            texts(out@) + fields(text@.skip(from as int)) == fields(text@),
        decreases chars@.len() - from,
    {
        let ghost rest = text@.skip(from as int);
        let mut start: usize = from;
        while start < chars.len() && is_ascii_whitespace(chars[start])
            invariant
                from <= start <= chars@.len(),
                forall|k: int| from <= k < start ==> ascii_space()(#[trigger] chars@[k]),
            decreases chars@.len() - start,
        {
            start += 1;
        }
        let mut end: usize = start;
        while end < chars.len() && !is_ascii_whitespace(chars[end])
            invariant
                start <= end <= chars@.len(),
                start < chars@.len() ==> end > start || !ascii_space()(chars@[start as int]),
                forall|k: int| start <= k < end ==> !ascii_space()(#[trigger] chars@[k]),
            decreases chars@.len() - end,
        {
            end += 1;
        }
        proof {
            assert forall|k: int| 0 <= k < start - from implies ascii_space()(
                #[trigger] rest[k],
            ) by {
                assert(rest[k] == chars@[k + from]);
            }
            lemma_without_leading(rest, ascii_space(), start - from);
            let body = rest.skip(start - from);
            assert(body == text@.skip(start as int));
            assert forall|k: int| 0 <= k < end - start implies !ascii_space()(
                #[trigger] body[k],
            ) by {
                assert(body[k] == chars@[k + start]);
            }
            lemma_first_where(body, ascii_space(), end - start);
        }
        if start == chars.len() {
            proof {
                assert(fields(rest) == Seq::<Seq<char>>::empty());
                assert(texts(out@) + fields(rest) == texts(out@));
            }
            return out;
        }
        let ghost before = out@;
        out.push(string_of(&chars, start, end));
        proof {
            let body = rest.skip(start - from);
            assert(body.take(end - start) == chars@.subrange(start as int, end as int));
            assert(body.skip(end - start) == text@.skip(end as int));
            assert(texts(out@) == texts(before).push(body.take(end - start)));
            assert(texts(before) + (seq![body.take(end - start)] + fields(text@.skip(end as int)))
                == texts(out@) + fields(text@.skip(end as int)));
        }
        from = end;
    }
}

/// Tells whether `c` is ASCII white space.
pub fn is_ascii_whitespace(c: char) -> (r: bool)
    ensures
        r == ascii_space()(c),
{
    c == ' ' || c == '\t' || c == '\n' || c == '\u{c}' || c == '\r'
}

/// Splits `text` at the first `c`.
pub fn split_once(text: &str, c: char) -> (r: Option<(String, String)>)
    ensures
        ({
            let i = first_where(text@, just(c));
            match r {
                Some(parts) => {
                    &&& 0 <= i < text@.len()
                    &&& parts.0@ == text@.take(i)
                    &&& parts.1@ == text@.skip(i + 1)
                },
                None => i == text@.len(),
            }
        }),
{
    let chars = chars_of(text);
    let i = find_char(&chars, 0, c);
    proof {
        assert(text@.skip(0) == text@);
    }
    if i == chars.len() {
        return None;
    }
    Some((string_of(&chars, 0, i), string_of(&chars, i + 1, chars.len())))
}

/// Splits `text` at the last `c`.
pub fn rsplit_once(text: &str, c: char) -> (r: Option<(String, String)>)
    ensures
        ({
            let i = last_where(text@, just(c));
            match r {
                Some(parts) => {
                    &&& 0 <= i < text@.len()
                    &&& parts.0@ == text@.take(i)
                    &&& parts.1@ == text@.skip(i + 1)
                },
                None => i == -1,
            }
        }),
{
    let chars = chars_of(text);
    let mut i: usize = chars.len();
    while i > 0 && chars[i - 1] != c
        invariant
            i <= chars@.len(),
            forall|k: int| i <= k < chars@.len() ==> #[trigger] chars@[k] != c,
        decreases i,
    {
        i -= 1;
    }
    proof {
        lemma_last_where(text@, just(c), i - 1);
    }
    if i == 0 {
        return None;
    }
    Some((string_of(&chars, 0, i - 1), string_of(&chars, i, chars.len())))
}

/// Tells whether `s` starts with `prefix`.
pub open spec fn has_prefix(s: Seq<char>, prefix: Seq<char>) -> bool {
    prefix.len() <= s.len() && s.take(prefix.len() as int) == prefix
}

/// Tells whether `chars[from..]` starts with `needle`.
fn matches_at(chars: &Vec<char>, from: usize, needle: &Vec<char>) -> (r: bool)
    requires
        from <= chars@.len(),
    ensures
        r == has_prefix(chars@.skip(from as int), needle@),
{
    let ghost rest = chars@.skip(from as int);
    if needle.len() > chars.len() - from {
        return false;
    }
    let total: usize = chars.len();
    let mut k: usize = 0;
    while k < needle.len()
        invariant
            from <= total == chars@.len(),
            rest == chars@.skip(from as int),
            k <= needle@.len() <= chars@.len() - from,
            rest.take(k as int) == needle@.take(k as int),
        decreases needle@.len() - k,
    {
        if chars[from + k] != needle[k] {
            proof {
                assert(rest.take(needle@.len() as int)[k as int] == chars@[from + k]);
            }
            return false;
        }
        k += 1;
        proof {
            assert(rest.take(k as int) == rest.take(k - 1).push(rest[k - 1]));
            assert(needle@.take(k as int) == needle@.take(k - 1).push(needle@[k - 1]));
        }
    }
    proof {
        assert(needle@.take(needle@.len() as int) == needle@);
    }
    true
}

/// Tells whether `text` starts with `prefix`.
pub fn starts_with(text: &str, prefix: &str) -> (r: bool)
    ensures
        r == has_prefix(text@, prefix@),
{
    let chars = chars_of(text);
    let needle = chars_of(prefix);
    proof {
        assert(text@.skip(0) == text@);
    }
    matches_at(&chars, 0, &needle)
}

/// `text` without `prefix`, where it starts with it.
pub fn strip_prefix(text: &str, prefix: &str) -> (r: Option<String>)
    ensures
        match r {
            Some(rest) => has_prefix(text@, prefix@) && rest@ == text@.skip(prefix@.len() as int),
            None => !has_prefix(text@, prefix@),
        },
{
    let chars = chars_of(text);
    let needle = chars_of(prefix);
    proof {
        assert(text@.skip(0) == text@);
    }
    if matches_at(&chars, 0, &needle) {
        Some(string_of(&chars, needle.len(), chars.len()))
    } else {
        None
    }
}

/// Tells whether `needle` occurs in `s`.
pub open spec fn occurs_in(s: Seq<char>, needle: Seq<char>) -> bool {
    exists|i: int| 0 <= i <= s.len() && #[trigger] has_prefix(s.skip(i), needle)
}

/// Tells whether `part` stands in `s` from `at` on, character by character.
pub open spec fn stands_in(s: Seq<char>, part: Seq<char>, at: int) -> bool {
    &&& 0 <= at
    &&& at + part.len() <= s.len()
    &&& forall|k: int| 0 <= k < part.len() ==> s[at + k] == #[trigger] part[k]
}

/// A text occurs in another exactly where it stands there, character by character, from some
/// place on.
pub proof fn law_text_occurs_where_it_stands(s: Seq<char>, needle: Seq<char>, at: int)
    ensures
        stands_in(s, needle, at) ==> occurs_in(s, needle),
        occurs_in(s, needle) ==> exists|i: int| #[trigger] stands_in(s, needle, i),
{
    if stands_in(s, needle, at) {
        assert(s.skip(at).take(needle.len() as int) =~= needle);
        assert(has_prefix(s.skip(at), needle));
    }
    if occurs_in(s, needle) {
        let i = choose|i: int| 0 <= i <= s.len() && #[trigger] has_prefix(s.skip(i), needle);
        assert forall|k: int| 0 <= k < needle.len() implies s[i + k] == #[trigger] needle[k] by {
            assert(s.skip(i).take(needle.len() as int)[k] == s[i + k]);
        }
        assert(stands_in(s, needle, i));
    }
}

/// Tells whether `needle` occurs in `text`.
pub fn contains(text: &str, needle: &str) -> (r: bool)
    ensures
        r == occurs_in(text@, needle@),
{
    let chars = chars_of(text);
    let wanted = chars_of(needle);
    let mut i: usize = 0;
    loop
        invariant
            i <= chars@.len(),
            chars@ == text@,
            wanted@ == needle@,
            forall|k: int| 0 <= k < i ==> !#[trigger] has_prefix(text@.skip(k), needle@),
        decreases chars@.len() - i,
    {
        if matches_at(&chars, i, &wanted) {
            return true;
        }
        if i == chars.len() {
            return false;
        }
        i += 1;
    }
}

/// Tells whether `c` occurs in `text`.
pub fn contains_char(text: &str, c: char) -> (r: bool)
    ensures
        r == text@.contains(c),
{
    let chars = chars_of(text);
    let mut i: usize = 0;
    while i < chars.len()
        invariant
            i <= chars@.len(),
            chars@ == text@,
            forall|k: int| 0 <= k < i ==> #[trigger] chars@[k] != c,
        decreases chars@.len() - i,
    {
        if chars[i] == c {
            return true;
        }
        i += 1;
    }
    false
}

/// The lower-case form of an ASCII letter; other characters are kept.
pub open spec fn lower(c: char) -> char {
    if 'A' <= c <= 'Z' {
        (c as u8 + 32) as char
    } else {
        c
    }
}

/// `s` with its ASCII letters in lower case.
pub open spec fn lowered(s: Seq<char>) -> Seq<char> {
    s.map_values(|c: char| lower(c))
}

fn lower_char(c: char) -> (r: char)
    ensures
        r == lower(c),
{
    if 'A' <= c && c <= 'Z' {
        (c as u8 + 32) as char
    } else {
        c
    }
}

/// `text` with its ASCII letters in lower case.
pub fn to_ascii_lowercase(text: &str) -> (r: String)
    ensures
        r@ == lowered(text@),
{
    let chars = chars_of(text);
    let mut out = String::new();
    let mut i: usize = 0;
    while i < chars.len()
        invariant
            i <= chars@.len(),
            out@ == lowered(chars@.take(i as int)),
        decreases chars@.len() - i,
    {
        out.push(lower_char(chars[i]));
        i += 1;
        proof {
            assert(chars@.take(i as int) == chars@.take(i - 1).push(chars@[i - 1]));
        }
    }
    proof {
        assert(chars@.take(i as int) == chars@);
    }
    out
}

/// Tells whether two texts are the same up to the case of ASCII letters.
pub fn eq_ignore_ascii_case(a: &str, b: &str) -> (r: bool)
    ensures
        r == (lowered(a@) == lowered(b@)),
{
    let left = to_ascii_lowercase(a);
    let right = to_ascii_lowercase(b);
    left == right
}

/// The value of `c` as a digit, upper and lower case letters alike.
pub open spec fn digit_value(c: char) -> Option<nat> {
    if '0' <= c <= '9' {
        Some((c as u32 - '0' as u32) as nat)
    } else if 'a' <= c <= 'f' {
        Some((c as u32 - 'a' as u32 + 10) as nat)
    } else if 'A' <= c <= 'F' {
        Some((c as u32 - 'A' as u32 + 10) as nat)
    } else {
        None
    }
}

/// The number that the digits `s` write in the given radix.
pub open spec fn digits_value(s: Seq<char>, radix: nat) -> Option<nat>
    decreases s.len(),
{
    if s.len() == 0 {
        Some(0)
    } else {
        match (digits_value(s.drop_last(), radix), digit_value(s.last())) {
            (Some(value), Some(digit)) => if digit < radix {
                Some(value * radix + digit)
            } else {
                None
            },
            _ => None,
        }
    }
}

/// The number that `s` writes: digits, with or without a plus sign before
/// them, and no more than `max`.
pub open spec fn number(s: Seq<char>, radix: nat, max: nat) -> Option<nat> {
    let body = if s.len() > 0 && s[0] == '+' {
        s.drop_first()
    } else {
        s
    };
    match digits_value(body, radix) {
        Some(value) => if body.len() > 0 && value <= max {
            Some(value)
        } else {
            None
        },
        None => None,
    }
}

fn digit(c: char) -> (r: Option<u64>)
    ensures
        match r {
            Some(value) => digit_value(c) == Some(value as nat) && value < 16,
            None => digit_value(c) is None,
        },
{
    if '0' <= c && c <= '9' {
        Some((c as u32 - '0' as u32) as u64)
    } else if 'a' <= c && c <= 'f' {
        Some((c as u32 - 'a' as u32 + 10) as u64)
    } else if 'A' <= c && c <= 'F' {
        Some((c as u32 - 'A' as u32 + 10) as u64)
    } else {
        None
    }
}

proof fn lemma_digits_prefix_invalid(s: Seq<char>, radix: nat, i: int)
    requires
        0 <= i <= s.len(),
        digits_value(s.take(i), radix) is None,
    ensures
        digits_value(s, radix) is None,
    decreases s.len() - i,
{
    if i == s.len() {
        assert(s.take(i) == s);
    } else {
        assert(s.take(i + 1).drop_last() == s.take(i));
        lemma_digits_prefix_invalid(s, radix, i + 1);
    }
}

/// Reads `text` as a number of at most `max`.
pub fn parse_number(text: &str, radix: u64, max: u64) -> (r: Option<u64>)
    requires
        radix == 10 || radix == 16,
    ensures
        match r {
            Some(value) => number(text@, radix as nat, max as nat) == Some(value as nat),
            None => number(text@, radix as nat, max as nat) is None,
        },
{
    let chars = chars_of(text);
    let from: usize = if chars.len() > 0 && chars[0] == '+' {
        1
    } else {
        0
    };
    if from == chars.len() {
        return None;
    }
    let ghost body = if text@.len() > 0 && text@[0] == '+' {
        text@.drop_first()
    } else {
        text@
    };
    let mut value: u64 = 0;
    let mut over: bool = false;
    let mut i: usize = from;
    proof {
        assert(body == chars@.skip(from as int));
        assert(body.take(0).len() == 0);
    }
    while i < chars.len()
        invariant
            radix == 10 || radix == 16,
            from <= i <= chars@.len(),
            body == chars@.skip(from as int),
            body == (if text@.len() > 0 && text@[0] == '+' {
                text@.drop_first()
            } else {
                text@
            }),
            digits_value(body.take(i - from), radix as nat) is Some,
            over ==> digits_value(body.take(i - from), radix as nat)->0 > max,
            !over ==> digits_value(body.take(i - from), radix as nat) == Some(value as nat)
                && value <= max,
        decreases chars@.len() - i,
    {
        let ghost previous = digits_value(body.take(i - from), radix as nat)->0;
        proof {
            assert(body.take(i - from + 1).drop_last() == body.take(i - from));
            assert(body.take(i - from + 1).last() == chars@[i as int]);
        }
        let d = match digit(chars[i]) {
            Some(d) if d < radix => d,
            _ => {
                proof {
                    lemma_digits_prefix_invalid(body, radix as nat, i - from + 1);
                }
                return None;
            },
        };
        proof {
            assert(previous * radix >= previous) by (nonlinear_arith)
                requires
                    radix >= 1,
                    previous >= 0,
            ;
        }
        if !over {
            proof {
                assert(value * radix <= 0xffff_ffff_ffff_ffff * 16) by (nonlinear_arith)
                    requires
                        value <= 0xffff_ffff_ffff_ffff,
                        radix <= 16,
                ;
            }
            let next: u128 = (value as u128) * (radix as u128) + d as u128;
            if next > max as u128 {
                over = true;
            } else {
                value = next as u64;
            }
        }
        i += 1;
    }
    proof {
        assert(body.take(i - from) == body);
    }
    if over {
        None
    } else {
        Some(value)
    }
}

/// Reads `text` as a decimal `u16`.
pub fn parse_u16(text: &str) -> (r: Option<u16>)
    ensures
        match r {
            Some(value) => number(text@, 10, u16::MAX as nat) == Some(value as nat),
            None => number(text@, 10, u16::MAX as nat) is None,
        },
{
    match parse_number(text, 10, 65535) {
        Some(value) => Some(value as u16),
        None => None,
    }
}

/// Reads `text` as a decimal `u32`.
pub fn parse_u32(text: &str) -> (r: Option<u32>)
    ensures
        match r {
            Some(value) => number(text@, 10, u32::MAX as nat) == Some(value as nat),
            None => number(text@, 10, u32::MAX as nat) is None,
        },
{
    match parse_number(text, 10, 0xffff_ffff) {
        Some(value) => Some(value as u32),
        None => None,
    }
}

/// The decimal digit that stands for `d`.
pub open spec fn digit_char(d: nat) -> char {
    ('0' as u32 + d) as char
}

/// `n` in decimal.
pub open spec fn decimal_text(n: nat) -> Seq<char>
    decreases n,
{
    if n < 10 {
        seq![digit_char(n)]
    } else {
        decimal_text(n / 10).push(digit_char(n % 10))
    }
}

/// Writes `n` in decimal.
pub fn decimal(n: u64) -> (r: String)
    ensures
        r@ == decimal_text(n as nat),
    decreases n,
{
    let last = (48 + (n % 10) as u8) as char;
    let mut out = if n < 10 {
        String::new()
    } else {
        decimal(n / 10)
    };
    out.push(last);
    out
}

/// The texts `parts` with `sep` between them.
pub open spec fn joined(parts: Seq<Seq<char>>, sep: Seq<char>) -> Seq<char>
    decreases parts.len(),
{
    if parts.len() == 0 {
        seq![]
    } else if parts.len() == 1 {
        parts[0]
    } else {
        joined(parts.drop_last(), sep) + sep + parts.last()
    }
}

/// Joins the texts `parts` with `sep` between them.
pub fn join(parts: &Vec<String>, sep: &str) -> (r: String)
    ensures
        r@ == joined(texts(parts@), sep@),
{
    let mut out = String::new();
    let mut i: usize = 0;
    while i < parts.len()
        invariant
            i <= parts@.len(),
            out@ == joined(texts(parts@).take(i as int), sep@),
        decreases parts@.len() - i,
    {
        if i > 0 {
            out.append(sep);
        }
        out.append(parts[i].as_str());
        i += 1;
        proof {
            let done = texts(parts@).take(i as int);
            assert(done.drop_last() == texts(parts@).take(i - 1));
            assert(done.last() == parts@[i - 1]@);
            if i == 1 {
                assert(out@ == done[0]);
            }
        }
    }
    proof {
        assert(texts(parts@).take(i as int) == texts(parts@));
    }
    out
}

/// The encoding of a character takes one to four bytes.
pub proof fn lemma_byte_len(s: Seq<char>)
    ensures
        s.len() <= byte_len(s) <= 4 * s.len(),
    decreases s.len(),
{
    if s.len() > 0 {
        lemma_byte_len(s.drop_first());
        vstd::utf8::char_is_scalar(s[0]);
    }
}

/// A `u16` has one to five decimal digits.
pub proof fn lemma_decimal_len(n: nat)
    requires
        n <= u16::MAX,
    ensures
        1 <= decimal_text(n).len() <= 5,
{
    reveal_with_fuel(decimal_text, 6);
}

/// Index of the first occurrence of `needle` in `s`.
pub open spec fn first_occurrence(s: Seq<char>, needle: Seq<char>) -> Option<int>
    decreases s.len(),
{
    if has_prefix(s, needle) {
        Some(0)
    } else if s.len() == 0 {
        None
    } else {
        match first_occurrence(s.drop_first(), needle) {
            Some(i) => Some(i + 1),
            None => None,
        }
    }
}

/// Splits `text` at the first occurrence of `needle`.
pub fn split_once_at(text: &str, needle: &str) -> (r: Option<(String, String)>)
    ensures
        match r {
            Some(parts) => first_occurrence(text@, needle@) matches Some(i) && {
                &&& 0 <= i <= text@.len() - needle@.len()
                &&& parts.0@ == text@.take(i)
                &&& parts.1@ == text@.skip(i + needle@.len())
            },
            None => first_occurrence(text@, needle@) is None,
        },
{
    let chars = chars_of(text);
    let wanted = chars_of(needle);
    let total: usize = chars.len();
    let mut i: usize = 0;
    proof {
        assert(text@.skip(0) =~= text@);
    }
    loop
        invariant
            i <= total == chars@.len(),
            chars@ == text@,
            wanted@ == needle@,
            match first_occurrence(text@.skip(i as int), needle@) {
                Some(k) => first_occurrence(text@, needle@) == Some(k + i),
                None => first_occurrence(text@, needle@) is None,
            },
        decreases chars@.len() - i,
    {
        if matches_at(&chars, i, &wanted) {
            return Some(
                (string_of(&chars, 0, i), string_of(&chars, i + wanted.len(), chars.len())),
            );
        }
        if i == chars.len() {
            return None;
        }
        proof {
            assert(text@.skip(i as int).drop_first() =~= text@.skip(i + 1));
        }
        i += 1;
    }
}

/// `text` without a leading `c`, where it starts with it.
pub fn strip_char(text: &str, c: char) -> (r: Option<String>)
    ensures
        match r {
            Some(rest) => text@.len() > 0 && text@[0] == c && rest@ == text@.drop_first(),
            None => text@.len() == 0 || text@[0] != c,
        },
{
    let chars = chars_of(text);
    if chars.len() > 0 && chars[0] == c {
        Some(string_of(&chars, 1, chars.len()))
    } else {
        None
    }
}

/// A copy of a list of texts.
pub fn copy_texts(list: &[String]) -> (r: Vec<String>)
    ensures
        r@ == list@,
{
    let mut out: Vec<String> = Vec::new();
    let mut i: usize = 0;
    while i < list.len()
        invariant
            i <= list@.len(),
            out@ == list@.take(i as int),
        decreases list@.len() - i,
    {
        out.push(list[i].clone());
        i += 1;
        proof {
            assert(list@.take(i as int) =~= list@.take(i - 1).push(list@[i - 1]));
        }
    }
    proof {
        assert(list@.take(i as int) =~= list@);
    }
    out
}

/// `text` without trailing white space.
pub fn trim_end(text: &str) -> (r: String)
    ensures
        r@ == without_trailing(text@, space()),
{
    let chars = chars_of(text);
    let mut to: usize = chars.len();
    while to > 0 && is_whitespace(chars[to - 1])
        invariant
            to <= chars@.len(),
            forall|k: int| to <= k < chars@.len() ==> is_space(#[trigger] chars@[k]),
        decreases to,
    {
        to -= 1;
    }
    proof {
        lemma_without_trailing(text@, space(), to as int);
        assert(text@.take(to as int) =~= chars@.subrange(0, to as int));
    }
    string_of(&chars, 0, to)
}

/// `String::from_utf8` gives the text that the bytes encode, where they are
/// UTF-8.
pub assume_specification[ String::from_utf8 ](vec: Vec<u8>) -> (r: Result<
    String,
    std::string::FromUtf8Error,
>)
    ensures
        match r {
            Ok(text) => vstd::utf8::valid_utf8(vec@) && vstd::utf8::encode_utf8(text@) == vec@,
            Err(_) => !vstd::utf8::valid_utf8(vec@),
        },
;

/// What the `Debug` of a text writes.
pub uninterp spec fn quoted_text(text: Seq<char>) -> Seq<char>;

/// The `Debug` of `str` writes a text between double quotes, with escapes for the
/// characters that it does not show as they are. Which characters those are is left
/// unsaid.
#[verifier::external_body]
pub(crate) fn quoted(text: &str) -> (r: String)
    ensures
        r@ == quoted_text(text@),
{
    format!("{text:?}")
}

/// A `u32` has one to ten decimal digits.
pub proof fn lemma_decimal_len_u32(n: nat)
    requires
        n <= u32::MAX,
    ensures
        1 <= decimal_text(n).len() <= 10,
{
    reveal_with_fuel(decimal_text, 11);
}

/// The digits of a number are digits, without a sign.
proof fn lemma_decimal_digits(n: nat)
    ensures
        decimal_text(n).len() > 0,
        decimal_text(n)[0] != '+',
        digits_value(decimal_text(n), 10) == Some(n),
    decreases n,
{
    reveal_with_fuel(digits_value, 2);
    if n < 10 {
        assert(decimal_text(n).drop_last() =~= seq![]);
    } else {
        lemma_decimal_digits(n / 10);
        let s = decimal_text(n);
        assert(s.drop_last() =~= decimal_text(n / 10));
        assert(digit_value(s.last()) == Some(n % 10));
        assert(s[0] == decimal_text(n / 10)[0]);
    }
}

/// A number that was written in decimal is read back, where it is small enough.
pub proof fn law_decimal_round_trip(n: nat, max: nat)
    requires
        n <= max,
    ensures
        number(decimal_text(n), 10, max) == Some(n),
{
    lemma_decimal_digits(n);
}

/// A head of a text takes no more bytes than the text.
pub proof fn lemma_byte_len_take(s: Seq<char>, i: int)
    requires
        0 <= i <= s.len(),
    ensures
        byte_len(s.take(i)) <= byte_len(s),
    decreases s.len(),
{
    if i == 0 {
        assert(s.take(0).len() == 0);
    } else {
        lemma_byte_len_take(s.drop_first(), i - 1);
        assert(s.take(i).drop_first() =~= s.drop_first().take(i - 1));
    }
}

/// A number in decimal holds no white space.
pub proof fn lemma_decimal_is_a_field(n: nat)
    ensures
        decimal_text(n).len() > 0,
        forall|i: int|
            0 <= i < decimal_text(n).len() ==> !ascii_space()(#[trigger] decimal_text(n)[i]),
    decreases n,
{
    let s = decimal_text(n);
    if n >= 10 {
        lemma_decimal_is_a_field(n / 10);
        assert forall|i: int| 0 <= i < s.len() implies !ascii_space()(#[trigger] s[i]) by {
            if i < s.len() - 1 {
                assert(s[i] == decimal_text(n / 10)[i]);
            }
        }
    }
}

/// Two texts without white space and a space between them are two fields.
pub proof fn lemma_two_fields(a: Seq<char>, b: Seq<char>)
    requires
        a.len() > 0,
        b.len() > 0,
        forall|i: int| 0 <= i < a.len() ==> !ascii_space()(#[trigger] a[i]),
        forall|i: int| 0 <= i < b.len() ==> !ascii_space()(#[trigger] b[i]),
    ensures
        fields(a + seq![' '] + b) == seq![a, b],
{
    reveal_with_fuel(fields, 3);
    let p = ascii_space();
    let s = a + seq![' '] + b;
    let rest = seq![' '] + b;
    let n = a.len() as int;
    assert forall|k: int| 0 <= k < n implies !p(#[trigger] s[k]) by {
        assert(s[k] == a[k]);
    }
    assert(s[n] == ' ');
    lemma_without_leading(s, p, 0);
    assert(s.skip(0) =~= s);
    lemma_first_where(s, p, n);
    assert(s.take(n) =~= a);
    assert(s.skip(n) =~= rest);
    assert(rest[1] == b[0]);
    lemma_without_leading(rest, p, 1);
    assert(rest.skip(1) =~= b);
    lemma_first_where(b, p, b.len() as int);
    assert(b.take(b.len() as int) =~= b);
    assert(b.skip(b.len() as int) =~= seq![]);
    let empty = Seq::<char>::empty();
    lemma_without_leading(empty, p, 0);
    assert(empty.skip(0) =~= empty);
    assert(fields(empty) =~= seq![]);
    assert(fields(rest) =~= seq![b]);
    assert(fields(s) =~= seq![a, b]);
}

/// Of the ASCII characters, the tab, the line feed, the vertical tab, the form feed, the
/// carriage return and the blank are white space; below the blank, and at the end of ASCII,
/// stand control characters.
pub proof fn law_ascii_has_its_classes(c: char)
    requires
        c < '\u{80}',
    ensures
        is_space(c) <==> {
            ||| c == '\t'
            ||| c == '\n'
            ||| c == '\u{b}'
            ||| c == '\u{c}'
            ||| c == '\r'
            ||| c == ' '
        },
        is_control_char(c) <==> c < ' ' || c == '\u{7f}',
{
}

/// Beyond ASCII, the blanks of every width and the line and paragraph separators are white
/// space; letters, signs and the blanks that take no room are not.
pub proof fn law_wide_blanks_are_white_space(c: char)
    requires
        c >= '\u{80}',
    ensures
        c == '\u{85}' || c == '\u{a0}' || c == '\u{1680}' || c == '\u{202f}' || c == '\u{205f}' || c
            == '\u{3000}' ==> is_space(c),
        '\u{2000}' <= c <= '\u{200a}' || c == '\u{2028}' || c == '\u{2029}' ==> is_space(c),
        '\u{a1}' <= c <= '\u{167f}' || '\u{1681}' <= c <= '\u{1fff}' ==> !is_space(c),
        '\u{200b}' <= c <= '\u{2027}' || '\u{2060}' <= c <= '\u{2fff}' || c > '\u{3000}'
            ==> !is_space(c),
        is_control_char(c) <==> c < '\u{a0}',
{
}

/// A text is cut at each mark, and nowhere else.
pub proof fn law_pieces_are_cut_at_each_mark(piece: Seq<char>, rest: Seq<char>, mark: char)
    requires
        !piece.contains(mark),
    ensures
        pieces(piece, mark) == seq![piece],
        pieces(piece + seq![mark] + rest, mark) == seq![piece] + pieces(rest, mark),
{
    let s = piece + seq![mark] + rest;
    let n = piece.len() as int;
    assert forall|k: int| 0 <= k < n implies !just(mark)(#[trigger] piece[k]) by {
        assert(piece.contains(piece[k]));
    }
    assert forall|k: int| 0 <= k < n implies !just(mark)(#[trigger] s[k]) by {
        assert(s[k] == piece[k]);
    }
    lemma_first_where(piece, just(mark), n);
    lemma_first_where(s, just(mark), n);
    assert(s.take(n) =~= piece);
    assert(s.skip(n + 1) =~= rest);
}

/// Each line ends with a line feed, before which a carriage return may stand; the last line
/// may end without either, and an empty text has no line.
pub proof fn law_lines_end_with_line_feeds(line: Seq<char>, rest: Seq<char>)
    requires
        !line.contains('\n'),
    ensures
        line.len() == 0 ==> text_lines(line) == Seq::<Seq<char>>::empty(),
        line.len() > 0 ==> text_lines(line) == seq![line],
        line.len() == 0 || line.last() != '\r' ==> text_lines(line + seq!['\n'] + rest) == seq![
            line,
        ] + text_lines(rest),
        text_lines(line + seq!['\r', '\n'] + rest) == seq![line] + text_lines(rest),
{
    let n = line.len() as int;
    let p = just('\n');
    let short = line + seq!['\n'] + rest;
    let long = line + seq!['\r', '\n'] + rest;
    assert forall|k: int| 0 <= k < n implies !p(#[trigger] line[k]) by {
        assert(line.contains(line[k]));
    }
    assert forall|k: int| 0 <= k < n implies !p(#[trigger] short[k]) by {
        assert(short[k] == line[k]);
    }
    assert forall|k: int| 0 <= k < n + 1 implies !p(#[trigger] long[k]) by {
        if k < n {
            assert(long[k] == line[k]);
        }
    }
    lemma_first_where(line, p, n);
    lemma_first_where(short, p, n);
    lemma_first_where(long, p, n + 1);
    assert(short.take(n) =~= line);
    assert(short.skip(n + 1) =~= rest);
    assert(long.take(n + 1) =~= line.push('\r'));
    assert(line.push('\r').drop_last() =~= line);
    assert(long.skip(n + 2) =~= rest);
}

/// Fields stand between blanks, tabs and line ends, however many there are.
pub proof fn law_fields_stand_between_white_space(field: Seq<char>, gap: char, rest: Seq<char>)
    requires
        gap == ' ' || gap == '\t' || gap == '\n' || gap == '\u{c}' || gap == '\r',
        field.len() > 0,
        !field.contains(' '),
        !field.contains('\t'),
        !field.contains('\n'),
        !field.contains('\u{c}'),
        !field.contains('\r'),
    ensures
        fields(Seq::<char>::empty()) == Seq::<Seq<char>>::empty(),
        fields(seq![gap] + rest) == fields(rest),
        fields(field) == seq![field],
        fields(field + seq![gap] + rest) == seq![field] + fields(rest),
{
    let p = ascii_space();
    let n = field.len() as int;
    let none = Seq::<char>::empty();
    assert(fields(none) =~= seq![]) by {
        lemma_without_leading(none, p, 0);
        assert(none.skip(0) =~= none);
    }
    lemma_gap_before_fields(gap, rest);
    assert forall|k: int| 0 <= k < n implies !p(#[trigger] field[k]) by {
        assert(field.contains(field[k]));
    }
    assert(field.skip(0) =~= field);
    assert(fields(field) =~= seq![field]) by {
        lemma_without_leading(field, p, 0);
        lemma_first_where(field, p, n);
        assert(field.take(n) =~= field);
        assert(field.skip(n) =~= none);
    }
    let s = field + seq![gap] + rest;
    assert forall|k: int| 0 <= k < n implies !p(#[trigger] s[k]) by {
        assert(s[k] == field[k]);
    }
    assert(s[n] == gap);
    lemma_without_leading(s, p, 0);
    assert(s.skip(0) =~= s);
    lemma_first_where(s, p, n);
    assert(s.take(n) =~= field);
    assert(s.skip(n) =~= seq![gap] + rest);
}

proof fn lemma_gap_before_fields(gap: char, rest: Seq<char>)
    requires
        ascii_space()(gap),
    ensures
        fields(seq![gap] + rest) == fields(rest),
{
    let p = ascii_space();
    let s = seq![gap] + rest;
    assert(s.drop_first() =~= rest);
    assert(without_leading(s, p) == without_leading(rest, p));
    lemma_without_leading_is_shorter(rest, p);
}

proof fn lemma_without_leading_is_shorter(s: Seq<char>, p: spec_fn(char) -> bool)
    ensures
        without_leading(s, p).len() <= s.len(),
    decreases s.len(),
{
    if s.len() > 0 && p(s[0]) {
        lemma_without_leading_is_shorter(s.drop_first(), p);
    }
}

/// White space on either side of a text is trimmed, and nothing else.
pub proof fn law_white_space_is_trimmed(s: Seq<char>, c: char)
    ensures
        is_space(c) ==> trimmed(seq![c] + s) == trimmed(s),
        is_space(c) ==> trimmed(s.push(c)) == trimmed(s),
        s.len() == 0 || !is_space(s[0]) && !is_space(s.last()) ==> trimmed(s) == s,
{
    assert((seq![c] + s).drop_first() =~= s);
    if is_space(c) {
        lemma_trim_after(s, c);
    }
}

proof fn lemma_trim_after(s: Seq<char>, c: char)
    requires
        is_space(c),
    ensures
        trimmed(s.push(c)) == trimmed(s),
    decreases s.len(),
{
    let t = s.push(c);
    if s.len() > 0 && is_space(s[0]) {
        assert(t.drop_first() =~= s.drop_first().push(c));
        lemma_trim_after(s.drop_first(), c);
    } else if s.len() == 0 {
        assert(t.drop_first() =~= s);
        assert(t[0] == c);
        assert(without_leading(t, space()) == without_leading(s, space()));
    } else {
        assert(t[0] == s[0]);
        assert(t.drop_last() =~= s);
        assert(without_trailing(t, space()) == without_trailing(s, space()));
    }
}

/// Capital letters of ASCII become small ones, and every other character stays.
pub proof fn law_capitals_are_lowered(s: Seq<char>, i: int)
    requires
        0 <= i < s.len(),
    ensures
        lowered(s).len() == s.len(),
        'A' <= s[i] <= 'Z' ==> lowered(s)[i] as int == s[i] as int + 32,
        !('A' <= s[i] <= 'Z') ==> lowered(s)[i] == s[i],
{
    let code = s[i] as u32;
    if 'A' <= s[i] <= 'Z' {
        assert(code as u8 == code) by (bit_vector)
            requires
                code < 128,
        ;
    }
}

/// Each further digit of a number counts, up to the largest that is read. A plus sign may
/// stand before the digits, of which there is at least one.
pub proof fn law_digits_make_a_number(digits: Seq<char>, digit: char, max: nat)
    requires
        '0' <= digit <= '9',
    ensures
        number(Seq::<char>::empty(), 10, max) is None,
        number(seq![digit], 10, 9) == Some((digit as int - 48) as nat),
        number(digits, 10, max) matches Some(n) ==> {
            let more = (n * 10 + (digit as int - 48)) as nat;
            number(digits.push(digit), 10, max) == if more <= max {
                Some(more)
            } else {
                None
            }
        },
        digits.len() > 0 && digits[0] != '+' ==> number(seq!['+'] + digits, 10, max) == number(
            digits,
            10,
            max,
        ),
{
    reveal_with_fuel(digits_value, 2);
    assert(seq![digit].drop_last() =~= seq![]);
    assert((seq!['+'] + digits).drop_first() =~= digits);
    if digits.len() > 0 {
        let longer = digits.push(digit);
        assert(longer[0] == digits[0]);
        assert(longer.drop_last() =~= digits);
        assert(longer.drop_first() =~= digits.drop_first().push(digit));
        assert(longer.drop_first().drop_last() =~= digits.drop_first());
    }
}

/// Anything but digits is no number.
pub proof fn law_numbers_hold_digits(s: Seq<char>, max: nat, i: int)
    requires
        number(s, 10, max) is Some,
        0 < i < s.len(),
    ensures
        '0' <= s[i] <= '9',
        '0' <= s[0] <= '9' || s[0] == '+',
        number(s, 10, max)->0 <= max,
{
    if s[0] == '+' {
        lemma_digits_only(s.drop_first(), i - 1);
    } else {
        lemma_digits_only(s, i);
        lemma_digits_only(s, 0);
    }
}

proof fn lemma_digits_only(s: Seq<char>, i: int)
    requires
        digits_value(s, 10) is Some,
        0 <= i < s.len(),
    ensures
        '0' <= s[i] <= '9',
    decreases s.len(),
{
    if i < s.len() - 1 {
        lemma_digits_only(s.drop_last(), i);
    }
}

/// A number in decimal holds digits alone and starts with no zero that it could do without.
pub proof fn law_decimal_is_short(n: nat, i: int)
    requires
        0 <= i < decimal_text(n).len(),
    ensures
        '0' <= decimal_text(n)[i] <= '9',
        n > 0 ==> decimal_text(n)[0] != '0',
        n < 10 ==> decimal_text(n).len() == 1,
    decreases n,
{
    if n >= 10 {
        lemma_decimal_starts(n / 10);
        if i < decimal_text(n).len() - 1 {
            law_decimal_is_short(n / 10, i);
        }
        law_decimal_is_short(n / 10, 0);
    }
}

proof fn lemma_decimal_starts(n: nat)
    ensures
        decimal_text(n).len() > 0,
{
}

/// The separator stands between the parts, and only there.
pub proof fn law_parts_are_joined(parts: Seq<Seq<char>>, part: Seq<char>, sep: Seq<char>)
    ensures
        joined(seq![], sep) == Seq::<char>::empty(),
        joined(seq![part], sep) == part,
        parts.len() > 0 ==> joined(parts.push(part), sep) == joined(parts, sep) + sep + part,
{
    assert(parts.push(part).drop_last() =~= parts);
}

/// A text starts with another where that stands at its beginning, character by character.
pub proof fn law_prefix_stands_first(s: Seq<char>, prefix: Seq<char>)
    ensures
        has_prefix(s, prefix) <==> stands_in(s, prefix, 0),
{
    if has_prefix(s, prefix) {
        assert forall|k: int| 0 <= k < prefix.len() implies s[0 + k] == #[trigger] prefix[k] by {
            assert(s.take(prefix.len() as int)[k] == s[k]);
        }
    }
    if stands_in(s, prefix, 0) {
        assert forall|k: int| 0 <= k < prefix.len() implies s.take(prefix.len() as int)[k]
            == #[trigger] prefix[k] by {
            assert(s[0 + k] == prefix[k]);
        }
        assert(s.take(prefix.len() as int) =~= prefix);
    }
}

/// A text is found where it first stands, and it is found where it stands at all.
pub proof fn law_first_occurrence_is_the_first(s: Seq<char>, needle: Seq<char>, at: int)
    ensures
        match first_occurrence(s, needle) {
            Some(i) => stands_in(s, needle, i) && (stands_in(s, needle, at) ==> i <= at),
            None => !stands_in(s, needle, at),
        },
    decreases s.len(),
{
    law_prefix_stands_first(s, needle);
    if !has_prefix(s, needle) && s.len() > 0 {
        let rest = s.drop_first();
        law_first_occurrence_is_the_first(rest, needle, at - 1);
        if stands_in(s, needle, at) {
            assert(at > 0);
            assert forall|k: int| 0 <= k < needle.len() implies rest[at - 1 + k]
                == #[trigger] needle[k] by {
                assert(s[at + k] == needle[k]);
            }
            assert(stands_in(rest, needle, at - 1));
        }
        if let Some(i) = first_occurrence(rest, needle) {
            assert forall|k: int| 0 <= k < needle.len() implies s[i + 1 + k]
                == #[trigger] needle[k] by {
                assert(rest[i + k] == needle[k]);
            }
        }
    }
}

/// The first and the last place of a character in a text hold it, and none before the first
/// or behind the last does.
pub proof fn law_first_and_last_place(s: Seq<char>, c: char, at: int)
    requires
        0 <= at < s.len(),
        s[at] == c,
    ensures
        0 <= first_where(s, just(c)) <= at <= last_where(s, just(c)) < s.len(),
        s[first_where(s, just(c))] == c,
        s[last_where(s, just(c))] == c,
{
    lemma_first_place(s, c, at);
    lemma_last_place(s, c, at);
}

proof fn lemma_first_place(s: Seq<char>, c: char, at: int)
    requires
        0 <= at < s.len(),
        s[at] == c,
    ensures
        0 <= first_where(s, just(c)) <= at,
        s[first_where(s, just(c))] == c,
    decreases s.len(),
{
    if s[0] != c {
        assert(s.drop_first()[at - 1] == c);
        lemma_first_place(s.drop_first(), c, at - 1);
    }
}

proof fn lemma_last_place(s: Seq<char>, c: char, at: int)
    requires
        0 <= at < s.len(),
        s[at] == c,
    ensures
        at <= last_where(s, just(c)) < s.len(),
        s[last_where(s, just(c))] == c,
    decreases s.len(),
{
    if s.last() != c {
        assert(s.drop_last()[at] == c);
        lemma_last_place(s.drop_last(), c, at);
    }
}

} // verus!
