//! Text as sequences of characters.

use crate::outside::{is_uppercase, lowercase, lowercase_first, push_char, same, uppercase};
use vstd::prelude::*;

verus! {

/// The texts that a list of strings holds.
pub open spec fn texts(items: Seq<String>) -> Seq<Seq<char>> {
    items.map_values(|s: String| s@)
}

/// `text` begins with `prefix`.
pub open spec fn starts_with(text: Seq<char>, prefix: Seq<char>) -> bool {
    prefix.len() <= text.len() && text.take(prefix.len() as int) == prefix
}

/// `text` ends with `suffix`.
pub open spec fn ends_with(text: Seq<char>, suffix: Seq<char>) -> bool {
    suffix.len() <= text.len() && text.skip(text.len() - suffix.len()) == suffix
}

/// Whether `text` begins with `prefix`.
pub fn has_prefix(text: &str, prefix: &str) -> (yes: bool)
    ensures
        yes == starts_with(text@, prefix@),
{
    let n: usize = prefix.unicode_len();
    if text.unicode_len() < n {
        return false;
    }
    same(text.substring_char(0, n), prefix)
}

/// The rest of `text` behind `prefix`.
pub fn strip_prefix<'a>(text: &'a str, prefix: &str) -> (rest: Option<&'a str>)
    ensures
        match rest {
            Some(rest) => starts_with(text@, prefix@) && rest@ == text@.skip(
                prefix@.len() as int,
            ),
            None => !starts_with(text@, prefix@),
        },
{
    if has_prefix(text, prefix) {
        let rest = text.substring_char(prefix.unicode_len(), text.unicode_len());
        proof {
            assert(rest@ =~= text@.skip(prefix@.len() as int));
        }
        Some(rest)
    } else {
        None
    }
}

/// Whether `text` ends with `suffix`.
pub fn has_suffix(text: &str, suffix: &str) -> (yes: bool)
    ensures
        yes == ends_with(text@, suffix@),
{
    let n: usize = text.unicode_len();
    let k: usize = suffix.unicode_len();
    if n < k {
        return false;
    }
    let tail = text.substring_char(n - k, n);
    proof {
        assert(tail@ =~= text@.skip(text@.len() - suffix@.len()));
    }
    same(tail, suffix)
}


/// The characters of a string.
pub fn chars_of(text: &str) -> (chars: Vec<char>)
    ensures
        chars@ == text@,
{
    let mut chars: Vec<char> = Vec::new();
    for c in it: text.chars()
        invariant
            it.seq() == text@,
            chars@ == it.seq().take(it.index()),
    {
        chars.push(c);
        proof {
            assert(it.seq().take(it.index() + 1) =~= it.seq().take(it.index()).push(c));
        }
    }
    proof {
        assert(text@.take(text@.len() as int) =~= text@);
    }
    chars
}

/// The string of some characters.
pub fn string_of(chars: &Vec<char>, from: usize, to: usize) -> (text: String)
    requires
        from <= to <= chars.len(),
    ensures
        text@ == chars@.subrange(from as int, to as int),
{
    let mut text = String::new();
    let mut i: usize = from;
    while i < to
        invariant
            from <= i <= to <= chars.len(),
            text@ == chars@.subrange(from as int, i as int),
        decreases to - i,
    {
        push_char(&mut text, chars[i]);
        i = i + 1;
        proof {
            assert(chars@.subrange(from as int, i as int) =~= chars@.subrange(
                from as int,
                i - 1,
            ).push(chars@[i - 1]));
        }
    }
    text
}

/// `left` followed by `right`.
pub fn joined(left: &str, right: &str) -> (text: String)
    ensures
        text@ == left@ + right@,
{
    let mut text = left.to_string();
    text.append(right);
    text
}

/// `c` stands somewhere in `text`.
pub fn has_char(text: &str, c: char) -> (yes: bool)
    ensures
        yes == text@.contains(c),
{
    let chars = chars_of(text);
    let mut i: usize = 0;
    while i < chars.len()
        invariant
            i <= chars.len(),
            chars@ == text@,
            forall|k: int| 0 <= k < i ==> text@[k] != c,
        decreases chars.len() - i,
    {
        if chars[i] == c {
            proof {
                assert(text@[i as int] == c);
            }
            return true;
        }
        i = i + 1;
    }
    false
}

/// Where `c` first stands in `text`, or the length where it does not.
pub open spec fn first_index(text: Seq<char>, c: char) -> int
    decreases text.len(),
{
    if text.len() == 0 || text[0] == c {
        0
    } else {
        1 + first_index(text.skip(1), c)
    }
}

pub proof fn first_index_unique(text: Seq<char>, c: char, at: int)
    requires
        0 <= at <= text.len(),
        forall|k: int| 0 <= k < at ==> text[k] != c,
        at < text.len() ==> text[at] == c,
    ensures
        first_index(text, c) == at,
    decreases text.len(),
{
    if at > 0 {
        first_index_unique(text.skip(1), c, at - 1);
    }
}

/// The part of `text` before the first `c`, where there is one.
pub open spec fn before_first(text: Seq<char>, c: char) -> Option<Seq<char>> {
    if text.contains(c) {
        Some(text.take(first_index(text, c)))
    } else {
        None
    }
}

/// The part of `text` behind the first `c`, where there is one.
pub open spec fn after_first(text: Seq<char>, c: char) -> Option<Seq<char>> {
    if text.contains(c) {
        Some(text.skip(first_index(text, c) + 1))
    } else {
        None
    }
}

/// Splits `text` at the first `c`.
pub fn split_once(text: &str, c: char) -> (parts: Option<(String, String)>)
    ensures
        match parts {
            Some((head, tail)) => before_first(text@, c) == Some(head@) && after_first(text@, c)
                == Some(tail@),
            None => !text@.contains(c),
        },
{
    let chars = chars_of(text);
    let mut i: usize = 0;
    while i < chars.len()
        invariant
            i <= chars.len(),
            chars@ == text@,
            forall|k: int| 0 <= k < i ==> text@[k] != c,
        decreases chars.len() - i,
    {
        if chars[i] == c {
            let head = string_of(&chars, 0, i);
            let tail = string_of(&chars, i + 1, chars.len());
            proof {
                assert(text@[i as int] == c);
                first_index_unique(text@, c, i as int);
                assert(head@ =~= text@.take(i as int));
                assert(tail@ =~= text@.skip(i + 1));
            }
            return Some((head, tail));
        }
        i = i + 1;
    }
    None
}

/// A decimal digit.
pub open spec fn digit(n: nat) -> char {
    (48 + n) as char
}

/// `n` in decimal.
pub open spec fn decimal(n: nat) -> Seq<char>
    decreases n,
{
    if n < 10 {
        seq![digit(n)]
    } else {
        decimal(n / 10).push(digit(n % 10))
    }
}

/// `n` in decimal.
pub fn decimal_text(n: usize) -> (text: String)
    ensures
        text@ == decimal(n as nat),
    decreases n,
{
    let d: u8 = (n % 10) as u8;
    let c: char = (48u8 + d) as char;
    if n < 10 {
        let mut text = String::new();
        push_char(&mut text, c);
        proof {
            assert(text@ =~= seq![digit(n as nat)]);
        }
        text
    } else {
        let mut text = decimal_text(n / 10);
        push_char(&mut text, c);
        text
    }
}

/// Different numbers have different decimals.
pub proof fn decimal_injective(a: nat, b: nat)
    requires
        decimal(a) == decimal(b),
    ensures
        a == b,
    decreases a,
{
    assert(decimal(a).len() > 0);
    assert(decimal(b).len() > 0);
    assert(decimal(a).last() == digit(a % 10));
    assert(decimal(b).last() == digit(b % 10));
    if a < 10 {
        if b >= 10 {
            decimal_nonempty(b / 10);
            assert(decimal(b).len() > 1);
        }
    } else if b < 10 {
        decimal_nonempty(a / 10);
        assert(decimal(a).len() > 1);
    } else {
        assert(decimal(a).drop_last() =~= decimal(a / 10));
        assert(decimal(b).drop_last() =~= decimal(b / 10));
        decimal_injective(a / 10, b / 10);
    }
}

pub proof fn decimal_nonempty(n: nat)
    ensures
        decimal(n).len() > 0,
{
}

/// The white space of Unicode.
pub open spec fn is_white(c: char) -> bool {
    c == '\t' || c == '\n' || c == '\u{b}' || c == '\u{c}' || c == '\r' || c == ' ' || c == '\u{85}'
        || c == '\u{a0}' || c == '\u{1680}' || ('\u{2000}' <= c && c <= '\u{200a}') || c == '\u{2028}'
        || c == '\u{2029}' || c == '\u{202f}' || c == '\u{205f}' || c == '\u{3000}'
}

pub fn white(c: char) -> (yes: bool)
    ensures
        yes == is_white(c),
{
    c == '\t' || c == '\n' || c == '\u{b}' || c == '\u{c}' || c == '\r' || c == ' ' || c == '\u{85}'
        || c == '\u{a0}' || c == '\u{1680}' || ('\u{2000}' <= c && c <= '\u{200a}') || c == '\u{2028}'
        || c == '\u{2029}' || c == '\u{202f}' || c == '\u{205f}' || c == '\u{3000}'
}

/// `text` without the white space that it begins with.
pub open spec fn trim_start(text: Seq<char>) -> Seq<char>
    decreases text.len(),
{
    if text.len() > 0 && is_white(text[0]) {
        trim_start(text.skip(1))
    } else {
        text
    }
}

/// `text` without the white space that it ends with.
pub open spec fn trim_end(text: Seq<char>) -> Seq<char>
    decreases text.len(),
{
    if text.len() > 0 && is_white(text.last()) {
        trim_end(text.drop_last())
    } else {
        text
    }
}

/// `text` without white space at either end.
pub open spec fn trim(text: Seq<char>) -> Seq<char> {
    trim_end(trim_start(text))
}

/// Where the first character that is not white space stands at or behind
/// `from`.
pub fn skip_white(chars: &Vec<char>, from: usize, to: usize) -> (at: usize)
    requires
        from <= to <= chars.len(),
    ensures
        from <= at <= to,
        chars@.subrange(at as int, to as int) == trim_start(
            chars@.subrange(from as int, to as int),
        ),
{
    let mut at: usize = from;
    while at < to && white(chars[at])
        invariant
            from <= at <= to <= chars.len(),
            trim_start(chars@.subrange(at as int, to as int)) == trim_start(
                chars@.subrange(from as int, to as int),
            ),
        decreases to - at,
    {
        proof {
            assert(chars@.subrange(at as int, to as int).skip(1) =~= chars@.subrange(
                at + 1,
                to as int,
            ));
        }
        at = at + 1;
    }
    at
}

/// Where the last stretch of white space before `to` begins.
pub fn skip_white_back(chars: &Vec<char>, from: usize, to: usize) -> (at: usize)
    requires
        from <= to <= chars.len(),
    ensures
        from <= at <= to,
        chars@.subrange(from as int, at as int) == trim_end(chars@.subrange(from as int, to as int)),
{
    let mut at: usize = to;
    while at > from && white(chars[at - 1])
        invariant
            from <= at <= to <= chars.len(),
            trim_end(chars@.subrange(from as int, at as int)) == trim_end(
                chars@.subrange(from as int, to as int),
            ),
        decreases at,
    {
        proof {
            assert(chars@.subrange(from as int, at as int).drop_last() =~= chars@.subrange(
                from as int,
                at - 1,
            ));
        }
        at = at - 1;
    }
    at
}

/// What a character becomes in a template: in an attribute `"` is escaped, in
/// text `<` is, and `&` in both.
pub open spec fn escape_char(c: char, attr: bool) -> Seq<char> {
    if c == '&' {
        "&amp;"@
    } else if attr && c == '"' {
        "&quot;"@
    } else if !attr && c == '<' {
        "&lt;"@
    } else {
        seq![c]
    }
}

/// `text` with the characters escaped that would end it.
pub open spec fn escape_html_v(text: Seq<char>, attr: bool) -> Seq<char>
    decreases text.len(),
{
    if text.len() == 0 {
        seq![]
    } else {
        escape_html_v(text.drop_last(), attr) + escape_char(text.last(), attr)
    }
}

/// Escapes text for a template.
pub fn escape_html(text: &str, attr: bool) -> (escaped: String)
    ensures
        escaped@ == escape_html_v(text@, attr),
{
    let chars = chars_of(text);
    let mut escaped = String::new();
    let mut i: usize = 0;
    while i < chars.len()
        invariant
            i <= chars.len(),
            chars@ == text@,
            escaped@ == escape_html_v(text@.take(i as int), attr),
        decreases chars.len() - i,
    {
        let c = chars[i];
        proof {
            assert(text@.take(i + 1).drop_last() =~= text@.take(i as int));
        }
        if c == '&' {
            escaped.append("&amp;");
        } else if attr && c == '"' {
            escaped.append("&quot;");
        } else if !attr && c == '<' {
            escaped.append("&lt;");
        } else {
            push_char(&mut escaped, c);
            proof {
                assert(escaped@ =~= escape_html_v(text@.take(i as int), attr) + seq![c]);
            }
        }
        i = i + 1;
    }
    proof {
        assert(text@.take(i as int) =~= text@);
    }
    escaped
}

/// The lower case of a letter of ASCII.
pub open spec fn ascii_lower(c: char) -> char {
    if 'A' <= c && c <= 'Z' {
        (c as int + 32) as char
    } else {
        c
    }
}

/// `text` with the letters of ASCII in lower case.
pub open spec fn ascii_lowercase(text: Seq<char>) -> Seq<char> {
    text.map_values(|c: char| ascii_lower(c))
}

/// Puts the letters of ASCII in lower case.
pub fn to_ascii_lowercase(text: &str) -> (lower: String)
    ensures
        lower@ == ascii_lowercase(text@),
{
    let chars = chars_of(text);
    let mut lower = String::new();
    let mut i: usize = 0;
    while i < chars.len()
        invariant
            i <= chars.len(),
            chars@ == text@,
            lower@ == ascii_lowercase(text@).take(i as int),
        decreases chars.len() - i,
    {
        let c = chars[i];
        let d = if 'A' <= c && c <= 'Z' {
            (c as u8 + 32u8) as char
        } else {
            c
        };
        push_char(&mut lower, d);
        i = i + 1;
        proof {
            assert(ascii_lowercase(text@).take(i as int) =~= ascii_lowercase(text@).take(
                i - 1,
            ).push(d));
        }
    }
    proof {
        assert(ascii_lowercase(text@).take(i as int) =~= ascii_lowercase(text@));
    }
    lower
}

/// `text` with every `old` replaced, from the left.
pub open spec fn replace_v(text: Seq<char>, old_part: Seq<char>, new_part: Seq<char>) -> Seq<char>
    decreases text.len(),
{
    if old_part.len() == 0 || text.len() < old_part.len() {
        text
    } else if text.take(old_part.len() as int) == old_part {
        new_part + replace_v(text.skip(old_part.len() as int), old_part, new_part)
    } else {
        seq![text[0]] + replace_v(text.skip(1), old_part, new_part)
    }
}

/// Replaces a pair of characters by one character, from the left.
pub fn replace_pair(text: &str, a: char, b: char, c: char) -> (replaced: String)
    ensures
        replaced@ == replace_v(text@, seq![a, b], seq![c]),
{
    let chars = chars_of(text);
    let mut replaced = String::new();
    let mut i: usize = 0;
    let ghost whole = replace_v(text@, seq![a, b], seq![c]);
    proof {
        assert(text@.skip(0) =~= text@);
        assert(Seq::<char>::empty() + whole =~= whole);
    }
    while i < chars.len()
        invariant
            i <= chars.len(),
            chars@ == text@,
            whole == replaced@ + replace_v(text@.skip(i as int), seq![a, b], seq![c]),
        decreases chars.len() - i,
    {
        let ghost rest = text@.skip(i as int);
        let ghost before = replaced@;
        if i + 1 < chars.len() && chars[i] == a && chars[i + 1] == b {
            push_char(&mut replaced, c);
            i = i + 2;
            proof {
                assert(rest.take(2) =~= seq![a, b]);
                assert(rest.skip(2) =~= text@.skip(i as int));
                assert(before + (seq![c] + replace_v(rest.skip(2), seq![a, b], seq![c]))
                    =~= replaced@ + replace_v(rest.skip(2), seq![a, b], seq![c]));
            }
        } else {
            push_char(&mut replaced, chars[i]);
            i = i + 1;
            proof {
                assert(rest.skip(1) =~= text@.skip(i as int));
                if rest.len() >= 2 {
                    if rest.take(2) == seq![a, b] {
                        assert(rest.take(2)[0] == a && rest.take(2)[1] == b);
                    }
                    assert(before + (seq![rest[0]] + replace_v(rest.skip(1), seq![a, b], seq![c]))
                        =~= replaced@ + replace_v(rest.skip(1), seq![a, b], seq![c]));
                } else {
                    assert(rest.skip(1) =~= Seq::<char>::empty());
                    assert(before + rest =~= replaced@ + Seq::<char>::empty());
                }
            }
        }
    }
    proof {
        assert(text@.skip(i as int) =~= Seq::<char>::empty());
        assert(replaced@ + Seq::<char>::empty() =~= replaced@);
    }
    replaced
}

/// What the `\s` of the language's regular expressions matches.
pub open spec fn is_space(c: char) -> bool {
    (is_white(c) && c != '\u{85}') || c == '\u{feff}'
}

pub fn space(c: char) -> (yes: bool)
    ensures
        yes == is_space(c),
{
    (white(c) && c != '\u{85}') || c == '\u{feff}'
}

/// `text` without the spaces that it begins with.
pub open spec fn skip_spaces(text: Seq<char>) -> Seq<char>
    decreases text.len(),
{
    if text.len() > 0 && is_space(text[0]) {
        skip_spaces(text.skip(1))
    } else {
        text
    }
}

/// `text` with every run of spaces replaced by one blank.
pub open spec fn collapse_spaces(text: Seq<char>) -> Seq<char>
    decreases text.len(),
{
    if text.len() == 0 {
        seq![]
    } else if !is_space(text.last()) {
        collapse_spaces(text.drop_last()).push(text.last())
    } else if text.len() > 1 && is_space(text[text.len() - 2]) {
        collapse_spaces(text.drop_last())
    } else {
        collapse_spaces(text.drop_last()).push(' ')
    }
}

/// `text` without carriage returns.
pub open spec fn without_returns(text: Seq<char>) -> Seq<char>
    decreases text.len(),
{
    if text.len() == 0 {
        seq![]
    } else if text.last() == '\r' {
        without_returns(text.drop_last())
    } else {
        without_returns(text.drop_last()).push(text.last())
    }
}

/// The lines of `text`, at least one.
pub open spec fn lines_of(text: Seq<char>) -> Seq<Seq<char>>
    decreases text.len(),
{
    if text.len() == 0 {
        seq![seq![]]
    } else {
        let head = lines_of(text.drop_last());
        if text.last() == '\n' {
            head.push(seq![])
        } else {
            head.drop_last().push(head.last().push(text.last()))
        }
    }
}

/// A line holds nothing but spaces.
pub open spec fn is_blank(line: Seq<char>) -> bool {
    skip_spaces(line).len() == 0
}

/// The lines that are not blank, each but the first of all without the spaces
/// that it begins with, joined by blanks.
pub open spec fn join_lines(lines: Seq<Seq<char>>) -> Seq<char>
    decreases lines.len(),
{
    if lines.len() == 0 {
        seq![]
    } else {
        let head = join_lines(lines.drop_last());
        let line = if lines.len() == 1 {
            lines.last()
        } else {
            skip_spaces(lines.last())
        };
        if is_blank(lines.last()) {
            head
        } else if all_blank(lines.drop_last()) {
            line
        } else {
            head + seq![' '] + line
        }
    }
}

/// Every line is blank.
pub open spec fn all_blank(lines: Seq<Seq<char>>) -> bool {
    forall|i: int| 0 <= i < lines.len() ==> is_blank(#[trigger] lines[i])
}

/// `text` as one line, its runs of spaces collapsed.
pub open spec fn trim_whitespace_v(text: Seq<char>) -> Seq<char> {
    let text = without_returns(text);
    collapse_spaces(
        if text.contains('\n') {
            join_lines(lines_of(text))
        } else {
            text
        },
    )
}

fn collapse(text: &str) -> (collapsed: String)
    ensures
        collapsed@ == collapse_spaces(text@),
{
    let chars = chars_of(text);
    let mut collapsed = String::new();
    let mut i: usize = 0;
    while i < chars.len()
        invariant
            i <= chars.len(),
            chars@ == text@,
            collapsed@ == collapse_spaces(text@.take(i as int)),
        decreases chars.len() - i,
    {
        proof {
            assert(text@.take(i + 1).drop_last() =~= text@.take(i as int));
        }
        let c = chars[i];
        if !space(c) {
            push_char(&mut collapsed, c);
        } else if i > 0 && space(chars[i - 1]) {
        } else {
            push_char(&mut collapsed, ' ');
        }
        i = i + 1;
    }
    proof {
        assert(text@.take(i as int) =~= text@);
    }
    collapsed
}

fn split_lines(text: &str) -> (lines: Vec<String>)
    ensures
        texts(lines@) == lines_of(without_returns(text@)),
{
    let chars = chars_of(text);
    let mut done: Vec<String> = Vec::new();
    let mut line = String::new();
    let mut i: usize = 0;
    proof {
        assert(texts(done@).push(line@) =~= lines_of(without_returns(text@.take(0))));
    }
    while i < chars.len()
        invariant
            i <= chars.len(),
            chars@ == text@,
            texts(done@).push(line@) == lines_of(without_returns(text@.take(i as int))),
        decreases chars.len() - i,
    {
        let c = chars[i];
        let ghost seen = without_returns(text@.take(i as int));
        proof {
            assert(text@.take(i + 1).drop_last() =~= text@.take(i as int));
            if c != '\r' {
                assert(seen.push(c).drop_last() =~= seen);
            }
        }
        if c == '\r' {
        } else if c == '\n' {
            let ghost head = texts(done@).push(line@);
            done.push(line);
            line = String::new();
            proof {
                assert(texts(done@) =~= head);
                assert(texts(done@).push(line@) =~= lines_of(seen.push(c)));
            }
        } else {
            let ghost head = texts(done@).push(line@);
            push_char(&mut line, c);
            proof {
                assert(head.drop_last() =~= texts(done@));
                assert(texts(done@).push(line@) =~= lines_of(seen.push(c)));
            }
        }
        i = i + 1;
    }
    let ghost head = texts(done@).push(line@);
    done.push(line);
    proof {
        assert(texts(done@) =~= head);
        assert(text@.take(i as int) =~= text@);
    }
    done
}

fn without_leading_spaces(line: &str) -> (rest: String)
    ensures
        rest@ == skip_spaces(line@),
{
    let chars = chars_of(line);
    let mut at: usize = 0;
    proof {
        assert(line@.skip(0) =~= line@);
    }
    while at < chars.len() && space(chars[at])
        invariant
            at <= chars.len(),
            chars@ == line@,
            skip_spaces(line@.skip(at as int)) == skip_spaces(line@),
        decreases chars.len() - at,
    {
        proof {
            assert(line@.skip(at as int).skip(1) =~= line@.skip(at + 1));
        }
        at = at + 1;
    }
    let rest = string_of(&chars, at, chars.len());
    proof {
        assert(rest@ =~= line@.skip(at as int));
    }
    rest
}

/// Puts text on one line and collapses its runs of spaces.
pub fn trim_whitespace(text: &str) -> (trimmed: String)
    ensures
        trimmed@ == trim_whitespace_v(text@),
{
    let lines = split_lines(text);
    let ghost all = lines_of(without_returns(text@));
    proof {
        one_line(without_returns(text@));
    }
    if lines.len() == 1 {
        return collapse(lines[0].as_str());
    }
    let mut out = String::new();
    let mut empty = true;
    let mut i: usize = 0;
    while i < lines.len()
        invariant
            i <= lines.len(),
            texts(lines@) == all,
            lines.len() == all.len(),
            out@ == join_lines(all.take(i as int)),
            empty == all_blank(all.take(i as int)),
        decreases lines.len() - i,
    {
        let rest = without_leading_spaces(lines[i].as_str());
        proof {
            assert(all.take(i + 1).drop_last() =~= all.take(i as int));
            assert(all[i as int] == lines@[i as int]@);
            assert(all.take(i + 1)[i as int] == all[i as int]);
            assert(forall|k: int| 0 <= k < i ==> all.take(i + 1)[k] == all.take(i as int)[k]);
        }
        let blank = rest.as_str().is_empty();
        if !blank {
            if !empty {
                push_char(&mut out, ' ');
            }
            if i == 0 {
                out.append(lines[i].as_str());
            } else {
                out.append(rest.as_str());
            }
            proof {
                assert(!all_blank(all.take(i + 1))) by {
                    assert(!is_blank(all.take(i + 1)[i as int]));
                }
                if empty {
                    all_blank_joins_to_nothing(all.take(i as int));
                }
                assert(out@ =~= join_lines(all.take(i + 1)));
            }
            empty = false;
        } else {
            proof {
                assert(empty == all_blank(all.take(i + 1)));
            }
        }
        i = i + 1;
    }
    proof {
        assert(all.take(i as int) =~= all);
    }
    collapse(out.as_str())
}

proof fn all_blank_joins_to_nothing(lines: Seq<Seq<char>>)
    requires
        all_blank(lines),
    ensures
        join_lines(lines) == Seq::<char>::empty(),
    decreases lines.len(),
{
    if lines.len() > 0 {
        assert(is_blank(lines[lines.len() - 1]));
        assert forall|i: int| 0 <= i < lines.drop_last().len() implies is_blank(
            #[trigger] lines.drop_last()[i],
        ) by {
            assert(is_blank(lines[i]));
        }
        all_blank_joins_to_nothing(lines.drop_last());
    }
}

/// A text without a line break is its own only line, and no other has one.
proof fn one_line(text: Seq<char>)
    ensures
        lines_of(text).len() >= 1,
        (lines_of(text).len() == 1) == !text.contains('\n'),
        lines_of(text).len() == 1 ==> lines_of(text)[0] == text,
    decreases text.len(),
{
    if text.len() > 0 {
        let head = text.drop_last();
        one_line(head);
        if text.last() == '\n' {
            assert(text[text.len() - 1] == '\n');
            assert(text.contains('\n'));
        } else {
            if head.contains('\n') {
                let k = choose|k: int| 0 <= k < head.len() && head[k] == '\n';
                assert(text[k] == '\n');
            }
            if text.contains('\n') {
                let k = choose|k: int| 0 <= k < text.len() && text[k] == '\n';
                assert(head[k] == '\n');
            }
            if lines_of(text).len() == 1 {
                assert(head.push(text.last()) =~= text);
            }
        }
    }
}

/// An upper-case character.
pub open spec fn is_upper(c: char) -> bool {
    if c <= '\u{7f}' {
        'A' <= c && c <= 'Z'
    } else {
        uppercase(c)
    }
}

/// A character in lower case; the first one, where there are several.
pub open spec fn lower_of(c: char) -> char {
    if c <= '\u{7f}' {
        ascii_lower(c)
    } else {
        lowercase_first(c)
    }
}

/// A letter becomes a hyphen and its lower case, without the hyphen at the
/// start; anything else stays.
pub open spec fn kebab_char(c: char, first: bool) -> Seq<char> {
    if is_upper(c) {
        if first {
            seq![lower_of(c)]
        } else {
            seq!['-', lower_of(c)]
        }
    } else {
        seq![c]
    }
}

/// `camelCase` as `kebab-case`.
pub open spec fn kebab_case(text: Seq<char>) -> Seq<char>
    decreases text.len(),
{
    if text.len() == 0 {
        seq![]
    } else {
        kebab_case(text.drop_last()) + kebab_char(text.last(), text.len() == 1)
    }
}

/// `camelCase` as `kebab-case`.
pub fn camel_to_kebab(text: &str) -> (kebab: String)
    ensures
        kebab@ == kebab_case(text@),
{
    let chars = chars_of(text);
    let mut kebab = String::new();
    let mut i: usize = 0;
    while i < chars.len()
        invariant
            i <= chars.len(),
            chars@ == text@,
            kebab@ == kebab_case(text@.take(i as int)),
        decreases chars.len() - i,
    {
        let c = chars[i];
        proof {
            assert(text@.take(i + 1).drop_last() =~= text@.take(i as int));
        }
        let ghost before = kebab@;
        if is_uppercase(c) {
            if i > 0 {
                push_char(&mut kebab, '-');
            }
            push_char(&mut kebab, lowercase(c));
        } else {
            push_char(&mut kebab, c);
        }
        proof {
            assert(kebab@ =~= before + kebab_char(c, i == 0));
        }
        i = i + 1;
    }
    proof {
        assert(text@.take(i as int) =~= text@);
    }
    kebab
}

/// How many upper-case letters a text has, but for its first character.
pub open spec fn inner_capitals(text: Seq<char>) -> nat
    decreases text.len(),
{
    if text.len() <= 1 {
        0
    } else {
        inner_capitals(text.drop_last()) + if is_upper(text.last()) {
            1nat
        } else {
            0nat
        }
    }
}

/// A text of ASCII characters.
pub open spec fn all_ascii(text: Seq<char>) -> bool {
    forall|i: int| 0 <= i < text.len() ==> #[trigger] text[i] <= '\u{7f}'
}

/// A text without an upper-case letter.
pub open spec fn no_capitals(text: Seq<char>) -> bool {
    forall|i: int| 0 <= i < text.len() ==> !is_upper(#[trigger] text[i])
}

/// A text without upper-case letters is in kebab case.
pub proof fn kebab_case_stays(text: Seq<char>)
    requires
        no_capitals(text),
    ensures
        kebab_case(text) == text,
    decreases text.len(),
{
    if text.len() > 0 {
        assert(no_capitals(text.drop_last())) by {
            assert forall|i: int| 0 <= i < text.drop_last().len() implies !is_upper(
                #[trigger] text.drop_last()[i],
            ) by {
                assert(text.drop_last()[i] == text[i]);
            }
        }
        kebab_case_stays(text.drop_last());
        assert(!is_upper(text[text.len() - 1]));
        assert(text.drop_last() + seq![text.last()] =~= text);
    } else {
        assert(kebab_case(text) =~= text);
    }
}

/// An ASCII text in kebab case has no upper-case letter left and a hyphen more
/// for each that it had behind its start; to bring it into kebab case again
/// changes nothing.
pub proof fn kebab_case_of_ascii(text: Seq<char>)
    requires
        all_ascii(text),
    ensures
        no_capitals(kebab_case(text)),
        kebab_case(text).len() == text.len() + inner_capitals(text),
        kebab_case(kebab_case(text)) == kebab_case(text),
    decreases text.len(),
{
    if text.len() > 0 {
        assert(all_ascii(text.drop_last())) by {
            assert forall|i: int| 0 <= i < text.drop_last().len() implies (
            #[trigger] text.drop_last()[i]) <= '\u{7f}' by {
                assert(text.drop_last()[i] == text[i]);
            }
        }
        kebab_case_of_ascii(text.drop_last());
        let c = text[text.len() - 1];
        assert(c <= '\u{7f}');
        assert(c == text.last());
        let front = kebab_case(text.drop_last());
        let back = kebab_char(c, text.len() == 1);
        assert forall|i: int| 0 <= i < back.len() implies !is_upper(#[trigger] back[i]) by {}
        assert forall|i: int| 0 <= i < (front + back).len() implies !is_upper(
            #[trigger] (front + back)[i],
        ) by {
            if i < front.len() {
                assert((front + back)[i] == front[i]);
            } else {
                assert((front + back)[i] == back[i - front.len()]);
            }
        }
        if text.len() == 1 {
            assert(text.drop_last() =~= seq![]);
        }
    }
    kebab_case_stays(kebab_case(text));
}

/// Some texts with `separator` between them.
pub open spec fn join_v(items: Seq<Seq<char>>, separator: Seq<char>) -> Seq<char>
    decreases items.len(),
{
    if items.len() == 0 {
        seq![]
    } else if items.len() == 1 {
        items[0]
    } else {
        join_v(items.drop_last(), separator) + separator + items.last()
    }
}

/// Joins texts with `separator` between them.
pub fn join(items: &Vec<String>, separator: &str) -> (text: String)
    ensures
        text@ == join_v(texts(items@), separator@),
{
    let mut text = String::new();
    let mut i: usize = 0;
    let ghost all = texts(items@);
    proof {
        assert(text@ =~= join_v(all.take(0), separator@));
    }
    while i < items.len()
        invariant
            i <= items.len(),
            all == texts(items@),
            text@ == join_v(all.take(i as int), separator@),
        decreases items.len() - i,
    {
        proof {
            assert(all.take(i + 1).drop_last() =~= all.take(i as int));
            assert(all.take(i + 1).last() == items@[i as int]@);
        }
        if i > 0 {
            text.append(separator);
        }
        text.append(items[i].as_str());
        proof {
            if i == 0 {
                assert(text@ =~= items@[0]@);
            }
        }
        i = i + 1;
    }
    proof {
        assert(all.take(i as int) =~= all);
    }
    text
}

/// Where `part` first stands in `text`.
pub open spec fn find_v(text: Seq<char>, part: Seq<char>) -> Option<nat>
    decreases text.len(),
{
    if starts_with(text, part) {
        Some(0)
    } else if text.len() == 0 {
        None
    } else {
        match find_v(text.skip(1), part) {
            None => None,
            Some(at) => Some(at + 1),
        }
    }
}

fn stands_at(chars: &Vec<char>, at: usize, to: usize, part: &Vec<char>) -> (yes: bool)
    requires
        at <= to <= chars.len(),
    ensures
        yes == starts_with(chars@.subrange(at as int, to as int), part@),
{
    let ghost rest = chars@.subrange(at as int, to as int);
    if part.len() > to - at {
        return false;
    }
    let mut i: usize = 0;
    while i < part.len()
        invariant
            i <= part.len() <= to - at,
            at <= to <= chars.len(),
            rest == chars@.subrange(at as int, to as int),
            forall|k: int| 0 <= k < i ==> rest[k] == part@[k],
        decreases part.len() - i,
    {
        if chars[at + i] != part[i] {
            proof {
                assert(rest.take(part@.len() as int)[i as int] != part@[i as int]);
            }
            return false;
        }
        i = i + 1;
    }
    proof {
        assert(rest.take(part@.len() as int) =~= part@);
    }
    true
}

/// Where `part` first stands in a stretch of characters.
pub fn find_in(chars: &Vec<char>, from: usize, to: usize, part: &Vec<char>) -> (found: Option<
    usize,
>)
    requires
        from <= to <= chars.len(),
    ensures
        match found {
            Some(at) => from <= at && at + part@.len() <= to && find_v(
                chars@.subrange(from as int, to as int),
                part@,
            ) == Some((at - from) as nat),
            None => find_v(chars@.subrange(from as int, to as int), part@) is None,
        },
{
    let mut at: usize = from;
    let ghost whole = find_v(chars@.subrange(from as int, to as int), part@);
    while at < to
        invariant
            from <= at <= to <= chars.len(),
            whole == find_v(chars@.subrange(from as int, to as int), part@),
            whole == (match find_v(chars@.subrange(at as int, to as int), part@) {
                None => None::<nat>,
                Some(k) => Some((k + at - from) as nat),
            }),
        decreases to - at,
    {
        if stands_at(chars, at, to, part) {
            return Some(at);
        }
        proof {
            assert(chars@.subrange(at as int, to as int).skip(1) =~= chars@.subrange(
                at + 1,
                to as int,
            ));
        }
        at = at + 1;
    }
    if stands_at(chars, at, to, part) {
        Some(at)
    } else {
        None
    }
}

/// Whether a stretch of characters is `text`.
pub fn stretch_is(chars: &Vec<char>, from: usize, to: usize, text: &str) -> (yes: bool)
    requires
        from <= to <= chars.len(),
    ensures
        yes == (chars@.subrange(from as int, to as int) == text@),
{
    let stretch = string_of(chars, from, to);
    same(stretch.as_str(), text)
}

} // verus!
