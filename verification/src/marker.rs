//! Comments that mark an expression as static.

use crate::ast::Span;
use crate::ir::BlockContext;
use crate::text::{
    chars_of, find_in, find_v, skip_white, skip_white_back, starts_with, stretch_is, trim,
};
use vstd::prelude::*;

verus! {

/// The bytes of a character in UTF-8.
pub open spec fn char_bytes(c: char) -> nat {
    if c <= '\u{7f}' {
        1
    } else if c <= '\u{7ff}' {
        2
    } else if c <= '\u{ffff}' {
        3
    } else {
        4
    }
}

/// The bytes of a text in UTF-8.
pub open spec fn text_bytes(text: Seq<char>) -> nat
    decreases text.len(),
{
    if text.len() == 0 {
        0
    } else {
        text_bytes(text.drop_last()) + char_bytes(text.last())
    }
}

/// The number of characters in the first `bytes` bytes of a text, where these
/// are whole characters.
pub open spec fn char_index(text: Seq<char>, bytes: nat) -> Option<nat>
    decreases text.len(),
{
    if text_bytes(text) == bytes {
        Some(text.len())
    } else if text.len() == 0 {
        None
    } else {
        char_index(text.drop_last(), bytes)
    }
}

/// The text of a span: nothing where the span is empty, reaches beyond the
/// text or cuts a character.
pub open spec fn span_text(text: Seq<char>, span: Span) -> Option<Seq<char>> {
    if span.start >= span.end {
        None
    } else {
        match (char_index(text, span.start as nat), char_index(text, span.end as nat)) {
            (Some(from), Some(to)) => Some(text.subrange(from as int, to as int)),
            _ => None,
        }
    }
}

pub proof fn text_bytes_grow(text: Seq<char>, i: int, j: int)
    requires
        0 <= i <= j <= text.len(),
    ensures
        text_bytes(text.take(i)) + (j - i) <= text_bytes(text.take(j)),
        i < j ==> text_bytes(text.take(i)) < text_bytes(text.take(j)),
    decreases j - i,
{
    if i < j {
        assert(text.take(j).drop_last() =~= text.take(j - 1));
        text_bytes_grow(text, i, j - 1);
    }
}

proof fn char_index_is(text: Seq<char>, bytes: nat, i: int)
    requires
        0 <= i <= text.len(),
        text_bytes(text.take(i)) == bytes,
    ensures
        char_index(text, bytes) == Some(i as nat),
    decreases text.len(),
{
    assert(text.take(text.len() as int) =~= text);
    if i < text.len() {
        text_bytes_grow(text, i, text.len() as int);
        assert(text.drop_last().take(i) =~= text.take(i));
        char_index_is(text.drop_last(), bytes, i);
    }
}

proof fn char_index_none(text: Seq<char>, bytes: nat)
    requires
        forall|i: int| 0 <= i <= text.len() ==> #[trigger] text_bytes(text.take(i)) != bytes,
    ensures
        char_index(text, bytes) is None,
    decreases text.len(),
{
    assert(text.take(text.len() as int) =~= text);
    assert(text_bytes(text.take(text.len() as int)) != bytes);
    if text.len() > 0 {
        assert forall|i: int| 0 <= i <= text.drop_last().len() implies #[trigger] text_bytes(
            text.drop_last().take(i),
        ) != bytes by {
            assert(text.drop_last().take(i) =~= text.take(i));
            assert(text_bytes(text.take(i)) != bytes);
        }
        char_index_none(text.drop_last(), bytes);
    }
}

/// The number of characters in the first `bytes` bytes.
pub fn index_of_byte(chars: &Vec<char>, bytes: usize) -> (index: Option<usize>)
    ensures
        match index {
            Some(index) => index <= chars.len() && char_index(chars@, bytes as nat) == Some(
                index as nat,
            ) && text_bytes(chars@.take(index as int)) == bytes,
            None => char_index(chars@, bytes as nat) is None,
        },
{
    let mut i: usize = 0;
    let mut seen: usize = 0;
    proof {
        assert(text_bytes(chars@.take(0)) == 0);
    }
    while i < chars.len() && seen < bytes
        invariant
            i <= chars.len(),
            seen == text_bytes(chars@.take(i as int)),
            forall|k: int| 0 <= k < i ==> #[trigger] text_bytes(chars@.take(k)) < bytes,
        decreases chars.len() - i,
    {
        let c = chars[i];
        let width: usize = if c <= '\u{7f}' {
            1
        } else if c <= '\u{7ff}' {
            2
        } else if c <= '\u{ffff}' {
            3
        } else {
            4
        };
        proof {
            assert(chars@.take(i + 1).drop_last() =~= chars@.take(i as int));
        }
        if width > usize::MAX - seen {
            proof {
                assert forall|k: int| 0 <= k <= chars@.len() implies #[trigger] text_bytes(
                    chars@.take(k),
                ) != bytes by {
                    if k > i {
                        text_bytes_grow(chars@, i + 1, k);
                    }
                }
                char_index_none(chars@, bytes as nat);
            }
            return None;
        }
        seen = seen + width;
        i = i + 1;
    }
    if seen == bytes {
        proof {
            char_index_is(chars@, bytes as nat, i as int);
        }
        Some(i)
    } else {
        proof {
            assert forall|k: int| 0 <= k <= chars@.len() implies #[trigger] text_bytes(
                chars@.take(k),
            ) != bytes by {
                if k > i {
                    text_bytes_grow(chars@, i as int, k);
                }
            }
            char_index_none(chars@, bytes as nat);
        }
        None
    }
}

/// The text behind the white space and the opening braces and brackets that it
/// begins with.
pub open spec fn skip_openers(text: Seq<char>) -> Seq<char>
    decreases text.len(),
{
    if text.len() > 0 && (is_ascii_white(text[0]) || text[0] == '{' || text[0] == '(') {
        skip_openers(text.skip(1))
    } else {
        text
    }
}

/// The white space of ASCII.
pub open spec fn is_ascii_white(c: char) -> bool {
    c == ' ' || c == '\t' || c == '\n' || c == '\u{c}' || c == '\r'
}

/// The inside of the comment that a text begins with.
pub open spec fn leading_comment(text: Seq<char>) -> Option<Seq<char>> {
    if starts_with(text, seq!['/', '*']) {
        let rest = text.skip(2);
        match find_v(rest, seq!['*', '/']) {
            Some(end) => Some(rest.take(end as int)),
            None => None,
        }
    } else {
        None
    }
}

/// The text begins, but for openers, with the comment `marker`.
pub open spec fn begins_with_marker(text: Seq<char>, marker: Seq<char>) -> bool {
    match leading_comment(skip_openers(text)) {
        Some(comment) => trim(comment) == marker,
        None => false,
    }
}

/// Some comment of the text is `marker`.
pub open spec fn holds_marker(text: Seq<char>, marker: Seq<char>) -> bool
    decreases text.len(),
{
    match find_v(text, seq!['/', '*']) {
        None => false,
        Some(start) => {
            if start + 2 > text.len() {
                false
            } else {
                let rest = text.skip(start as int + 2);
                match find_v(rest, seq!['*', '/']) {
                    None => false,
                    Some(end) => trim(rest.take(end as int)) == marker || (end + 2 <= rest.len()
                        && holds_marker(rest.skip(end as int + 2), marker)),
                }
            }
        },
    }
}

proof fn openers_hold_no_comment(text: Seq<char>)
    requires
        starts_with(skip_openers(text), seq!['/', '*']),
    ensures
        find_v(text, seq!['/', '*']) == Some((text.len() - skip_openers(text).len()) as nat),
        skip_openers(text).len() <= text.len(),
        skip_openers(text) == text.skip(text.len() - skip_openers(text).len()),
    decreases text.len(),
{
    let mark = seq!['/', '*'];
    if text.len() > 0 && (is_ascii_white(text[0]) || text[0] == '{' || text[0] == '(') {
        openers_hold_no_comment(text.skip(1));
        if starts_with(text, mark) {
            assert(text.take(2)[0] == mark[0]);
        }
        let rest = skip_openers(text);
        assert(text.skip(1).skip(text.skip(1).len() - rest.len()) =~= text.skip(
            text.len() - rest.len(),
        ));
    } else {
        assert(text.skip(0) =~= text);
    }
}

/// A marker that a text begins with is among its comments.
pub proof fn leading_marker_is_held(text: Seq<char>, marker: Seq<char>)
    requires
        begins_with_marker(text, marker),
    ensures
        holds_marker(text, marker),
{
    let rest = skip_openers(text);
    openers_hold_no_comment(text);
    let start = text.len() - rest.len();
    assert(seq!['/', '*'].len() == 2);
    assert(text.skip(start + 2) =~= rest.skip(2));
}

/// A marker that the source at a span begins with is also found anywhere in it.
pub proof fn leading_marker_is_found(source: Seq<char>, span: Span, marker: Seq<char>)
    requires
        static_marker(source, span, marker),
    ensures
        static_marker_anywhere(source, span, marker),
{
    leading_marker_is_held(span_text(source, span)->0, marker);
}

/// The source at `span` begins, but for openers, with the comment `marker`.
pub open spec fn static_marker(source: Seq<char>, span: Span, marker: Seq<char>) -> bool {
    match span_text(source, span) {
        Some(text) => begins_with_marker(text, marker),
        None => false,
    }
}

/// Some comment of the source at `span` is `marker`.
pub open spec fn static_marker_anywhere(source: Seq<char>, span: Span, marker: Seq<char>) -> bool {
    match span_text(source, span) {
        Some(text) => holds_marker(text, marker),
        None => false,
    }
}

/// Whether a stretch of characters, less the white space at its ends, is
/// `marker`.
pub fn trimmed_is(chars: &Vec<char>, from: usize, to: usize, marker: &str) -> (yes: bool)
    requires
        from <= to <= chars.len(),
    ensures
        yes == (trim(chars@.subrange(from as int, to as int)) == marker@),
{
    let start: usize = skip_white(chars, from, to);
    let end: usize = skip_white_back(chars, start, to);
    stretch_is(chars, start, end, marker)
}

fn opener() -> (part: Vec<char>)
    ensures
        part@ == seq!['/', '*'],
{
    let mut part: Vec<char> = Vec::new();
    part.push('/');
    part.push('*');
    proof {
        assert(part@ =~= seq!['/', '*']);
    }
    part
}

fn closer() -> (part: Vec<char>)
    ensures
        part@ == seq!['*', '/'],
{
    let mut part: Vec<char> = Vec::new();
    part.push('*');
    part.push('/');
    proof {
        assert(part@ =~= seq!['*', '/']);
    }
    part
}

/// Whether a stretch of characters begins with the marker.
fn stretch_begins_with_marker(chars: &Vec<char>, from: usize, to: usize, marker: &str) -> (yes:
    bool)
    requires
        from <= to <= chars.len(),
    ensures
        yes == begins_with_marker(chars@.subrange(from as int, to as int), marker@),
{
    let mut at: usize = from;
    while at < to && (chars[at] == ' ' || chars[at] == '\t' || chars[at] == '\n' || chars[at]
        == '\u{c}' || chars[at] == '\r' || chars[at] == '{' || chars[at] == '(')
        invariant
            from <= at <= to <= chars.len(),
            skip_openers(chars@.subrange(at as int, to as int)) == skip_openers(
                chars@.subrange(from as int, to as int),
            ),
        decreases to - at,
    {
        proof {
            assert(chars@.subrange(at as int, to as int).skip(1) =~= chars@.subrange(
                at + 1,
                to as int,
            ));
        }
        at = at + 1;
    }
    let ghost rest = chars@.subrange(at as int, to as int);
    proof {
        assert(rest == skip_openers(chars@.subrange(from as int, to as int)));
        assert(seq!['/', '*'].len() == 2);
    }
    if to - at < 2 || chars[at] != '/' || chars[at + 1] != '*' {
        proof {
            if starts_with(rest, seq!['/', '*']) {
                assert(rest.take(2)[0] == '/' && rest.take(2)[1] == '*');
            }
        }
        return false;
    }
    proof {
        assert(rest.take(2) =~= seq!['/', '*']);
        assert(rest.skip(2) =~= chars@.subrange(at + 2, to as int));
    }
    match find_in(chars, at + 2, to, &closer()) {
        Some(end) => {
            proof {
                assert(rest.skip(2).take(end - (at + 2)) =~= chars@.subrange(at + 2, end as int));
            }
            trimmed_is(chars, at + 2, end, marker)
        },
        None => false,
    }
}

/// Whether some comment of a stretch of characters is the marker.
fn stretch_holds_marker(chars: &Vec<char>, from: usize, to: usize, marker: &str) -> (yes: bool)
    requires
        from <= to <= chars.len(),
    ensures
        yes == holds_marker(chars@.subrange(from as int, to as int), marker@),
    decreases to - from,
{
    let ghost text = chars@.subrange(from as int, to as int);
    match find_in(chars, from, to, &opener()) {
        None => false,
        Some(start) => {
            let ghost rest = text.skip(start - from + 2);
            proof {
                assert(rest =~= chars@.subrange(start + 2, to as int));
            }
            match find_in(chars, start + 2, to, &closer()) {
                None => false,
                Some(end) => {
                    proof {
                        assert(rest.take(end - (start + 2)) =~= chars@.subrange(
                            start + 2,
                            end as int,
                        ));
                        assert(rest.skip(end - (start + 2) + 2) =~= chars@.subrange(
                            end + 2,
                            to as int,
                        ));
                    }
                    trimmed_is(chars, start + 2, end, marker) || stretch_holds_marker(
                        chars,
                        end + 2,
                        to,
                        marker,
                    )
                },
            }
        },
    }
}

/// The stretch of a span.
pub fn stretch_of(chars: &Vec<char>, span: Span) -> (stretch: Option<(usize, usize)>)
    ensures
        match stretch {
            Some((from, to)) => from <= to <= chars.len() && span_text(chars@, span) == Some(
                chars@.subrange(from as int, to as int),
            ),
            None => span_text(chars@, span) is None,
        },
{
    if span.start >= span.end {
        return None;
    }
    match index_of_byte(chars, span.start as usize) {
        None => None,
        Some(from) => match index_of_byte(chars, span.end as usize) {
            None => None,
            Some(to) => {
                proof {
                    if to < from {
                        text_bytes_grow(chars@, to as int, from as int);
                    }
                }
                Some((from, to))
            },
        },
    }
}

/// Whether the source at `span` begins, but for openers, with the comment
/// `marker`.
pub fn has_marker(source: &str, span: Span, marker: &str) -> (yes: bool)
    ensures
        yes == static_marker(source@, span, marker@),
{
    let chars = chars_of(source);
    match stretch_of(&chars, span) {
        Some((from, to)) => stretch_begins_with_marker(&chars, from, to, marker),
        None => false,
    }
}

impl<'a> BlockContext<'a> {
    /// Whether the source at `span` begins, but for openers, with the comment
    /// `marker`.
    pub fn has_static_marker_comment(&self, span: Span, marker: &str) -> (yes: bool)
        ensures
            yes == static_marker(self@.source, span, marker@),
    {
        has_marker(self.source(), span, marker)
    }

    /// Whether some comment of the source at `span` is `marker`.
    pub fn has_static_marker_comment_anywhere(&self, span: Span, marker: &str) -> (yes: bool)
        ensures
            yes == static_marker_anywhere(self@.source, span, marker@),
    {
        let chars = chars_of(self.source());
        match stretch_of(&chars, span) {
            Some((from, to)) => stretch_holds_marker(&chars, from, to, marker),
            None => false,
        }
    }
}

} // verus!
