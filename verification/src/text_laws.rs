//! What holds of texts that were cut, joined, escaped and trimmed.

use crate::text::{
    after_first, all_blank, before_first, collapse_spaces, escape_char, escape_html_v, find_v,
    first_index, is_blank, is_space, is_white, join_lines, join_v, lines_of, skip_spaces,
    starts_with, trim, trim_end, trim_start, trim_whitespace_v, without_returns,
};
use vstd::prelude::*;

verus! {

// ---------------------------------------------------------------------------
// Cutting and joining
// ---------------------------------------------------------------------------

/// The first of a character is the first.
pub proof fn first_index_is_first(text: Seq<char>, c: char)
    requires
        text.contains(c),
    ensures
        0 <= first_index(text, c) < text.len(),
        text[first_index(text, c)] == c,
        !text.take(first_index(text, c)).contains(c),
    decreases text.len(),
{
    if text[0] != c {
        let rest = text.skip(1);
        let k = choose|k: int| 0 <= k < text.len() && text[k] == c;
        assert(rest[k - 1] == c);
        first_index_is_first(rest, c);
        let n = first_index(rest, c);
        assert forall|i: int| 0 <= i < n + 1 implies #[trigger] text.take(n + 1)[i] != c by {
            if i > 0 {
                assert(rest.take(n)[i - 1] == text[i]);
                assert(rest.take(n).contains(rest.take(n)[i - 1]));
            }
        }
    } else {
        assert(text.take(0) =~= Seq::empty());
    }
}

/// A text is what stands before the first of a character, the character, and
/// what stands behind it.
pub proof fn a_text_is_cut_at_the_first(text: Seq<char>, c: char)
    ensures
        before_first(text, c) is Some == text.contains(c),
        after_first(text, c) is Some == text.contains(c),
        text.contains(c) ==> {
            let head = before_first(text, c)->0;
            let tail = after_first(text, c)->0;
            text == head + seq![c] + tail && !head.contains(c)
        },
{
    if text.contains(c) {
        first_index_is_first(text, c);
        let n = first_index(text, c);
        assert(text =~= text.take(n) + seq![c] + text.skip(n + 1));
    }
}

/// Where a part is found it stands, and it stands nowhere before.
pub proof fn a_part_is_found_first(text: Seq<char>, part: Seq<char>)
    ensures
        find_v(text, part) matches Some(at) ==> at + part.len() <= text.len() && text.subrange(
            at as int,
            (at + part.len()) as int,
        ) == part && forall|i: int|
            0 <= i < at ==> !starts_with(#[trigger] text.skip(i), part),
        find_v(text, part) is None ==> forall|i: int|
            0 <= i <= text.len() ==> !starts_with(#[trigger] text.skip(i), part),
    decreases text.len(),
{
    assert(text.skip(0) =~= text);
    if starts_with(text, part) {
        assert(text.subrange(0, part.len() as int) =~= text.take(part.len() as int));
    } else if text.len() > 0 {
        let rest = text.skip(1);
        a_part_is_found_first(rest, part);
        assert forall|i: int| 0 < i <= text.len() implies #[trigger] text.skip(i) == rest.skip(
            i - 1,
        ) by {
            assert(text.skip(i) =~= rest.skip(i - 1));
        }
        if let Some(at) = find_v(rest, part) {
            assert(text.subrange(at + 1int, at + 1int + part.len()) =~= rest.subrange(
                at as int,
                (at + part.len()) as int,
            ));
        }
    }
}

/// Texts that are joined in two parts are joined.
pub proof fn joining_in_parts(a: Seq<Seq<char>>, b: Seq<Seq<char>>, separator: Seq<char>)
    requires
        a.len() > 0,
        b.len() > 0,
    ensures
        join_v(a + b, separator) == join_v(a, separator) + separator + join_v(b, separator),
    decreases b.len(),
{
    assert((a + b).drop_last() =~= a + b.drop_last());
    assert((a + b).last() == b.last());
    if b.len() == 1 {
        assert(a + b.drop_last() =~= a);
        assert(join_v(b, separator) == b[0]);
    } else {
        joining_in_parts(a, b.drop_last(), separator);
        assert(join_v(a + b, separator) =~= join_v(a, separator) + separator + join_v(b, separator));
    }
}

/// One text is joined to itself, and none to nothing.
pub proof fn joining_one(text: Seq<char>, separator: Seq<char>)
    ensures
        join_v(seq![text], separator) == text,
        join_v(Seq::empty(), separator) == Seq::<char>::empty(),
{
}

// ---------------------------------------------------------------------------
// Escaping
// ---------------------------------------------------------------------------

/// What a text of HTML stands for, as far as it is escaped here.
pub open spec fn unescaped(text: Seq<char>) -> Seq<char>
    decreases text.len(),
{
    if text.len() == 0 {
        seq![]
    } else if starts_with(text, seq!['&', 'a', 'm', 'p', ';']) {
        seq!['&'] + unescaped(text.skip(5))
    } else if starts_with(text, seq!['&', 'q', 'u', 'o', 't', ';']) {
        seq!['"'] + unescaped(text.skip(6))
    } else if starts_with(text, seq!['&', 'l', 't', ';']) {
        seq!['<'] + unescaped(text.skip(4))
    } else {
        seq![text[0]] + unescaped(text.skip(1))
    }
}

/// A character that would end an attribute, or begin a tag.
pub open spec fn breaks_out(c: char, attr: bool) -> bool {
    if attr {
        c == '"'
    } else {
        c == '<'
    }
}

proof fn escape_first(text: Seq<char>, attr: bool)
    requires
        text.len() > 0,
    ensures
        escape_html_v(text, attr) == escape_char(text[0], attr) + escape_html_v(
            text.skip(1),
            attr,
        ),
    decreases text.len(),
{
    if text.len() == 1 {
        assert(text.drop_last() =~= seq![]);
        assert(text.skip(1) =~= seq![]);
        assert(escape_html_v(text, attr) =~= escape_char(text[0], attr) + escape_html_v(
            text.skip(1),
            attr,
        ));
    } else {
        escape_first(text.drop_last(), attr);
        assert(text.drop_last().skip(1) =~= text.skip(1).drop_last());
        assert(text.skip(1).last() == text.last());
        assert(escape_html_v(text, attr) =~= escape_char(text[0], attr) + escape_html_v(
            text.skip(1),
            attr,
        ));
    }
}

/// An escaped text stands for the text, and holds nothing that would end an
/// attribute, or begin a tag.
pub proof fn an_escaped_text_reads_back(text: Seq<char>, attr: bool)
    ensures
        unescaped(escape_html_v(text, attr)) == text,
        forall|i: int|
            0 <= i < escape_html_v(text, attr).len() ==> !breaks_out(
                #[trigger] escape_html_v(text, attr)[i],
                attr,
            ),
    decreases text.len(),
{
    if text.len() > 0 {
        reveal_strlit("&amp;");
        reveal_strlit("&quot;");
        reveal_strlit("&lt;");
        escape_first(text, attr);
        an_escaped_text_reads_back(text.skip(1), attr);
        let head = escape_char(text[0], attr);
        let rest = escape_html_v(text.skip(1), attr);
        let whole = head + rest;
        assert(whole.skip(head.len() as int) =~= rest);
        assert(seq![text[0]] + text.skip(1) =~= text);
        let amp = seq!['&', 'a', 'm', 'p', ';'];
        let quot = seq!['&', 'q', 'u', 'o', 't', ';'];
        let lt = seq!['&', 'l', 't', ';'];
        if text[0] == '&' {
            assert(head =~= amp);
            assert(whole.take(5) =~= amp);
        } else if attr && text[0] == '"' {
            assert(head =~= quot);
            assert(whole.take(6) =~= quot);
            assert(whole.take(5)[1] == 'q');
            assert(!starts_with(whole, amp));
        } else if !attr && text[0] == '<' {
            assert(head =~= lt);
            assert(whole.take(4) =~= lt);
            assert(whole[1] == 'l');
            if starts_with(whole, amp) {
                assert(whole.take(5)[1] == 'a');
            }
            if starts_with(whole, quot) {
                assert(whole.take(6)[1] == 'q');
            }
        } else {
            assert(whole[0] == text[0]);
            if starts_with(whole, amp) {
                assert(whole.take(5)[0] == '&');
            }
            if starts_with(whole, quot) {
                assert(whole.take(6)[0] == '&');
            }
            if starts_with(whole, lt) {
                assert(whole.take(4)[0] == '&');
            }
        }
    }
}

/// A text without special characters is not changed.
pub proof fn a_plain_text_is_not_escaped(text: Seq<char>, attr: bool)
    requires
        forall|i: int|
            0 <= i < text.len() ==> #[trigger] text[i] != '&' && !breaks_out(text[i], attr),
    ensures
        escape_html_v(text, attr) == text,
    decreases text.len(),
{
    if text.len() > 0 {
        assert forall|i: int| 0 <= i < text.drop_last().len() implies #[trigger] text.drop_last()[i]
            != '&' && !breaks_out(text.drop_last()[i], attr) by {
            assert(text.drop_last()[i] == text[i]);
        }
        a_plain_text_is_not_escaped(text.drop_last(), attr);
        assert(text.last() != '&');
        assert(text =~= text.drop_last() + seq![text.last()]);
    }
}

// ---------------------------------------------------------------------------
// Trimming
// ---------------------------------------------------------------------------

/// All characters of a text are white space.
pub open spec fn white(text: Seq<char>) -> bool {
    forall|i: int| 0 <= i < text.len() ==> is_white(#[trigger] text[i])
}

proof fn start_is_white(text: Seq<char>)
    ensures
        exists|head: Seq<char>|
            #[trigger] white(head) && text == head + trim_start(text),
        trim_start(text).len() > 0 ==> !is_white(trim_start(text)[0]),
    decreases text.len(),
{
    if text.len() > 0 && is_white(text[0]) {
        start_is_white(text.skip(1));
        let head = choose|head: Seq<char>|
            #[trigger] white(head) && text.skip(1) == head + trim_start(text.skip(1));
        let more = seq![text[0]] + head;
        assert(trim_start(text) == trim_start(text.skip(1)));
        assert(text =~= seq![text[0]] + (head + trim_start(text)));
        assert(text =~= more + trim_start(text));
        assert(white(more));
    } else {
        assert(white(Seq::empty()));
        assert(text =~= Seq::empty() + text);
    }
}

proof fn end_is_white(text: Seq<char>)
    ensures
        exists|tail: Seq<char>| #[trigger] white(tail) && text == trim_end(text) + tail,
        trim_end(text).len() > 0 ==> !is_white(trim_end(text).last()),
    decreases text.len(),
{
    if text.len() > 0 && is_white(text.last()) {
        end_is_white(text.drop_last());
        let tail = choose|tail: Seq<char>|
            #[trigger] white(tail) && text.drop_last() == trim_end(text.drop_last()) + tail;
        let more = tail.push(text.last());
        assert(trim_end(text) == trim_end(text.drop_last()));
        assert(text =~= (trim_end(text) + tail).push(text.last()));
        assert(text =~= trim_end(text) + more);
        assert(white(more));
    } else {
        assert(white(Seq::empty()));
        assert(text =~= text + Seq::empty());
    }
}

/// A trimmed text has no white space at its ends, and nothing but white space
/// was taken off.
pub proof fn trimming_takes_white_space(text: Seq<char>)
    ensures
        trim(text).len() > 0 ==> !is_white(trim(text)[0]) && !is_white(trim(text).last()),
        exists|head: Seq<char>, tail: Seq<char>|
            #[trigger] white(head) && #[trigger] white(tail) && text == head + trim(text) + tail,
{
    start_is_white(text);
    let mid = trim_start(text);
    end_is_white(mid);
    let head = choose|head: Seq<char>| #[trigger] white(head) && text == head + mid;
    let tail = choose|tail: Seq<char>| #[trigger] white(tail) && mid == trim(text) + tail;
    assert(text =~= head + trim(text) + tail);
    if trim(text).len() > 0 {
        assert(trim(text)[0] == mid[0]);
    }
}

/// The characters of a text that are no spaces.
pub open spec fn solid(text: Seq<char>) -> Seq<char>
    decreases text.len(),
{
    if text.len() == 0 {
        seq![]
    } else if is_space(text.last()) {
        solid(text.drop_last())
    } else {
        solid(text.drop_last()).push(text.last())
    }
}

/// The solid characters of two texts are those of the one and then those of the
/// other.
pub proof fn solid_adds(a: Seq<char>, b: Seq<char>)
    ensures
        solid(a + b) == solid(a) + solid(b),
    decreases b.len(),
{
    if b.len() == 0 {
        assert(a + b =~= a);
        assert(solid(a) + solid(b) =~= solid(a));
    } else {
        assert((a + b).drop_last() =~= a + b.drop_last());
        solid_adds(a, b.drop_last());
        assert(solid(a + b) =~= solid(a) + solid(b));
    }
}

/// A space has no solid characters.
pub proof fn solid_one(c: char)
    requires
        is_space(c),
    ensures
        solid(seq![c]) == Seq::<char>::empty(),
{
    assert(seq![c].drop_last() =~= Seq::empty());
    assert(solid(seq![c].drop_last()) == Seq::<char>::empty());
}

proof fn returns_are_no_loss(text: Seq<char>)
    ensures
        solid(without_returns(text)) == solid(text),
    decreases text.len(),
{
    if text.len() > 0 {
        returns_are_no_loss(text.drop_last());
        if text.last() != '\r' {
            let done = without_returns(text.drop_last()).push(text.last());
            assert(done.drop_last() =~= without_returns(text.drop_last()));
        }
    }
}

proof fn collapsing_is_no_loss(text: Seq<char>)
    ensures
        solid(collapse_spaces(text)) == solid(text),
    decreases text.len(),
{
    if text.len() > 0 {
        let front = text.drop_last();
        collapsing_is_no_loss(front);
        let before = collapse_spaces(front);
        assert(before.push(' ').drop_last() =~= before);
        assert(before.push(text.last()).drop_last() =~= before);
    }
}

/// A text holds no space but a blank, and no two of them in a row.
pub open spec fn single_spaced(text: Seq<char>) -> bool {
    &&& forall|i: int| 0 <= i < text.len() && is_space(#[trigger] text[i]) ==> text[i] == ' '
    &&& forall|i: int, j: int|
        0 <= i && j == i + 1 && j < text.len() ==> !(#[trigger] text[i] == ' ' && #[trigger] text[j]
            == ' ')
}

proof fn collapsing_spaces_out(text: Seq<char>)
    ensures
        single_spaced(collapse_spaces(text)),
        text.len() > 0 ==> collapse_spaces(text).len() > 0 && (is_space(text.last())
            <==> collapse_spaces(text).last() == ' '),
    decreases text.len(),
{
    if text.len() > 0 {
        collapsing_spaces_out(text.drop_last());
        if text.len() > 1 {
            assert(text.drop_last().last() == text[text.len() - 2]);
        }
    }
}

proof fn skipping_is_no_loss(text: Seq<char>)
    ensures
        solid(skip_spaces(text)) == solid(text),
    decreases text.len(),
{
    if text.len() > 0 && is_space(text[0]) {
        skipping_is_no_loss(text.skip(1));
        solid_adds(seq![text[0]], text.skip(1));
        assert(text =~= seq![text[0]] + text.skip(1));
        solid_one(text[0]);
        assert(solid(seq![text[0]]) + solid(text.skip(1)) =~= solid(text.skip(1)));
    }
}

proof fn blank_is_not_solid(text: Seq<char>)
    requires
        is_blank(text),
    ensures
        solid(text) == Seq::<char>::empty(),
{
    skipping_is_no_loss(text);
}

/// The solid characters of some lines.
spec fn solid_lines(lines: Seq<Seq<char>>) -> Seq<char>
    decreases lines.len(),
{
    if lines.len() == 0 {
        seq![]
    } else {
        solid_lines(lines.drop_last()) + solid(lines.last())
    }
}

proof fn lines_are_no_loss(text: Seq<char>)
    ensures
        lines_of(text).len() > 0,
        solid_lines(lines_of(text)) == solid(text),
    decreases text.len(),
{
    if text.len() == 0 {
        let none = lines_of(text);
        assert(none.drop_last() =~= seq![]);
        assert(solid_lines(none.drop_last()) == Seq::<char>::empty());
        assert(none.last() =~= Seq::<char>::empty());
        assert(solid(none.last()) == Seq::<char>::empty());
        assert(solid_lines(none) =~= Seq::<char>::empty());
    } else {
        lines_are_no_loss(text.drop_last());
        let head = lines_of(text.drop_last());
        let done = lines_of(text);
        if text.last() == '\n' {
            assert(done.drop_last() =~= head);
            assert(solid_lines(done) =~= solid_lines(head));
        } else {
            assert(done.drop_last() =~= head.drop_last());
            let line = head.last().push(text.last());
            assert(line.drop_last() =~= head.last());
            assert(done.last() == line);
            if is_space(text.last()) {
                assert(solid_lines(done) =~= solid_lines(head));
            } else {
                assert(solid_lines(done) =~= solid_lines(head).push(text.last()));
            }
        }
    }
}

proof fn blank_lines_are_not_solid(lines: Seq<Seq<char>>)
    requires
        all_blank(lines),
    ensures
        solid_lines(lines) == Seq::<char>::empty(),
    decreases lines.len(),
{
    if lines.len() > 0 {
        assert forall|i: int| 0 <= i < lines.drop_last().len() implies is_blank(
            #[trigger] lines.drop_last()[i],
        ) by {
            assert(lines.drop_last()[i] == lines[i]);
        }
        blank_lines_are_not_solid(lines.drop_last());
        assert(is_blank(lines[lines.len() - 1]));
        blank_is_not_solid(lines.last());
    }
}

proof fn joined_lines_are_no_loss(lines: Seq<Seq<char>>)
    ensures
        solid(join_lines(lines)) == solid_lines(lines),
    decreases lines.len(),
{
    if lines.len() > 0 {
        let front = lines.drop_last();
        joined_lines_are_no_loss(front);
        let head = join_lines(front);
        let line = if lines.len() == 1 {
            lines.last()
        } else {
            skip_spaces(lines.last())
        };
        skipping_is_no_loss(lines.last());
        assert(solid(line) == solid(lines.last()));
        if is_blank(lines.last()) {
            blank_is_not_solid(lines.last());
            assert(solid_lines(lines) =~= solid_lines(front));
        } else if all_blank(front) {
            blank_lines_are_not_solid(front);
            assert(solid_lines(lines) =~= solid(line));
        } else {
            solid_adds(head + seq![' '], line);
            solid_adds(head, seq![' ']);
            solid_one(' ');
            assert(solid(head + seq![' ']) =~= solid(head));
        }
    }
}

/// Trimming the white space of a text loses none of its other characters, and
/// leaves single blanks between them.
pub proof fn trimming_loses_nothing(text: Seq<char>)
    ensures
        solid(trim_whitespace_v(text)) == solid(text),
        single_spaced(trim_whitespace_v(text)),
{
    returns_are_no_loss(text);
    let plain = without_returns(text);
    let joined = if plain.contains('\n') {
        join_lines(lines_of(plain))
    } else {
        plain
    };
    lines_are_no_loss(plain);
    joined_lines_are_no_loss(lines_of(plain));
    collapsing_is_no_loss(joined);
    collapsing_spaces_out(joined);
}

} // verus!
