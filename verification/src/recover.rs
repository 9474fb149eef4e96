//! Names of components with hyphens, such as `<module.a-b />`.
//!
//! The parser gives up on them and says where they stand.  Their hyphens are
//! replaced, and the source is parsed again.

use crate::marker::{char_index, index_of_byte, text_bytes_grow};
use crate::outside::{parse, parse_report, push_char, same, Report, ReportV};
use crate::text::{chars_of, find_in, find_v, string_of};
use oxc_span::SourceType;
use vstd::prelude::*;

verus! {

/// What the parser says of a hyphen in the name of a component.
pub const JSX_MEMBER_HYPHEN_ERROR: &'static str = "Identifiers in JSX cannot contain hyphens";

/// How often a source is mended before it is taken as it is.
pub const MAX_ROUNDS: usize = 8;

/// The text with its hyphens replaced.
pub open spec fn without_hyphens(text: Seq<char>, sentinel: Seq<char>) -> Seq<char>
    decreases text.len(),
{
    if text.len() == 0 {
        Seq::empty()
    } else {
        without_hyphens(text.drop_last(), sentinel) + (if text.last() == '-' {
            sentinel
        } else {
            seq![text.last()]
        })
    }
}

/// The characters that a label points at: none where the label is empty, ends
/// beyond the source, or cuts a character, and none where they hold no hyphen.
pub open spec fn marked(source: Seq<char>, label: (usize, usize)) -> Option<(nat, nat)> {
    if label.1 == 0 || label.0 + label.1 > usize::MAX {
        None
    } else {
        match (
            char_index(source, label.0 as nat),
            char_index(source, (label.0 + label.1) as nat),
        ) {
            (Some(from), Some(to)) => if source.subrange(from as int, to as int).contains('-') {
                Some((from, to))
            } else {
                None
            },
            _ => None,
        }
    }
}

/// The mark put among marks that are sorted by where they begin, behind those
/// that begin where it does.
pub open spec fn insert_mark(marks: Seq<(nat, nat)>, mark: (nat, nat)) -> Seq<(nat, nat)>
    decreases marks.len(),
{
    if marks.len() == 0 || marks.last().0 <= mark.0 {
        marks.push(mark)
    } else {
        insert_mark(marks.drop_last(), mark).push(marks.last())
    }
}

/// The marks of the first `n` labels, sorted.
pub open spec fn label_marks(
    source: Seq<char>,
    labels: Seq<(usize, usize)>,
    n: nat,
    marks: Seq<(nat, nat)>,
) -> Seq<(nat, nat)>
    decreases n,
{
    if n == 0 {
        marks
    } else {
        let before = label_marks(source, labels, (n - 1) as nat, marks);
        match marked(source, labels[n - 1]) {
            Some(mark) => insert_mark(before, mark),
            None => before,
        }
    }
}

/// The marks of the first `n` complaints, sorted: those that are about hyphens
/// count.
pub open spec fn marks_v(
    source: Seq<char>,
    diagnostics: Seq<(Seq<char>, Seq<(usize, usize)>)>,
    n: nat,
) -> Seq<(nat, nat)>
    decreases n,
{
    if n == 0 {
        Seq::empty()
    } else {
        let before = marks_v(source, diagnostics, (n - 1) as nat);
        let (message, labels) = diagnostics[n - 1];
        if find_v(message, JSX_MEMBER_HYPHEN_ERROR@) is Some {
            label_marks(source, labels, labels.len(), before)
        } else {
            before
        }
    }
}

/// The source from `cursor` on, with the hyphens of the marks from `i` on
/// replaced; a mark that begins before the cursor is passed over.
pub open spec fn mended_from(
    source: Seq<char>,
    marks: Seq<(nat, nat)>,
    i: nat,
    cursor: nat,
    sentinel: Seq<char>,
) -> Seq<char>
    decreases marks.len() - i,
{
    if i >= marks.len() {
        source.skip(cursor as int)
    } else {
        let (from, to) = marks[i as int];
        if from < cursor {
            mended_from(source, marks, i + 1, cursor, sentinel)
        } else {
            source.subrange(cursor as int, from as int) + without_hyphens(
                source.subrange(from as int, to as int),
                sentinel,
            ) + mended_from(source, marks, i + 1, to, sentinel)
        }
    }
}

/// The mended source; nothing where no complaint is about a hyphen.
pub open spec fn mended(source: Seq<char>, report: ReportV, sentinel: Seq<char>) -> Option<
    Seq<char>,
> {
    let marks = marks_v(source, report.diagnostics, report.diagnostics.len());
    if marks.len() == 0 {
        None
    } else {
        Some(mended_from(source, marks, 0, 0, sentinel))
    }
}

/// The source after at most `rounds` rounds: it is mended and parsed again as
/// long as the parser gives up and the mending changes it.
pub open spec fn recovered(
    source: Seq<char>,
    source_type: SourceType,
    sentinel: Seq<char>,
    rounds: nat,
) -> Seq<char>
    decreases rounds,
{
    let report = parse_report(source, source_type);
    if rounds == 0 || !report.panicked {
        source
    } else {
        match mended(source, report, sentinel) {
            None => source,
            Some(next) => if next == source {
                source
            } else {
                recovered(next, source_type, sentinel, (rounds - 1) as nat)
            },
        }
    }
}

/// The marks lie in the source.
spec fn fit(source: Seq<char>, marks: Seq<(nat, nat)>) -> bool {
    forall|i: int|
        0 <= i < marks.len() ==> (#[trigger] marks[i]).0 <= marks[i].1 <= source.len()
}

/// The values of marks.
spec fn mark_values(marks: Seq<(usize, usize)>) -> Seq<(nat, nat)> {
    marks.map_values(|m: (usize, usize)| (m.0 as nat, m.1 as nat))
}

fn has_hyphen(chars: &Vec<char>, from: usize, to: usize) -> (yes: bool)
    requires
        from <= to <= chars.len(),
    ensures
        yes == chars@.subrange(from as int, to as int).contains('-'),
{
    let ghost part = chars@.subrange(from as int, to as int);
    let mut i: usize = from;
    while i < to
        invariant
            from <= i <= to <= chars.len(),
            part == chars@.subrange(from as int, to as int),
            forall|k: int| 0 <= k < i - from ==> #[trigger] part[k] != '-',
        decreases to - i,
    {
        if chars[i] == '-' {
            proof {
                assert(part[i - from] == '-');
            }
            return true;
        }
        i = i + 1;
    }
    false
}

/// The characters that a label points at.
fn mark_of(chars: &Vec<char>, label: (usize, usize)) -> (mark: Option<(usize, usize)>)
    ensures
        match mark {
            Some((from, to)) => from <= to <= chars.len() && marked(chars@, label) == Some(
                (from as nat, to as nat),
            ),
            None => marked(chars@, label) is None,
        },
{
    let (offset, len) = label;
    if len == 0 || len > usize::MAX - offset {
        return None;
    }
    match index_of_byte(chars, offset) {
        None => None,
        Some(from) => match index_of_byte(chars, offset + len) {
            None => None,
            Some(to) => {
                proof {
                    if to < from {
                        text_bytes_grow(chars@, to as int, from as int);
                    }
                }
                if has_hyphen(chars, from, to) {
                    Some((from, to))
                } else {
                    None
                }
            },
        },
    }
}

proof fn inserted_at(marks: Seq<(nat, nat)>, mark: (nat, nat), at: int)
    requires
        0 <= at <= marks.len(),
        at > 0 ==> marks[at - 1].0 <= mark.0,
        forall|k: int| at <= k < marks.len() ==> (#[trigger] marks[k]).0 > mark.0,
    ensures
        insert_mark(marks, mark) == marks.insert(at, mark),
    decreases marks.len(),
{
    if at == marks.len() {
        assert(marks.insert(at, mark) =~= marks.push(mark));
    } else {
        assert(marks.last().0 > mark.0);
        inserted_at(marks.drop_last(), mark, at);
        assert(marks.insert(at, mark) =~= marks.drop_last().insert(at, mark).push(marks.last()));
    }
}

/// Puts a mark among sorted marks.
fn put_mark(marks: &mut Vec<(usize, usize)>, mark: (usize, usize))
    ensures
        mark_values(final(marks)@) == insert_mark(
            mark_values(old(marks)@),
            (mark.0 as nat, mark.1 as nat),
        ),
{
    let mut at: usize = marks.len();
    while at > 0 && marks[at - 1].0 > mark.0
        invariant
            at <= marks.len(),
            marks@ == old(marks)@,
            forall|k: int| at <= k < marks@.len() ==> (#[trigger] marks@[k]).0 > mark.0,
        decreases at,
    {
        at = at - 1;
    }
    let ghost before = mark_values(marks@);
    let ghost value = (mark.0 as nat, mark.1 as nat);
    proof {
        assert forall|k: int| at <= k < before.len() implies (#[trigger] before[k]).0 > value.0 by {
            assert(marks@[k].0 > mark.0);
        }
        inserted_at(before, value, at as int);
    }
    marks.insert(at, mark);
    proof {
        assert(mark_values(marks@) =~= before.insert(at as int, value));
    }
}

proof fn insert_mark_fits(source: Seq<char>, marks: Seq<(nat, nat)>, mark: (nat, nat))
    requires
        fit(source, marks),
        mark.0 <= mark.1 <= source.len(),
    ensures
        fit(source, insert_mark(marks, mark)),
        insert_mark(marks, mark).len() == marks.len() + 1,
    decreases marks.len(),
{
    if marks.len() > 0 && marks.last().0 > mark.0 {
        insert_mark_fits(source, marks.drop_last(), mark);
    }
}

/// Adds the marks of the labels of one complaint.
fn collect_labels(chars: &Vec<char>, labels: &Vec<(usize, usize)>, marks: &mut Vec<(usize, usize)>)
    requires
        fit(chars@, mark_values(old(marks)@)),
    ensures
        fit(chars@, mark_values(final(marks)@)),
        mark_values(final(marks)@) == label_marks(
            chars@,
            labels@,
            labels@.len(),
            mark_values(old(marks)@),
        ),
{
    let mut i: usize = 0;
    while i < labels.len()
        invariant
            i <= labels.len(),
            fit(chars@, mark_values(marks@)),
            mark_values(marks@) == label_marks(
                chars@,
                labels@,
                i as nat,
                mark_values(old(marks)@),
            ),
        decreases labels.len() - i,
    {
        if let Some(mark) = mark_of(chars, labels[i]) {
            proof {
                insert_mark_fits(
                    chars@,
                    mark_values(marks@),
                    (mark.0 as nat, mark.1 as nat),
                );
            }
            put_mark(marks, mark);
        }
        i = i + 1;
    }
}

/// Whether a complaint is about a hyphen.
fn is_about_hyphens(message: &str) -> (yes: bool)
    ensures
        yes == (find_v(message@, JSX_MEMBER_HYPHEN_ERROR@) is Some),
{
    let chars = chars_of(message);
    let part = chars_of(JSX_MEMBER_HYPHEN_ERROR);
    proof {
        assert(chars@.subrange(0, chars@.len() as int) =~= chars@);
    }
    find_in(&chars, 0, chars.len(), &part).is_some()
}

/// The marks of all complaints, sorted.
fn collect_marks(chars: &Vec<char>, report: &Report) -> (marks: Vec<(usize, usize)>)
    ensures
        fit(chars@, mark_values(marks@)),
        mark_values(marks@) == marks_v(
            chars@,
            report@.diagnostics,
            report@.diagnostics.len(),
        ),
{
    let mut marks: Vec<(usize, usize)> = Vec::new();
    proof {
        assert(mark_values(marks@) =~= Seq::<(nat, nat)>::empty());
    }
    let mut i: usize = 0;
    while i < report.diagnostics.len()
        invariant
            i <= report.diagnostics@.len(),
            fit(chars@, mark_values(marks@)),
            mark_values(marks@) == marks_v(chars@, report@.diagnostics, i as nat),
        decreases report.diagnostics@.len() - i,
    {
        let diagnostic = &report.diagnostics[i];
        if is_about_hyphens(diagnostic.message.as_str()) {
            collect_labels(chars, &diagnostic.labels, &mut marks);
        }
        i = i + 1;
    }
    marks
}

/// Adds a stretch of characters.
fn push_stretch(text: &mut String, chars: &Vec<char>, from: usize, to: usize)
    requires
        from <= to <= chars.len(),
    ensures
        final(text)@ == old(text)@ + chars@.subrange(from as int, to as int),
{
    let mut i: usize = from;
    proof {
        assert(text@ =~= text@ + chars@.subrange(from as int, from as int));
    }
    while i < to
        invariant
            from <= i <= to <= chars.len(),
            text@ == old(text)@ + chars@.subrange(from as int, i as int),
        decreases to - i,
    {
        push_char(text, chars[i]);
        i = i + 1;
        proof {
            assert(text@ =~= old(text)@ + chars@.subrange(from as int, i as int));
        }
    }
}

/// Adds a stretch of characters with its hyphens replaced.
fn push_without_hyphens(
    text: &mut String,
    chars: &Vec<char>,
    from: usize,
    to: usize,
    sentinel: &str,
)
    requires
        from <= to <= chars.len(),
    ensures
        final(text)@ == old(text)@ + without_hyphens(
            chars@.subrange(from as int, to as int),
            sentinel@,
        ),
{
    let mut i: usize = from;
    proof {
        assert(without_hyphens(chars@.subrange(from as int, from as int), sentinel@) =~= Seq::<
            char,
        >::empty());
        assert(text@ =~= text@ + Seq::<char>::empty());
    }
    while i < to
        invariant
            from <= i <= to <= chars.len(),
            text@ == old(text)@ + without_hyphens(
                chars@.subrange(from as int, i as int),
                sentinel@,
            ),
        decreases to - i,
    {
        proof {
            let longer = chars@.subrange(from as int, i + 1);
            assert(longer.drop_last() =~= chars@.subrange(from as int, i as int));
            assert(longer.last() == chars@[i as int]);
        }
        if chars[i] == '-' {
            text.append(sentinel);
        } else {
            push_char(text, chars[i]);
        }
        i = i + 1;
        proof {
            assert(text@ =~= old(text)@ + without_hyphens(
                chars@.subrange(from as int, i as int),
                sentinel@,
            ));
        }
    }
}

/// The source with the hyphens replaced that a report complains of; nothing
/// where it complains of none.
pub fn rewrite_hyphens(source: &str, report: &Report, sentinel: &str) -> (mend: Option<String>)
    ensures
        match mend {
            Some(text) => mended(source@, report@, sentinel@) == Some(text@),
            None => mended(source@, report@, sentinel@) is None,
        },
{
    let chars = chars_of(source);
    let marks = collect_marks(&chars, report);
    let ghost values = mark_values(marks@);
    if marks.len() == 0 {
        return None;
    }
    let mut text = String::new();
    let mut cursor: usize = 0;
    let mut i: usize = 0;
    let ghost whole = mended_from(chars@, values, 0, 0, sentinel@);
    proof {
        assert(text@ + whole =~= whole);
    }
    while i < marks.len()
        invariant
            i <= marks@.len(),
            values == mark_values(marks@),
            fit(chars@, values),
            cursor <= chars@.len(),
            whole == text@ + mended_from(chars@, values, i as nat, cursor as nat, sentinel@),
        decreases marks@.len() - i,
    {
        let (from, to) = marks[i];
        proof {
            assert(values[i as int] == (from as nat, to as nat));
        }
        if from >= cursor {
            let ghost before = text@;
            push_stretch(&mut text, &chars, cursor, from);
            push_without_hyphens(&mut text, &chars, from, to, sentinel);
            proof {
                assert(whole =~= text@ + mended_from(
                    chars@,
                    values,
                    (i + 1) as nat,
                    to as nat,
                    sentinel@,
                ));
            }
            cursor = to;
        }
        i = i + 1;
    }
    proof {
        assert(chars@.skip(cursor as int) =~= chars@.subrange(cursor as int, chars@.len() as int));
    }
    push_stretch(&mut text, &chars, cursor, chars.len());
    Some(text)
}

/// Parses a source, and mends it as long as the parser gives up on hyphens, at
/// most `MAX_ROUNDS` times.  `sentinel` takes the place of a hyphen.
pub fn recover_source(source: &str, source_type: SourceType, sentinel: &str) -> (text: String)
    ensures
        text@ == recovered(source@, source_type, sentinel@, MAX_ROUNDS as nat),
{
    let mut text = string_of(&chars_of(source), 0, source.unicode_len());
    proof {
        assert(source@.subrange(0, source@.len() as int) =~= source@);
    }
    let mut rounds: usize = MAX_ROUNDS;
    while rounds > 0
        invariant
            recovered(source@, source_type, sentinel@, MAX_ROUNDS as nat) == recovered(
                text@,
                source_type,
                sentinel@,
                rounds as nat,
            ),
        decreases rounds,
    {
        let report = parse(text.as_str(), source_type);
        if !report.panicked {
            return text;
        }
        match rewrite_hyphens(text.as_str(), &report, sentinel) {
            None => {
                return text;
            },
            Some(next) => {
                if same(next.as_str(), text.as_str()) {
                    return text;
                }
                text = next;
            },
        }
        rounds = rounds - 1;
    }
    text
}

// ---------------------------------------------------------------------------
// Laws
// ---------------------------------------------------------------------------

/// A source that the parser does not give up on is left alone.
pub proof fn accepted_source_stays(
    source: Seq<char>,
    source_type: SourceType,
    sentinel: Seq<char>,
    rounds: nat,
)
    requires
        !parse_report(source, source_type).panicked,
    ensures
        recovered(source, source_type, sentinel, rounds) == source,
{
}

/// Where what replaces a hyphen has none, none is left.
pub proof fn hyphens_are_gone(text: Seq<char>, sentinel: Seq<char>)
    requires
        !sentinel.contains('-'),
    ensures
        !without_hyphens(text, sentinel).contains('-'),
    decreases text.len(),
{
    if text.len() > 0 {
        hyphens_are_gone(text.drop_last(), sentinel);
        let before = without_hyphens(text.drop_last(), sentinel);
        let whole = without_hyphens(text, sentinel);
        assert forall|i: int| 0 <= i < whole.len() implies whole[i] != '-' by {
            if i < before.len() {
                assert(before.contains(before[i]));
                assert(whole[i] == before[i]);
            } else if text.last() == '-' {
                assert(sentinel.contains(sentinel[i - before.len()]));
            }
        }
    }
}

/// A text without hyphens is left alone.
pub proof fn plain_text_stays(text: Seq<char>, sentinel: Seq<char>)
    requires
        !text.contains('-'),
    ensures
        without_hyphens(text, sentinel) == text,
    decreases text.len(),
{
    if text.len() > 0 {
        assert(text.contains(text.last()));
        assert forall|c: char| text.drop_last().contains(c) implies text.contains(c) by {
            let i = choose|i: int| 0 <= i < text.drop_last().len() && text.drop_last()[i] == c;
            assert(text[i] == c);
        }
        plain_text_stays(text.drop_last(), sentinel);
        assert(text.drop_last().push(text.last()) =~= text);
        assert(without_hyphens(text, sentinel) =~= text);
    } else {
        assert(without_hyphens(text, sentinel) =~= text);
    }
}

} // verus!
