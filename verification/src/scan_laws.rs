//! What is found out about the children of an element, and about the source.

use crate::ast::{JsxAttr, JsxChild, JsxElement};
use crate::marker::{begins_with_marker, is_ascii_white, skip_openers};
use crate::options::TransformOptions;
use crate::recover::{insert_mark, marked, mended_from, without_hyphens};
use crate::scan::{
    answers, attr_needs_access, has_named, inserted_before, is_blank_child, is_custom, is_inserted,
    is_single_child, last_of, needs_access, singles, text_before, text_behind, Asked,
};
use crate::text::{find_v, starts_with, trim};
use crate::vocabulary::Vocabulary;
use vstd::prelude::*;

verus! {

// ---------------------------------------------------------------------------
// Children
// ---------------------------------------------------------------------------

/// The last child that answers is one, and none behind it does.
pub proof fn the_last_is_the_last(children: Seq<JsxChild>, n: nat, asked: Asked)
    requires
        n <= children.len(),
    ensures
        last_of(children, n, asked) matches Some(at) ==> at < n && answers(
            children[at as int],
            asked,
        ) && forall|i: int| at < i < n ==> !answers(#[trigger] children[i], asked),
        last_of(children, n, asked) is None ==> forall|i: int|
            0 <= i < n ==> !answers(#[trigger] children[i], asked),
    decreases n,
{
    if n > 0 && !answers(children[n - 1], asked) {
        the_last_is_the_last(children, (n - 1) as nat, asked);
    }
}

/// A text stands before a place where some child before it is a text, and nothing
/// that stands in the template comes between.
pub proof fn a_text_before_is_the_nearest(children: Seq<JsxChild>, at: nat)
    requires
        at <= children.len(),
    ensures
        text_before(children, at) <==> exists|i: int|
            0 <= i < at && answers(#[trigger] children[i], Asked::Text) && forall|j: int|
                i < j < at ==> !answers(#[trigger] children[j], Asked::Anchor) && !answers(
                    children[j],
                    Asked::Text,
                ),
    decreases at,
{
    if at > 0 {
        let last = children[at - 1];
        if answers(last, Asked::Text) {
            assert(answers(children[at - 1], Asked::Text));
        } else if answers(last, Asked::Anchor) {
            assert forall|i: int| 0 <= i < at && answers(#[trigger] children[i], Asked::Text) implies !(
            forall|j: int|
                i < j < at ==> !answers(#[trigger] children[j], Asked::Anchor) && !answers(
                    children[j],
                    Asked::Text,
                )) by {
                assert(answers(children[at - 1], Asked::Anchor));
            }
        } else {
            a_text_before_is_the_nearest(children, (at - 1) as nat);
            if text_before(children, at) {
                let i = choose|i: int|
                    0 <= i < at - 1 && answers(#[trigger] children[i], Asked::Text) && forall|
                        j: int,
                    |
                        i < j < at - 1 ==> !answers(#[trigger] children[j], Asked::Anchor)
                            && !answers(children[j], Asked::Text);
                assert(answers(children[i], Asked::Text));
            } else {
                assert forall|i: int|
                    0 <= i < at && answers(#[trigger] children[i], Asked::Text) implies !(forall|
                    j: int,
                |
                    i < j < at ==> !answers(#[trigger] children[j], Asked::Anchor) && !answers(
                        children[j],
                        Asked::Text,
                    )) by {
                    assert(i < at - 1);
                    assert(exists|j: int|
                        i < j < at - 1 && (answers(#[trigger] children[j], Asked::Anchor)
                            || answers(children[j], Asked::Text)));
                }
            }
        }
    }
}

/// A text stands behind a place where some child behind it is a text, and nothing
/// that stands in the template comes between.
pub proof fn a_text_behind_is_the_nearest(children: Seq<JsxChild>, at: int)
    requires
        0 <= at < children.len(),
    ensures
        text_behind(children, at) ==> exists|i: int|
            at < i < children.len() && answers(#[trigger] children[i], Asked::Text) && forall|
                j: int,
            |
                at < j < i ==> !answers(#[trigger] children[j], Asked::Anchor),
        !text_behind(children, at) ==> forall|i: int|
            at < i < children.len() && answers(#[trigger] children[i], Asked::Text) ==> exists|
                j: int,
            |
                at < j < i && answers(#[trigger] children[j], Asked::Anchor),
    decreases children.len() - at,
{
    if at + 1 < children.len() {
        let next = children[at + 1];
        if answers(next, Asked::Text) {
            assert(answers(children[at + 1], Asked::Text));
        } else if answers(next, Asked::Anchor) {
            assert forall|i: int|
                at < i < children.len() && answers(
                    #[trigger] children[i],
                    Asked::Text,
                ) implies exists|j: int|
                at < j < i && answers(#[trigger] children[j], Asked::Anchor) by {
                assert(answers(children[at + 1], Asked::Anchor));
            }
        } else {
            a_text_behind_is_the_nearest(children, at + 1);
            if text_behind(children, at) {
                let i = choose|i: int|
                    at + 1 < i < children.len() && answers(#[trigger] children[i], Asked::Text)
                        && forall|j: int|
                        at + 1 < j < i ==> !answers(#[trigger] children[j], Asked::Anchor);
                assert(answers(children[i], Asked::Text));
            } else {
                assert forall|i: int|
                    at < i < children.len() && answers(
                        #[trigger] children[i],
                        Asked::Text,
                    ) implies exists|j: int|
                    at < j < i && answers(#[trigger] children[j], Asked::Anchor) by {
                    assert(i > at + 1);
                    let j = choose|j: int|
                        at + 1 < j < i && answers(#[trigger] children[j], Asked::Anchor);
                    assert(answers(children[j], Asked::Anchor));
                }
            }
        }
    }
}

/// Something is inserted before a place where the nearest child that is not blank
/// is inserted.
pub proof fn what_is_inserted_before_is_the_nearest(children: Seq<JsxChild>, at: nat)
    requires
        at <= children.len(),
    ensures
        inserted_before(children, at) <==> exists|i: int|
            0 <= i < at && is_inserted(#[trigger] children[i]) && !is_blank_child(children[i])
                && forall|j: int| i < j < at ==> is_blank_child(#[trigger] children[j]),
    decreases at,
{
    if at > 0 {
        let last = children[at - 1];
        if is_blank_child(last) {
            what_is_inserted_before_is_the_nearest(children, (at - 1) as nat);
            if inserted_before(children, at) {
                let i = choose|i: int|
                    0 <= i < at - 1 && is_inserted(#[trigger] children[i]) && !is_blank_child(
                        children[i],
                    ) && forall|j: int|
                        i < j < at - 1 ==> is_blank_child(#[trigger] children[j]);
                assert(is_inserted(children[i]));
            } else {
                assert forall|i: int|
                    0 <= i < at && is_inserted(#[trigger] children[i]) && !is_blank_child(
                        children[i],
                    ) implies !(forall|j: int|
                    i < j < at ==> is_blank_child(#[trigger] children[j])) by {
                    assert(i < at - 1);
                    assert(exists|j: int|
                        i < j < at - 1 && !is_blank_child(#[trigger] children[j]));
                }
            }
        } else {
            if is_inserted(last) {
                assert(is_inserted(children[at - 1]));
            } else {
                assert forall|i: int|
                    0 <= i < at && is_inserted(#[trigger] children[i]) && !is_blank_child(
                        children[i],
                    ) implies !(forall|j: int|
                    i < j < at ==> is_blank_child(#[trigger] children[j])) by {
                    assert(!is_blank_child(children[at - 1]));
                }
            }
        }
    }
}

/// One child more counts where it stands alone, and no other does.
pub proof fn a_single_child_counts(children: Seq<JsxChild>, n: nat)
    requires
        n < children.len(),
    ensures
        is_single_child(children[n as int]) ==> singles(children, n + 1) == singles(children, n)
            + 1,
        !is_single_child(children[n as int]) ==> singles(children, n + 1) == singles(children, n),
        singles(children, 0) == 0,
        singles(children, n) <= n,
    decreases n,
{
    if n > 0 {
        a_single_child_counts(children, (n - 1) as nat);
    }
}

/// A custom element has a hyphen in its tag, or says what it is.
pub proof fn a_custom_element_says_so(element: JsxElement)
    ensures
        element.tag@.contains('-') ==> is_custom(element),
        (exists|i: int|
            0 <= i < element.attrs@.len() && (#[trigger] element.attrs@[i]) is Named
                && element.attrs@[i]->Named_0.key@ == "is"@) ==> is_custom(element),
        is_custom(element) && !element.tag@.contains('-') ==> exists|i: int|
            0 <= i < element.attrs@.len() && (#[trigger] element.attrs@[i]) is Named
                && element.attrs@[i]->Named_0.key@ == "is"@,
{
    if exists|i: int|
        0 <= i < element.attrs@.len() && (#[trigger] element.attrs@[i]) is Named
            && element.attrs@[i]->Named_0.key@ == "is"@ {
        let i = choose|i: int|
            0 <= i < element.attrs@.len() && (#[trigger] element.attrs@[i]) is Named
                && element.attrs@[i]->Named_0.key@ == "is"@;
        assert(crate::scan::is_named(element.attrs@[i], "is"@));
    }
    if has_named(element.attrs@, "is"@) {
        let i = choose|i: int|
            0 <= i < element.attrs@.len() && crate::scan::is_named(
                #[trigger] element.attrs@[i],
                "is"@,
            );
        assert(element.attrs@[i] is Named);
    }
}

/// An element is accessed where an attribute or a child of it asks for that: a
/// spread, a ref, an event, a value that is computed, a component.
pub proof fn an_element_is_accessed(
    element: JsxElement,
    options: TransformOptions,
    vocabulary: Vocabulary,
    i: int,
)
    requires
        0 <= i < element.attrs@.len(),
    ensures
        element.attrs@[i] is Spread ==> needs_access(element, options, vocabulary),
        element.attrs@[i] matches JsxAttr::Named(attr) ==> (attr.key@ == "ref"@ || attr.value
            is Container || attr.key@.contains(':') ==> needs_access(
            element,
            options,
            vocabulary,
        )),
{
    assert(attr_needs_access(element.attrs@[i], vocabulary) ==> needs_access(
        element,
        options,
        vocabulary,
    ));
}

// ---------------------------------------------------------------------------
// Markers
// ---------------------------------------------------------------------------

/// All characters of a text open something, or are white space.
pub open spec fn opens(text: Seq<char>) -> bool {
    forall|i: int|
        0 <= i < text.len() ==> is_ascii_white(#[trigger] text[i]) || text[i] == '{' || text[i]
            == '('
}

proof fn openers_are_skipped(open: Seq<char>, rest: Seq<char>)
    requires
        opens(open),
        rest.len() > 0,
        rest[0] == '/',
    ensures
        skip_openers(open + rest) == rest,
    decreases open.len(),
{
    let all = open + rest;
    if open.len() == 0 {
        assert(all =~= rest);
    } else {
        assert(all[0] == open[0]);
        assert(is_ascii_white(open[0]) || open[0] == '{' || open[0] == '(');
        assert(all.skip(1) =~= open.skip(1) + rest);
        assert forall|i: int| 0 <= i < open.skip(1).len() implies is_ascii_white(
            #[trigger] open.skip(1)[i],
        ) || open.skip(1)[i] == '{' || open.skip(1)[i] == '(' by {
            assert(open.skip(1)[i] == open[i + 1]);
        }
        openers_are_skipped(open.skip(1), rest);
    }
}

/// An expression is marked by the comment that it begins with, behind brackets
/// and white space, where the comment is the marker but for white space.
pub proof fn a_leading_comment_marks(
    open: Seq<char>,
    comment: Seq<char>,
    rest: Seq<char>,
    marker: Seq<char>,
)
    requires
        opens(open),
        find_v(comment + seq!['*', '/'] + rest, seq!['*', '/']) == Some(comment.len()),
    ensures
        begins_with_marker(open + (seq!['/', '*'] + (comment + seq!['*', '/'] + rest)), marker)
            <==> trim(comment) == marker,
{
    let inner = comment + seq!['*', '/'] + rest;
    let tail = seq!['/', '*'] + inner;
    openers_are_skipped(open, tail);
    assert(tail.take(2) =~= seq!['/', '*']);
    assert(tail.skip(2) =~= inner);
    assert(inner.take(comment.len() as int) =~= comment);
}

/// A text that begins with no comment is not marked.
pub proof fn without_a_comment_nothing_is_marked(
    open: Seq<char>,
    rest: Seq<char>,
    marker: Seq<char>,
)
    requires
        !starts_with(skip_openers(open + rest), seq!['/', '*']),
    ensures
        !begins_with_marker(open + rest, marker),
{
}

// ---------------------------------------------------------------------------
// Hyphens
// ---------------------------------------------------------------------------

proof fn hyphens_for_hyphens(text: Seq<char>)
    ensures
        without_hyphens(text, seq!['-']) == text,
    decreases text.len(),
{
    if text.len() > 0 {
        hyphens_for_hyphens(text.drop_last());
        assert(without_hyphens(text, seq!['-']) =~= text);
    } else {
        assert(without_hyphens(text, seq!['-']) =~= text);
    }
}

/// Mending changes the hyphens of the marked stretches and nothing else: with
/// hyphens in their place the source is what it was.
pub proof fn mending_changes_hyphens_only(
    source: Seq<char>,
    marks: Seq<(nat, nat)>,
    i: nat,
    cursor: nat,
)
    requires
        cursor <= source.len(),
        forall|k: int|
            0 <= k < marks.len() ==> (#[trigger] marks[k]).0 <= marks[k].1 <= source.len(),
    ensures
        mended_from(source, marks, i, cursor, seq!['-']) == source.skip(cursor as int),
    decreases marks.len() - i,
{
    if i < marks.len() {
        let (from, to) = marks[i as int];
        if from < cursor {
            mending_changes_hyphens_only(source, marks, i + 1, cursor);
        } else {
            mending_changes_hyphens_only(source, marks, i + 1, to);
            hyphens_for_hyphens(source.subrange(from as int, to as int));
            assert(source.subrange(cursor as int, from as int) + source.subrange(
                from as int,
                to as int,
            ) + source.skip(to as int) =~= source.skip(cursor as int));
        }
    }
}

/// A mark is a stretch of the source that holds a hyphen.
pub proof fn a_mark_holds_a_hyphen(source: Seq<char>, label: (usize, usize))
    ensures
        marked(source, label) matches Some((from, to)) ==> source.subrange(
            from as int,
            to as int,
        ).contains('-') && label.1 > 0,
        label.1 == 0 ==> marked(source, label) is None,
{
}

/// Marks are kept in the order of their places, and none is lost.
pub proof fn marks_are_kept_in_order(marks: Seq<(nat, nat)>, mark: (nat, nat))
    requires
        forall|i: int, j: int|
            0 <= i <= j < marks.len() ==> (#[trigger] marks[i]).0 <= (#[trigger] marks[j]).0,
    ensures
        ({
            let all = insert_mark(marks, mark);
            &&& all.len() == marks.len() + 1
            &&& forall|i: int, j: int|
                0 <= i <= j < all.len() ==> (#[trigger] all[i]).0 <= (#[trigger] all[j]).0
            &&& all.contains(mark)
            &&& forall|k: int| 0 <= k < marks.len() ==> all.contains(#[trigger] marks[k])
            &&& forall|k: int|
                0 <= k < all.len() ==> (#[trigger] all[k]) == mark || marks.contains(all[k])
        }),
    decreases marks.len(),
{
    let all = insert_mark(marks, mark);
    if marks.len() == 0 || marks.last().0 <= mark.0 {
        assert(all[marks.len() as int] == mark);
        assert forall|k: int| 0 <= k < marks.len() implies all.contains(#[trigger] marks[k]) by {
            assert(all[k] == marks[k]);
        }
        assert forall|k: int| 0 <= k < all.len() implies (#[trigger] all[k]) == mark
            || marks.contains(all[k]) by {
            if k < marks.len() {
                assert(marks[k] == all[k]);
            }
        }
    } else {
        let front = marks.drop_last();
        assert forall|i: int, j: int| 0 <= i <= j < front.len() implies (#[trigger] front[i]).0 <= (
        #[trigger] front[j]).0 by {
            assert(front[i] == marks[i] && front[j] == marks[j]);
        }
        marks_are_kept_in_order(front, mark);
        let head = insert_mark(front, mark);
        assert forall|i: int, j: int| 0 <= i <= j < all.len() implies (#[trigger] all[i]).0 <= (
        #[trigger] all[j]).0 by {
            if i < head.len() {
                assert(all[i] == head[i]);
                if j < head.len() {
                    assert(all[j] == head[j]);
                } else if head[i] != mark {
                    let k = choose|k: int| 0 <= k < front.len() && front[k] == head[i];
                    assert(marks[k] == head[i]);
                    assert(marks[k].0 <= marks[marks.len() - 1].0);
                }
            }
        }
        let at = choose|k: int| 0 <= k < head.len() && head[k] == mark;
        assert(all[at] == mark);
        assert forall|k: int| 0 <= k < marks.len() implies all.contains(#[trigger] marks[k]) by {
            if k < front.len() {
                assert(front[k] == marks[k]);
                let h = choose|h: int| 0 <= h < head.len() && head[h] == marks[k];
                assert(all[h] == marks[k]);
            } else {
                assert(all[all.len() - 1] == marks[k]);
            }
        }
        assert forall|k: int| 0 <= k < all.len() implies (#[trigger] all[k]) == mark
            || marks.contains(all[k]) by {
            if k < head.len() {
                assert(all[k] == head[k]);
                if head[k] != mark {
                    let h = choose|h: int| 0 <= h < front.len() && front[h] == head[k];
                    assert(marks[h] == all[k]);
                }
            } else {
                assert(marks[marks.len() - 1] == all[k]);
            }
        }
    }
}

} // verus!
