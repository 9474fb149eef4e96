//! The order of texts by their UTF-16 units is a total order.

use crate::statics::{units_less, units_less_asymmetric, utf16, utf16_char};
use vstd::prelude::*;

verus! {

/// Of two sequences that differ one comes before the other.
pub proof fn units_less_total(left: Seq<u16>, right: Seq<u16>)
    ensures
        left == right || units_less(left, right) || units_less(right, left),
    decreases left.len(),
{
    if left.len() == 0 || right.len() == 0 {
        if left.len() == 0 && right.len() == 0 {
            assert(left =~= right);
        }
    } else if left[0] == right[0] {
        units_less_total(left.skip(1), right.skip(1));
        if left.skip(1) == right.skip(1) {
            assert(left =~= seq![left[0]] + left.skip(1));
            assert(right =~= seq![right[0]] + right.skip(1));
        }
    }
}

/// What comes before a second, which comes before a third, comes before the
/// third.
pub proof fn units_less_transitive(a: Seq<u16>, b: Seq<u16>, c: Seq<u16>)
    requires
        units_less(a, b),
        units_less(b, c),
    ensures
        units_less(a, c),
    decreases a.len(),
{
    if a.len() > 0 && a[0] == b[0] && b[0] == c[0] {
        units_less_transitive(a.skip(1), b.skip(1), c.skip(1));
    }
}

proof fn utf16_first(text: Seq<char>)
    requires
        text.len() > 0,
    ensures
        utf16(text) == utf16_char(text[0]) + utf16(text.skip(1)),
    decreases text.len(),
{
    if text.len() == 1 {
        assert(text.drop_last() =~= seq![]);
        assert(text.skip(1) =~= seq![]);
        assert(utf16(text.drop_last()) =~= seq![]);
        assert(utf16(text.skip(1)) =~= seq![]);
        assert(utf16(text) =~= utf16_char(text[0]) + utf16(text.skip(1)));
    } else {
        utf16_first(text.drop_last());
        assert(text.drop_last().skip(1) =~= text.skip(1).drop_last());
        assert(utf16(text) =~= utf16_char(text[0]) + utf16(text.skip(1)));
    }
}

/// A character outside the basic plane, from its two units.
proof fn pair_is_char(c: char)
    requires
        c > '\u{ffff}',
    ensures
        utf16_char(c).len() == 2,
        0xd800 <= utf16_char(c)[0] <= 0xdbff,
        c as int == 0x1_0000 + (utf16_char(c)[0] - 0xd800) * 0x400 + (utf16_char(c)[1] - 0xdc00),
{
    let rest = c as int - 0x1_0000;
    assert(0 <= rest < 0x10_0000);
    assert(rest == (rest / 0x400) * 0x400 + rest % 0x400) by (nonlinear_arith)
        requires
            0 <= rest,
    ;
    assert(0 <= rest / 0x400 < 0x400);
    assert(0 <= rest % 0x400 < 0x400);
}

proof fn same_first_char(a: char, b: char, behind: Seq<u16>, other: Seq<u16>)
    requires
        utf16_char(a) + behind == utf16_char(b) + other,
    ensures
        a == b,
{
    let left = utf16_char(a) + behind;
    let right = utf16_char(b) + other;
    assert(left[0] == utf16_char(a)[0]);
    assert(right[0] == utf16_char(b)[0]);
    if a > '\u{ffff}' {
        pair_is_char(a);
        if b > '\u{ffff}' {
            pair_is_char(b);
            assert(left[1] == utf16_char(a)[1]);
            assert(right[1] == utf16_char(b)[1]);
        }
    } else if b > '\u{ffff}' {
        pair_is_char(b);
    }
}

/// Different texts have different units.
pub proof fn utf16_injective(left: Seq<char>, right: Seq<char>)
    requires
        utf16(left) == utf16(right),
    ensures
        left == right,
    decreases left.len(),
{
    if left.len() > 0 {
        utf16_first(left);
    }
    if right.len() > 0 {
        utf16_first(right);
    }
    if left.len() == 0 || right.len() == 0 {
        assert(left =~= right);
    } else {
        same_first_char(left[0], right[0], utf16(left.skip(1)), utf16(right.skip(1)));
        let head = utf16_char(left[0]);
        assert((head + utf16(left.skip(1))).skip(head.len() as int) =~= utf16(left.skip(1)));
        assert((head + utf16(right.skip(1))).skip(head.len() as int) =~= utf16(right.skip(1)));
        utf16_injective(left.skip(1), right.skip(1));
        assert(left =~= seq![left[0]] + left.skip(1));
        assert(right =~= seq![right[0]] + right.skip(1));
    }
}

/// The text comes before another, by the units of both.
pub open spec fn text_less(left: Seq<char>, right: Seq<char>) -> bool {
    units_less(utf16(left), utf16(right))
}

/// Of two texts exactly one of three holds: the one comes before the other, the
/// other before the one, or they are the same.
pub proof fn texts_are_ordered(left: Seq<char>, right: Seq<char>)
    ensures
        left == right || text_less(left, right) || text_less(right, left),
        !(text_less(left, right) && text_less(right, left)),
        left == right ==> !text_less(left, right),
{
    units_less_total(utf16(left), utf16(right));
    if utf16(left) == utf16(right) {
        utf16_injective(left, right);
    }
    if text_less(left, right) {
        units_less_asymmetric(utf16(left), utf16(right));
    }
}

/// A text that comes before a second, which comes before a third, comes before
/// the third.
pub proof fn text_order_is_transitive(a: Seq<char>, b: Seq<char>, c: Seq<char>)
    requires
        text_less(a, b),
        text_less(b, c),
    ensures
        text_less(a, c),
{
    units_less_transitive(utf16(a), utf16(b), utf16(c));
}

} // verus!
