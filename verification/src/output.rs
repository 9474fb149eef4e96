//! The expression that a result of the DOM renderer is put out as.

use crate::ast::{
    declarator_values, expr_values, group_values, kind_value, no_span, nowhere, pattern_values,
    prop_values, stmt_value, stmt_values, BinaryOp, Declarator, DeclaratorV, Expr, ExprV, Key, KeyV,
    Kind, KindV, LogicalOp, Pattern, PatternV, Prop, PropKind, PropV, Span, Stmt, StmtV, VarKind,
};
use crate::ir::{
    binding_values, declaration_values, helper_ident_expr, helper_v, opt, result_value,
    result_values, template_name, template_var_name, BindingV, BlockContext, ContextV, Declaration,
    DeclarationV, DynamicBinding, OutputKind, ResultV, TemplateV, TransformResult,
};
use crate::make::{
    array, array_v, arrow, arrow_v, binary, binary_v, bool_cast, bool_cast_v, call, call0, call1,
    call2, call_v, copied, ident, ident_v, logical, logical_v, optional_member, optional_member_v,
    sequence, sequence_v, str_v, string, thunk, thunk_v,
};
use crate::copy::{copied_exprs, copied_pattern, copied_stmt};
use crate::outside::{push_char, same, share};
use crate::template::{generate_set_attr_expr_with_value, namespace, namespace_of, set_attr_v};
use crate::text::{chars_of, has_prefix, skip_white, starts_with, string_of, texts, trim_start};
use crate::vocabulary::Vocabulary;
use std::rc::Rc;
use vstd::prelude::*;

verus! {

broadcast use group_values;

// ---------------------------------------------------------------------------
// Short names
// ---------------------------------------------------------------------------

/// The digits of short names, most frequent letters first.
pub open spec fn id_digits() -> Seq<char> {
    "etaoinshrdlucwmfygpbTAOISWCBvkxjqzPHFMDRELNGUKVYJQZX_$"@
}

/// The short name of a number: the number in base 54.
pub open spec fn numbered_id(num: nat) -> Seq<char>
    decreases num,
{
    if num < 54 {
        seq![id_digits()[num as int]]
    } else {
        numbered_id(num / 54).push(id_digits()[(num % 54) as int])
    }
}

/// The short name of a number.
pub fn get_numbered_id(num: usize) -> (id: String)
    ensures
        id@ == numbered_id(num as nat),
    decreases num,
{
    let digits = chars_of("etaoinshrdlucwmfygpbTAOISWCBvkxjqzPHFMDRELNGUKVYJQZX_$");
    proof {
        reveal_strlit("etaoinshrdlucwmfygpbTAOISWCBvkxjqzPHFMDRELNGUKVYJQZX_$");
    }
    if num < 54 {
        let mut id = String::new();
        push_char(&mut id, digits[num]);
        proof {
            assert(id@ =~= numbered_id(num as nat));
        }
        id
    } else {
        let mut id = get_numbered_id(num / 54);
        push_char(&mut id, digits[num % 54]);
        id
    }
}

proof fn digits_differ(i: int, j: int)
    requires
        0 <= i < j < 54,
    ensures
        id_digits()[i] != id_digits()[j],
{
    reveal_strlit("etaoinshrdlucwmfygpbTAOISWCBvkxjqzPHFMDRELNGUKVYJQZX_$");
}

/// Different numbers have different short names.
pub proof fn numbered_ids_differ(a: nat, b: nat)
    requires
        a != b,
    ensures
        numbered_id(a) != numbered_id(b),
    decreases a + b,
{
    if numbered_id(a) == numbered_id(b) {
        let x = numbered_id(a);
        let y = numbered_id(b);
        numbered_id_nonempty(a / 54);
        numbered_id_nonempty(b / 54);
        assert(x.last() == id_digits()[(a % 54) as int]);
        assert(y.last() == id_digits()[(b % 54) as int]);
        if a % 54 != b % 54 {
            if a % 54 < b % 54 {
                digits_differ((a % 54) as int, (b % 54) as int);
            } else {
                digits_differ((b % 54) as int, (a % 54) as int);
            }
        } else if a < 54 {
            assert(x.len() == 1);
            assert(b < 54) by {
                if b >= 54 {
                    assert(y.len() > 1);
                }
            }
        } else if b < 54 {
            assert(x.len() > 1);
        } else {
            assert(x.drop_last() =~= numbered_id(a / 54));
            assert(y.drop_last() =~= numbered_id(b / 54));
            numbered_ids_differ(a / 54, b / 54);
        }
    }
}

/// The number that a short name is the numeral of, in base 54.
pub open spec fn numeral(id: Seq<char>) -> nat
    decreases id.len(),
{
    if id.len() == 0 {
        0
    } else {
        numeral(id.drop_last()) * 54 + id_digits().index_of(id.last()) as nat
    }
}

proof fn digit_index(i: int)
    requires
        0 <= i < 54,
    ensures
        id_digits().contains(id_digits()[i]),
        id_digits().index_of(id_digits()[i]) == i,
{
    reveal_strlit("etaoinshrdlucwmfygpbTAOISWCBvkxjqzPHFMDRELNGUKVYJQZX_$");
    let c = id_digits()[i];
    assert(id_digits().contains(c));
    let j = id_digits().index_of(c);
    if i < j {
        digits_differ(i, j);
    } else if j < i {
        digits_differ(j, i);
    }
}

/// A short name is the numeral of its number: it is not empty, each of its
/// characters is a digit, and it has no leading zero digit but in the name of
/// zero itself.
pub proof fn numbered_id_is_numeral(num: nat)
    ensures
        numbered_id(num).len() > 0,
        numeral(numbered_id(num)) == num,
        forall|i: int|
            0 <= i < numbered_id(num).len() ==> id_digits().contains(#[trigger] numbered_id(num)[i]),
        numbered_id(num)[0] == 'e' ==> numbered_id(num) == "e"@ && num == 0,
    decreases num,
{
    reveal_strlit("etaoinshrdlucwmfygpbTAOISWCBvkxjqzPHFMDRELNGUKVYJQZX_$");
    reveal_strlit("e");
    let id = numbered_id(num);
    if num < 54 {
        digit_index(num as int);
        assert(id.drop_last() =~= seq![]);
        assert(numeral(id.drop_last()) == 0);
        if id[0] == 'e' {
            if num > 0 {
                digits_differ(0, num as int);
            }
            assert(id =~= "e"@);
        }
    } else {
        numbered_id_is_numeral(num / 54);
        digit_index((num % 54) as int);
        assert(id.drop_last() =~= numbered_id(num / 54));
        assert(id[0] == numbered_id(num / 54)[0]);
        assert forall|i: int| 0 <= i < id.len() implies id_digits().contains(#[trigger] id[i]) by {
            if i < id.len() - 1 {
                assert(id[i] == numbered_id(num / 54)[i]);
            }
        }
    }
}

proof fn numbered_id_nonempty(num: nat)
    ensures
        numbered_id(num).len() > 0,
{
}

// ---------------------------------------------------------------------------
// MathML
// ---------------------------------------------------------------------------

/// A tag of MathML.
pub open spec fn is_math_ml_tag(tag: Seq<char>) -> bool {
    tag == "annotation"@ || tag == "annotation-xml"@ || tag == "maction"@ || tag == "math"@ || tag
        == "merror"@ || tag == "mfrac"@ || tag == "mi"@ || tag == "mmultiscripts"@ || tag == "mn"@
        || tag == "mo"@ || tag == "mover"@ || tag == "mpadded"@ || tag == "mphantom"@ || tag
        == "mprescripts"@ || tag == "mroot"@ || tag == "mrow"@ || tag == "ms"@ || tag == "mspace"@
        || tag == "msqrt"@ || tag == "mstyle"@ || tag == "msub"@ || tag == "msubsup"@ || tag
        == "msup"@ || tag == "mtable"@ || tag == "mtd"@ || tag == "mtext"@ || tag == "mtr"@ || tag
        == "munder"@ || tag == "munderover"@ || tag == "semantics"@ || tag == "menclose"@ || tag
        == "mfenced"@
}

fn math_ml_tag(tag: &str) -> (yes: bool)
    ensures
        yes == is_math_ml_tag(tag@),
{
    same(tag, "annotation") || same(tag, "annotation-xml") || same(tag, "maction") || same(
        tag,
        "math",
    ) || same(tag, "merror") || same(tag, "mfrac") || same(tag, "mi") || same(tag, "mmultiscripts")
        || same(tag, "mn") || same(tag, "mo") || same(tag, "mover") || same(tag, "mpadded") || same(
        tag,
        "mphantom",
    ) || same(tag, "mprescripts") || same(tag, "mroot") || same(tag, "mrow") || same(tag, "ms")
        || same(tag, "mspace") || same(tag, "msqrt") || same(tag, "mstyle") || same(tag, "msub")
        || same(tag, "msubsup") || same(tag, "msup") || same(tag, "mtable") || same(tag, "mtd")
        || same(tag, "mtext") || same(tag, "mtr") || same(tag, "munder") || same(tag, "munderover")
        || same(tag, "semantics") || same(tag, "menclose") || same(tag, "mfenced")
}

/// A character of a tag name.
pub open spec fn is_tag_char(c: char) -> bool {
    ('a' <= c && c <= 'z') || ('A' <= c && c <= 'Z') || ('0' <= c && c <= '9') || c == '-'
}

/// How many tag characters a text begins with.
pub open spec fn tag_length(text: Seq<char>) -> nat
    decreases text.len(),
{
    if text.len() > 0 && is_tag_char(text[0]) {
        1 + tag_length(text.skip(1))
    } else {
        0
    }
}

/// A template begins, behind white space, with a tag of MathML that is followed
/// by `>` or a blank.
pub open spec fn is_math_ml(template: Seq<char>) -> bool {
    let trimmed = trim_start(template);
    trimmed.len() > 0 && trimmed[0] == '<' && {
        let rest = trimmed.skip(1);
        let n = tag_length(rest);
        is_math_ml_tag(rest.take(n as int)) && n < rest.len() && (rest[n as int] == '>'
            || rest[n as int] == ' ' || rest[n as int] == '\t' || rest[n as int] == '\n'
            || rest[n as int] == '\r') && n > 0
    }
}

/// Whether a template is MathML.
pub fn is_math_ml_template(template: &str) -> (yes: bool)
    ensures
        yes == is_math_ml(template@),
{
    let chars = chars_of(template);
    let len: usize = chars.len();
    proof {
        assert(chars@.subrange(0, len as int) =~= template@);
    }
    let start: usize = skip_white(&chars, 0, len);
    let ghost trimmed = trim_start(template@);
    if start >= len || chars[start] != '<' {
        return false;
    }
    let from: usize = start + 1;
    let ghost rest = trimmed.skip(1);
    proof {
        assert(rest =~= chars@.subrange(from as int, len as int));
        assert(rest.skip(0) =~= rest);
    }
    let mut at: usize = from;
    while at < len && (('a' <= chars[at] && chars[at] <= 'z') || ('A' <= chars[at] && chars[at]
        <= 'Z') || ('0' <= chars[at] && chars[at] <= '9') || chars[at] == '-')
        invariant
            from <= at <= len == chars.len(),
            rest == chars@.subrange(from as int, len as int),
            tag_length(rest) == (at - from) + tag_length(rest.skip(at - from)),
        decreases len - at,
    {
        proof {
            assert(rest.skip(at - from)[0] == chars@[at as int]);
            assert(rest.skip(at - from).skip(1) =~= rest.skip(at - from + 1));
        }
        at = at + 1;
    }
    proof {
        if at < len {
            assert(rest.skip(at - from)[0] == chars@[at as int]);
        }
        assert(tag_length(rest) == at - from);
    }
    let name = string_of(&chars, from, at);
    proof {
        assert(name@ =~= rest.take(at - from));
    }
    if at == from || !math_ml_tag(name.as_str()) {
        return false;
    }
    at < len && (chars[at] == '>' || chars[at] == ' ' || chars[at] == '\t' || chars[at] == '\n'
        || chars[at] == '\r')
}

// ---------------------------------------------------------------------------
// Bindings
// ---------------------------------------------------------------------------

/// The helper that the setter of a binding calls.
pub open spec fn binding_helper(
    key: Seq<char>,
    hydratable: bool,
    vocabulary: Vocabulary,
) -> Option<Seq<char>> {
    if key == "style"@ {
        Some("style"@)
    } else if key == "class"@ {
        Some("className"@)
    } else if key == "classList"@ {
        Some("classList"@)
    } else if starts_with(key, "style:"@) {
        Some("setStyleProperty"@)
    } else if starts_with(key, "class:"@) || starts_with(key, "prop:"@) {
        None
    } else if starts_with(key, "bool:"@) {
        Some("setBoolAttribute"@)
    } else if key == "textContent"@ || key == "innerText"@ {
        if hydratable {
            Some("setProperty"@)
        } else {
            None
        }
    } else if namespace_of(key, vocabulary) is Some {
        Some("setAttributeNS"@)
    } else if vocabulary.is_property(key) {
        if hydratable {
            Some("setProperty"@)
        } else {
            None
        }
    } else {
        Some("setAttribute"@)
    }
}

/// Imports a helper, where there is one.
pub open spec fn register_opt(ctx: ContextV, helper: Option<Seq<char>>) -> ContextV {
    match helper {
        Some(helper) => ctx.register(helper),
        None => ctx,
    }
}

/// Imports the helper of a binding.
pub open spec fn register_binding(ctx: ContextV, key: Seq<char>, vocabulary: Vocabulary) -> ContextV {
    register_opt(ctx, binding_helper(key, ctx.hydratable, vocabulary))
}

/// Imports the helper that the setter of a binding calls.
pub fn register_dynamic_binding_helper(
    context: &mut BlockContext,
    binding: &DynamicBinding,
    vocabulary: &Vocabulary,
)
    ensures
        final(context)@ == register_binding(old(context)@, binding@.key, *vocabulary),
{
    let key = binding.key.as_str();
    if same(key, "style") {
        context.register_helper("style");
        return;
    }
    if same(key, "class") {
        context.register_helper("className");
        return;
    }
    if same(key, "classList") {
        context.register_helper("classList");
        return;
    }
    if has_prefix(key, "style:") {
        context.register_helper("setStyleProperty");
        return;
    }
    if has_prefix(key, "class:") || has_prefix(key, "prop:") {
        return;
    }
    if has_prefix(key, "bool:") {
        context.register_helper("setBoolAttribute");
        return;
    }
    if same(key, "textContent") || same(key, "innerText") {
        if context.is_hydratable() {
            context.register_helper("setProperty");
        }
        return;
    }
    if namespace(key, vocabulary).is_some() {
        context.register_helper("setAttributeNS");
        return;
    }
    if vocabulary.property(key) {
        if context.is_hydratable() {
            context.register_helper("setProperty");
        }
        return;
    }
    context.register_helper("setAttribute");
}

/// An expression is a boolean or an operator on one operand.
pub open spec fn is_bool_like(kind: KindV) -> bool {
    kind is Bool || kind is Unary
}

fn bool_like(expr: &Expr) -> (yes: bool)
    ensures
        yes == is_bool_like(expr@.kind),
{
    match &expr.kind {
        Kind::Bool(_) => true,
        Kind::Unary { .. } => true,
        _ => false,
    }
}

/// The value that the attribute of a binding is set to: a class toggle wants a
/// boolean.
pub open spec fn bound_value(span: Span, binding: BindingV) -> ExprV {
    if starts_with(binding.key, "class:"@) && !is_bool_like(binding.value.kind) {
        bool_cast_v(span, binding.value)
    } else {
        binding.value
    }
}

fn value_of_binding(span: Span, binding: &DynamicBinding) -> (value: Rc<Expr>)
    ensures
        value@ == bound_value(span, binding@),
{
    if has_prefix(binding.key.as_str(), "class:") && !bool_like(&binding.value) {
        bool_cast(span, share(&binding.value))
    } else {
        share(&binding.value)
    }
}

/// A binding whose setter compares with the value before.
pub open spec fn tracks_prev(binding: BindingV) -> bool {
    binding.key == "class"@ || binding.key == "style"@
}

/// A call without arguments of a function that stands in place.
pub open spec fn is_iife(kind: KindV) -> bool {
    match kind {
        KindV::Call { callee, args, .. } => args.len() == 0 && (callee.kind is Arrow
            || callee.kind is Function),
        _ => false,
    }
}

/// The function that an effect reads `expr` through.
pub open spec fn effect_source_v(span: Span, expr: ExprV) -> ExprV {
    if is_iife(expr.kind) {
        *expr.kind->Call_callee
    } else {
        thunk_v(span, expr)
    }
}

fn is_function(expr: &Expr) -> (yes: bool)
    ensures
        yes == (expr@.kind is Arrow || expr@.kind is Function),
{
    match &expr.kind {
        Kind::Arrow { .. } => true,
        Kind::Function { .. } => true,
        _ => false,
    }
}

/// The function that an effect reads `expr` through.
pub fn inline_effect_source_expr(span: Span, expr: &Rc<Expr>) -> (source: Rc<Expr>)
    ensures
        source@ == effect_source_v(span, expr@),
{
    match &expr.kind {
        Kind::Call { callee, args, .. } => {
            proof {
                assert(kind_value(expr.kind) == expr@.kind);
            }
            if args.len() == 0 && is_function(callee) {
                return share(callee);
            }
            thunk(span, share(expr))
        },
        _ => thunk(span, share(expr)),
    }
}

/// The effect of one binding.
pub open spec fn single_effect_v(
    span: Span,
    binding: BindingV,
    hydratable: bool,
    vocabulary: Vocabulary,
) -> ExprV {
    let setter = set_attr_v(
        span,
        binding,
        ident_v(span, "_v$"@),
        if tracks_prev(binding) {
            Some(ident_v(span, "_$p"@))
        } else {
            None
        },
        hydratable,
        vocabulary,
    );
    let params = if tracks_prev(binding) {
        seq![PatternV::Ident("_v$"@), PatternV::Ident("_$p"@)]
    } else {
        seq![PatternV::Ident("_v$"@)]
    };
    call_v(
        span,
        helper_v(span, "effect"@),
        seq![
            effect_source_v(span, bound_value(span, binding)),
            arrow_v(span, params, false, seq![StmtV::Expr(setter)]),
        ],
    )
}

fn build_single_dynamic_effect_call(
    span: Span,
    binding: &DynamicBinding,
    hydratable: bool,
    vocabulary: &Vocabulary,
) -> (expr: Rc<Expr>)
    ensures
        expr@ == single_effect_v(span, binding@, hydratable, *vocabulary),
{
    let track_prev = same(binding.key.as_str(), "class") || same(binding.key.as_str(), "style");
    let mut params: Vec<Pattern> = Vec::new();
    params.push(Pattern::Ident(copied("_v$")));
    if track_prev {
        params.push(Pattern::Ident(copied("_$p")));
    }
    let prev = if track_prev {
        Some(ident(span, "_$p"))
    } else {
        None
    };
    let setter = generate_set_attr_expr_with_value(
        span,
        binding,
        ident(span, "_v$"),
        prev,
        hydratable,
        vocabulary,
    );
    let mut body: Vec<Stmt> = Vec::new();
    body.push(Stmt::Expr(setter));
    proof {
        assert(stmt_value(body@[0]) == StmtV::Expr(setter@));
        assert(stmt_values(body@) =~= seq![StmtV::Expr(setter@)]);
        if track_prev {
            assert(pattern_values(params@) =~= seq![
                PatternV::Ident("_v$"@),
                PatternV::Ident("_$p"@),
            ]);
        } else {
            assert(pattern_values(params@) =~= seq![PatternV::Ident("_v$"@)]);
        }
    }
    let callback = arrow(span, params, false, body);
    let value = value_of_binding(span, binding);
    let source = inline_effect_source_expr(span, &value);
    call2(span, helper_ident_expr(span, "effect"), source, callback)
}

/// The property that holds the value of the binding number `index`.
pub open spec fn value_prop_v(span: Span, binding: BindingV, index: nat) -> PropV {
    PropV::Named {
        span,
        kind: PropKind::Init,
        key: KeyV::Ident(numbered_id(index)),
        value: bound_value(span, binding),
        method: false,
        shorthand: false,
        computed: false,
    }
}

/// The statement that updates the binding number `index` where its value has
/// changed.
pub open spec fn update_v(
    span: Span,
    binding: BindingV,
    index: nat,
    hydratable: bool,
    vocabulary: Vocabulary,
) -> StmtV {
    let current = ident_v(span, numbered_id(index));
    let prev = optional_member_v(span, ident_v(span, "_p$"@), numbered_id(index));
    if tracks_prev(binding) {
        StmtV::Expr(set_attr_v(span, binding, current, Some(prev), hydratable, vocabulary))
    } else {
        StmtV::Expr(
            logical_v(
                span,
                binary_v(span, current, BinaryOp::StrictInequality, prev),
                LogicalOp::And,
                set_attr_v(span, binding, current, None, hydratable, vocabulary),
            ),
        )
    }
}

/// The effect of several bindings.
pub open spec fn multi_effect_v(
    span: Span,
    bindings: Seq<BindingV>,
    hydratable: bool,
    vocabulary: Vocabulary,
) -> ExprV {
    let props = Seq::new(bindings.len(), |i: int| value_prop_v(span, bindings[i], i as nat));
    let ids = Seq::new(bindings.len(), |i: int| numbered_id(i as nat));
    let updates = Seq::new(
        bindings.len(),
        |i: int| update_v(span, bindings[i], i as nat, hydratable, vocabulary),
    );
    call_v(
        span,
        helper_v(span, "effect"@),
        seq![
            thunk_v(span, crate::make::object_v(span, props)),
            arrow_v(
                span,
                seq![PatternV::Object(ids), PatternV::Ident("_p$"@)],
                false,
                updates,
            ),
        ],
    )
}

fn value_prop(span: Span, binding: &DynamicBinding, index: usize) -> (prop: Prop)
    ensures
        prop@ == value_prop_v(span, binding@, index as nat),
{
    let key = Key::Ident(get_numbered_id(index));
    proof {
        assert(key@ == KeyV::Ident(numbered_id(index as nat)));
    }
    Prop::Named {
        span,
        kind: PropKind::Init,
        key,
        value: value_of_binding(span, binding),
        method: false,
        shorthand: false,
        computed: false,
    }
}

fn update(
    span: Span,
    binding: &DynamicBinding,
    index: usize,
    hydratable: bool,
    vocabulary: &Vocabulary,
) -> (stmt: Stmt)
    ensures
        stmt@ == update_v(span, binding@, index as nat, hydratable, *vocabulary),
{
    let id = get_numbered_id(index);
    let current = ident(span, id.as_str());
    let prev = optional_member(span, ident(span, "_p$"), id.as_str());
    if same(binding.key.as_str(), "class") || same(binding.key.as_str(), "style") {
        Stmt::Expr(
            generate_set_attr_expr_with_value(
                span,
                binding,
                current,
                Some(prev),
                hydratable,
                vocabulary,
            ),
        )
    } else {
        let setter = generate_set_attr_expr_with_value(
            span,
            binding,
            share(&current),
            None,
            hydratable,
            vocabulary,
        );
        let changed = binary(span, current, BinaryOp::StrictInequality, prev);
        Stmt::Expr(logical(span, changed, LogicalOp::And, setter))
    }
}

fn build_multi_dynamic_effect_call(
    span: Span,
    dynamics: &Vec<DynamicBinding>,
    hydratable: bool,
    vocabulary: &Vocabulary,
) -> (expr: Rc<Expr>)
    ensures
        expr@ == multi_effect_v(span, binding_values(dynamics@), hydratable, *vocabulary),
{
    let ghost bindings = binding_values(dynamics@);
    let mut props: Vec<Prop> = Vec::new();
    let mut ids: Vec<String> = Vec::new();
    let mut updates: Vec<Stmt> = Vec::new();
    let mut i: usize = 0;
    while i < dynamics.len()
        invariant
            i <= dynamics.len(),
            bindings == binding_values(dynamics@),
            props@.len() == i,
            ids@.len() == i,
            updates@.len() == i,
            forall|k: int|
                0 <= k < i ==> #[trigger] props@[k]@ == value_prop_v(span, bindings[k], k as nat),
            forall|k: int| 0 <= k < i ==> #[trigger] ids@[k]@ == numbered_id(k as nat),
            forall|k: int|
                0 <= k < i ==> #[trigger] updates@[k]@ == update_v(
                    span,
                    bindings[k],
                    k as nat,
                    hydratable,
                    *vocabulary,
                ),
        decreases dynamics.len() - i,
    {
        props.push(value_prop(span, &dynamics[i], i));
        ids.push(get_numbered_id(i));
        updates.push(update(span, &dynamics[i], i, hydratable, vocabulary));
        i = i + 1;
    }
    let mut params: Vec<Pattern> = Vec::new();
    params.push(Pattern::Object(ids));
    params.push(Pattern::Ident(copied("_p$")));
    proof {
        let all = Seq::new(bindings.len(), |i: int| value_prop_v(span, bindings[i], i as nat));
        assert(prop_values(props@) =~= all) by {
            assert forall|k: int| 0 <= k < props@.len() implies prop_values(props@)[k]
                == all[k] by {
                assert(props@[k]@ == value_prop_v(span, bindings[k], k as nat));
            }
        }
        let names = Seq::new(bindings.len(), |i: int| numbered_id(i as nat));
        assert(texts(ids@) =~= names) by {
            assert forall|k: int| 0 <= k < ids@.len() implies texts(ids@)[k] == names[k] by {
                assert(ids@[k]@ == numbered_id(k as nat));
            }
        }
        let stmts = Seq::new(
            bindings.len(),
            |i: int| update_v(span, bindings[i], i as nat, hydratable, *vocabulary),
        );
        assert(stmt_values(updates@) =~= stmts) by {
            assert forall|k: int| 0 <= k < updates@.len() implies stmt_values(updates@)[k]
                == stmts[k] by {
                assert(updates@[k]@ == update_v(
                    span,
                    bindings[k],
                    k as nat,
                    hydratable,
                    *vocabulary,
                ));
            }
        }
        assert(pattern_values(params@) =~= seq![PatternV::Object(names), PatternV::Ident("_p$"@)]);
    }
    let getter = thunk(span, crate::make::object(span, props));
    let callback = arrow(span, params, false, updates);
    call2(span, helper_ident_expr(span, "effect"), getter, callback)
}

// ---------------------------------------------------------------------------
// Output
// ---------------------------------------------------------------------------

/// There is nothing to run.
pub open spec fn is_static(result: ResultV) -> bool {
    result.statements.len() == 0 && result.exprs.len() == 0 && result.dynamics.len() == 0
        && result.post_exprs.len() == 0
}

/// A result that can be put out: a template is skipped only where the element
/// is there already, and a result of the universal renderer is finished.
pub open spec fn can_output(result: ResultV, hydratable: bool) -> bool
    decreases result,
{
    if result.child_results.len() > 0 {
        forall|i: int|
            0 <= i < result.child_results.len() ==> match (#[trigger] result.child_results[i]).output_kind {
                OutputKind::Universal => result.child_results[i].universal_output is Some,
                OutputKind::Dom => can_output(result.child_results[i], hydratable),
            }
    } else {
        hydratable || !result.skip_template || result.text || result.template.len() == 0
    }
}

/// The template of a result.
pub open spec fn template_of(result: ResultV) -> TemplateV {
    TemplateV {
        content: result.template,
        validation_content: if result.closed.len() == 0 {
            result.template
        } else {
            result.closed
        },
        is_svg: result.template_is_svg,
        use_import_node: result.has_custom_element || result.is_import_node,
        is_math_ml: is_math_ml(result.template),
        span: no_span(),
    }
}

/// The expression statements of some expressions.
pub open spec fn expr_stmts(exprs: Seq<ExprV>) -> Seq<StmtV> {
    exprs.map_values(|e: ExprV| StmtV::Expr(e))
}

/// Imports the helpers of the bindings, in order.
pub open spec fn register_bindings(
    ctx: ContextV,
    bindings: Seq<BindingV>,
    vocabulary: Vocabulary,
) -> ContextV
    decreases bindings.len(),
{
    if bindings.len() == 0 {
        ctx
    } else {
        register_binding(
            register_bindings(ctx, bindings.drop_last(), vocabulary),
            bindings.last().key,
            vocabulary,
        )
    }
}

/// The statements that keep the bindings up to date.
pub open spec fn dynamics_v(ctx: ContextV, bindings: Seq<BindingV>, vocabulary: Vocabulary) -> (
    ContextV,
    Seq<StmtV>,
) {
    if bindings.len() == 0 {
        (ctx, seq![])
    } else if ctx.effect_wrapper_enabled {
        (
            register_bindings(ctx.register("effect"@), bindings, vocabulary),
            seq![
                StmtV::Expr(
                    if bindings.len() == 1 {
                        single_effect_v(no_span(), bindings[0], ctx.hydratable, vocabulary)
                    } else {
                        multi_effect_v(no_span(), bindings, ctx.hydratable, vocabulary)
                    },
                ),
            ],
        )
    } else {
        (
            register_bindings(ctx, bindings, vocabulary),
            Seq::new(
                bindings.len(),
                |i: int|
                    StmtV::Expr(
                        set_attr_v(
                            no_span(),
                            bindings[i],
                            bound_value(no_span(), bindings[i]),
                            None,
                            ctx.hydratable,
                            vocabulary,
                        ),
                    ),
            ),
        )
    }
}

/// The call that makes the element of a template, or finds it where the page is
/// hydrated.
pub open spec fn element_call_v(hydratable: bool, template: Option<Seq<char>>) -> ExprV {
    if hydratable {
        call_v(
            no_span(),
            helper_v(no_span(), "getNextElement"@),
            match template {
                Some(name) => seq![ident_v(no_span(), name)],
                None => seq![],
            },
        )
    } else {
        call_v(no_span(), ident_v(no_span(), template->0), seq![])
    }
}

/// The declarators of an element and of what is reached from it.
pub open spec fn declarators_v(elem: Seq<char>, init: ExprV, rest: Seq<DeclarationV>) -> Seq<
    DeclaratorV,
> {
    seq![DeclaratorV { pattern: PatternV::Ident(elem), init: Some(init) }] + rest.map_values(
        |d: DeclarationV| DeclaratorV { pattern: d.pattern, init: Some(d.init) },
    )
}

/// The output of a result with a template.
pub open spec fn template_output_v(ctx: ContextV, result: ResultV, vocabulary: Vocabulary) -> (
    ContextV,
    ExprV,
) {
    let added = ctx.add_template(template_of(result));
    let ctx = if result.skip_template {
        ctx
    } else {
        added.0
    };
    let name = if result.skip_template {
        None
    } else {
        Some(template_name(added.1))
    };
    let ctx = if ctx.hydratable {
        ctx.register("getNextElement"@)
    } else {
        ctx
    };
    let made = element_call_v(ctx.hydratable, name);
    if is_static(result) && (ctx.hydratable || !result.skip_template) {
        (ctx, made)
    } else {
        let elem = match result.id {
            Some(id) => id,
            None => "_el$"@,
        };
        let dynamics = dynamics_v(ctx, result.dynamics, vocabulary);
        let body = seq![
            StmtV::Var {
                kind: VarKind::Var,
                declarators: declarators_v(elem, made, result.declarations),
            },
        ] + result.statements + expr_stmts(result.exprs) + dynamics.1 + expr_stmts(
            result.post_exprs,
        ) + seq![StmtV::Return(Some(ident_v(no_span(), elem)))];
        (
            dynamics.0,
            call_v(no_span(), arrow_v(no_span(), seq![], false, body), seq![]),
        )
    }
}

/// The output of a result without a template.
pub open spec fn expr_output_v(ctx: ContextV, result: ResultV) -> (ContextV, ExprV) {
    if result.exprs.len() == 0 {
        (ctx, str_v(no_span(), ""@))
    } else if result.needs_memo {
        (
            ctx.register("memo"@),
            call_v(no_span(), helper_v(no_span(), "memo"@), result.exprs),
        )
    } else if result.exprs.len() == 1 {
        (ctx, result.exprs[0])
    } else {
        (ctx, sequence_v(no_span(), result.exprs))
    }
}

/// The expression that a result is put out as, and the context afterwards.
pub open spec fn output_v(ctx: ContextV, result: ResultV, vocabulary: Vocabulary) -> (
    ContextV,
    ExprV,
)
    decreases result, 0nat,
{
    if result.child_results.len() > 0 {
        let outputs = outputs_v(ctx, result.child_results, vocabulary);
        (outputs.0, array_v(no_span(), outputs.1))
    } else if result.template.len() > 0 {
        if result.text {
            (ctx, str_v(no_span(), result.template))
        } else {
            template_output_v(ctx, result, vocabulary)
        }
    } else {
        expr_output_v(ctx, result)
    }
}

/// The outputs of several results, one after the other.
pub open spec fn outputs_v(ctx: ContextV, results: Seq<ResultV>, vocabulary: Vocabulary) -> (
    ContextV,
    Seq<ExprV>,
)
    decreases results, results.len(),
{
    if results.len() == 0 {
        (ctx, seq![])
    } else {
        let head = outputs_v(ctx, results.drop_last(), vocabulary);
        let last = results[results.len() - 1];
        let output = match last.output_kind {
            OutputKind::Universal => (head.0, last.universal_output->0),
            OutputKind::Dom => output_v(head.0, last, vocabulary),
        };
        (output.0, head.1.push(output.1))
    }
}

proof fn register_bindings_keep(ctx: ContextV, bindings: Seq<BindingV>, vocabulary: Vocabulary)
    ensures
        register_bindings(ctx, bindings, vocabulary).hydratable == ctx.hydratable,
        register_bindings(ctx, bindings, vocabulary).effect_wrapper_enabled
            == ctx.effect_wrapper_enabled,
    decreases bindings.len(),
{
    if bindings.len() > 0 {
        register_bindings_keep(ctx, bindings.drop_last(), vocabulary);
    }
}

fn register_all_bindings(
    context: &mut BlockContext,
    dynamics: &Vec<DynamicBinding>,
    vocabulary: &Vocabulary,
)
    ensures
        final(context)@ == register_bindings(
            old(context)@,
            binding_values(dynamics@),
            *vocabulary,
        ),
{
    let ghost bindings = binding_values(dynamics@);
    let ghost ctx = context@;
    let mut i: usize = 0;
    while i < dynamics.len()
        invariant
            i <= dynamics.len(),
            bindings == binding_values(dynamics@),
            context@ == register_bindings(ctx, bindings.take(i as int), *vocabulary),
        decreases dynamics.len() - i,
    {
        register_dynamic_binding_helper(context, &dynamics[i], vocabulary);
        proof {
            assert(bindings.take(i + 1).drop_last() =~= bindings.take(i as int));
        }
        i = i + 1;
    }
    proof {
        assert(bindings.take(i as int) =~= bindings);
    }
}

/// Appends the statements that keep the bindings up to date.
fn push_dynamics(
    statements: &mut Vec<Stmt>,
    context: &mut BlockContext,
    dynamics: &Vec<DynamicBinding>,
    vocabulary: &Vocabulary,
)
    ensures
        final(context)@ == dynamics_v(old(context)@, binding_values(dynamics@), *vocabulary).0,
        stmt_values(final(statements)@) == stmt_values(old(statements)@) + dynamics_v(
            old(context)@,
            binding_values(dynamics@),
            *vocabulary,
        ).1,
{
    let ghost bindings = binding_values(dynamics@);
    let ghost ctx = context@;
    let ghost before = stmt_values(statements@);
    if dynamics.len() == 0 {
        proof {
            assert(before + seq![] =~= before);
        }
        return;
    }
    let span = nowhere();
    if context.wraps_effects() {
        context.register_helper("effect");
        register_all_bindings(context, dynamics, vocabulary);
        proof {
            register_bindings_keep(ctx.register("effect"@), bindings, *vocabulary);
        }
        let effect = if dynamics.len() == 1 {
            build_single_dynamic_effect_call(
                span,
                &dynamics[0],
                context.is_hydratable(),
                vocabulary,
            )
        } else {
            build_multi_dynamic_effect_call(span, dynamics, context.is_hydratable(), vocabulary)
        };
        let stmt = Stmt::Expr(effect);
        proof {
            assert(stmt@ == StmtV::Expr(effect@));
        }
        statements.push(stmt);
        proof {
            assert(before.push(StmtV::Expr(effect@)) =~= before + seq![StmtV::Expr(effect@)]);
        }
    } else {
        let ghost all = dynamics_v(ctx, bindings, *vocabulary).1;
        let mut i: usize = 0;
        proof {
            assert(before + all.take(0) =~= before);
        }
        while i < dynamics.len()
            invariant
                i <= dynamics.len(),
                bindings == binding_values(dynamics@),
                bindings.len() > 0,
                !ctx.effect_wrapper_enabled,
                span == no_span(),
                all == dynamics_v(ctx, bindings, *vocabulary).1,
                context@ == register_bindings(ctx, bindings.take(i as int), *vocabulary),
                stmt_values(statements@) == before + all.take(i as int),
            decreases dynamics.len() - i,
        {
            register_dynamic_binding_helper(context, &dynamics[i], vocabulary);
            proof {
                assert(bindings.take(i + 1).drop_last() =~= bindings.take(i as int));
                register_bindings_keep(ctx, bindings.take(i + 1), *vocabulary);
            }
            let value = value_of_binding(span, &dynamics[i]);
            let setter = generate_set_attr_expr_with_value(
                span,
                &dynamics[i],
                value,
                None,
                context.is_hydratable(),
                vocabulary,
            );
            let stmt = Stmt::Expr(setter);
            proof {
                assert(stmt@ == StmtV::Expr(setter@));
                assert(all[i as int] == stmt@);
                assert((before + all.take(i as int)).push(stmt@) =~= before + all.take(i + 1));
            }
            statements.push(stmt);
            i = i + 1;
        }
        proof {
            assert(bindings.take(i as int) =~= bindings);
            assert(all.take(i as int) =~= all);
        }
    }
}

/// Appends expressions as statements.
fn push_exprs(statements: &mut Vec<Stmt>, exprs: &Vec<Rc<Expr>>)
    ensures
        stmt_values(final(statements)@) == stmt_values(old(statements)@) + expr_stmts(
            expr_values(exprs@),
        ),
{
    let ghost before = stmt_values(statements@);
    let ghost all = expr_stmts(expr_values(exprs@));
    let mut i: usize = 0;
    proof {
        assert(before + all.take(0) =~= before);
    }
    while i < exprs.len()
        invariant
            i <= exprs.len(),
            all == expr_stmts(expr_values(exprs@)),
            stmt_values(statements@) == before + all.take(i as int),
        decreases exprs.len() - i,
    {
        let stmt = Stmt::Expr(share(&exprs[i]));
        proof {
            assert(stmt@ == StmtV::Expr(exprs@[i as int]@));
            assert(all[i as int] == stmt@);
            assert((before + all.take(i as int)).push(stmt@) =~= before + all.take(i + 1));
        }
        statements.push(stmt);
        i = i + 1;
    }
    proof {
        assert(all.take(i as int) =~= all);
    }
}

fn element_call(hydratable: bool, template: &Option<String>) -> (expr: Rc<Expr>)
    requires
        hydratable || template is Some,
    ensures
        expr@ == element_call_v(hydratable, opt(*template)),
{
    let span = nowhere();
    if hydratable {
        let callee = helper_ident_expr(span, "getNextElement");
        match template {
            Some(name) => call1(span, callee, ident(span, name.as_str())),
            None => call0(span, callee),
        }
    } else {
        match template {
            Some(name) => call0(span, ident(span, name.as_str())),
            None => call0(span, ident(span, "")),
        }
    }
}

fn declarators(elem: &str, init: Rc<Expr>, rest: &Vec<Declaration>) -> (all: Vec<Declarator>)
    ensures
        declarator_values(all@) == declarators_v(elem@, init@, declaration_values(rest@)),
{
    let ghost wanted = declarators_v(elem@, init@, declaration_values(rest@));
    let mut all: Vec<Declarator> = Vec::new();
    all.push(Declarator { pattern: Pattern::Ident(copied(elem)), init: Some(init) });
    proof {
        assert(crate::ast::option_value(all@[0].init) == Some(init@));
        assert(declarator_values(all@) =~= wanted.take(1));
    }
    let mut i: usize = 0;
    while i < rest.len()
        invariant
            i <= rest.len(),
            wanted == declarators_v(elem@, init@, declaration_values(rest@)),
            declarator_values(all@) == wanted.take(1 + i),
        decreases rest.len() - i,
    {
        let declarator = Declarator {
            pattern: copied_pattern(&rest[i].pattern),
            init: Some(share(&rest[i].init)),
        };
        proof {
            assert(crate::ast::option_value(declarator.init) == Some(rest@[i as int].init@));
            assert(wanted[1 + i] == DeclaratorV {
                pattern: declarator.pattern@,
                init: Some(rest@[i as int].init@),
            });
            assert(wanted.take(1 + i).push(wanted[1 + i]) =~= wanted.take(2 + i));
        }
        all.push(declarator);
        i = i + 1;
    }
    proof {
        assert(wanted.take(1 + i) =~= wanted);
    }
    all
}

/// Appends copies of statements.
fn push_stmts(statements: &mut Vec<Stmt>, more: &Vec<Stmt>)
    ensures
        stmt_values(final(statements)@) == stmt_values(old(statements)@) + stmt_values(more@),
{
    let ghost before = stmt_values(statements@);
    let ghost all = stmt_values(more@);
    let mut i: usize = 0;
    proof {
        assert(before + all.take(0) =~= before);
    }
    while i < more.len()
        invariant
            i <= more.len(),
            all == stmt_values(more@),
            stmt_values(statements@) == before + all.take(i as int),
        decreases more.len() - i,
    {
        let stmt = copied_stmt(&more[i]);
        proof {
            assert(all[i as int] == stmt@);
            assert((before + all.take(i as int)).push(stmt@) =~= before + all.take(i + 1));
        }
        statements.push(stmt);
        i = i + 1;
    }
    proof {
        assert(all.take(i as int) =~= all);
    }
}

/// The output of a result with a template.
fn build_template_output(
    result: &TransformResult,
    context: &mut BlockContext,
    vocabulary: &Vocabulary,
) -> (expr: Rc<Expr>)
    requires
        old(context)@.hydratable || !result@.skip_template,
    ensures
        (final(context)@, expr@) == template_output_v(old(context)@, result@, *vocabulary),
{
    proof {
        reveal(result_value);
    }
    let span = nowhere();
    let template = if result.skip_template {
        None
    } else {
        let validation = if result.template_with_closing_tags.as_str().is_empty() {
            result.template.clone()
        } else {
            result.template_with_closing_tags.clone()
        };
        let index: usize = context.push_template(
            result.template.clone(),
            validation,
            result.template_is_svg,
            result.has_custom_element || result.is_import_node,
            is_math_ml_template(result.template.as_str()),
            span,
        );
        Some(template_var_name(index))
    };
    let hydratable = context.is_hydratable();
    if hydratable {
        context.register_helper("getNextElement");
    }
    let made = element_call(hydratable, &template);
    if result.statements.len() == 0 && result.exprs.len() == 0 && result.dynamics.len() == 0
        && result.post_exprs.len() == 0 {
        return made;
    }
    let elem = match &result.id {
        Some(id) => id.clone(),
        None => copied("_el$"),
    };
    let mut statements: Vec<Stmt> = Vec::new();
    let first = Stmt::Var {
        kind: VarKind::Var,
        declarators: declarators(elem.as_str(), made, &result.declarations),
    };
    let ghost first_v = StmtV::Var {
        kind: VarKind::Var,
        declarators: declarators_v(elem@, made@, result@.declarations),
    };
    proof {
        assert(first@ == first_v);
    }
    statements.push(first);
    proof {
        assert(stmt_values(statements@) =~= seq![first_v]);
    }
    push_stmts(&mut statements, &result.statements);
    push_exprs(&mut statements, &result.exprs);
    push_dynamics(&mut statements, context, &result.dynamics, vocabulary);
    push_exprs(&mut statements, &result.post_exprs);
    let last = Stmt::Return(Some(ident(span, elem.as_str())));
    let ghost last_v = StmtV::Return(Some(ident_v(no_span(), elem@)));
    let ghost so_far = stmt_values(statements@);
    proof {
        assert(crate::ast::option_value(last->Return_0) == Some(ident_v(no_span(), elem@)));
        assert(last@ == last_v);
        assert(so_far.push(last_v) =~= so_far + seq![last_v]);
    }
    statements.push(last);
    let params: Vec<Pattern> = Vec::new();
    proof {
        assert(pattern_values(params@) =~= seq![]);
    }
    call0(span, arrow(span, params, false, statements))
}

/// The expression that a result is put out as.
pub fn build_dom_output_expr(
    result: &TransformResult,
    context: &mut BlockContext,
    vocabulary: &Vocabulary,
) -> (expr: Rc<Expr>)
    requires
        can_output(result@, old(context)@.hydratable),
    ensures
        (final(context)@, expr@) == output_v(old(context)@, result@, *vocabulary),
    decreases result, 0nat,
{
    proof {
        reveal(result_value);
    }
    let span = nowhere();
    if result.child_results.len() > 0 {
        proof {
            let children = result.child_results@;
            assert(result@.child_results == result_values(children));
            assert forall|i: int| 0 <= i < children.len() implies match (
            #[trigger] children[i]@).output_kind {
                OutputKind::Universal => children[i]@.universal_output is Some,
                OutputKind::Dom => can_output(children[i]@, context@.hydratable),
            } by {
                assert(result_values(children)[i] == children[i]@);
                assert(result@.child_results[i] == children[i]@);
            }
        }
        let outputs = build_outputs(&result.child_results, context, vocabulary);
        return array(span, outputs);
    }
    if !result.template.as_str().is_empty() {
        if result.text {
            return string(span, result.template.as_str());
        }
        return build_template_output(result, context, vocabulary);
    }
    if result.exprs.len() > 0 {
        if result.needs_memo {
            context.register_helper("memo");
            let callee = helper_ident_expr(span, "memo");
            return call(span, callee, copied_exprs(&result.exprs));
        }
        if result.exprs.len() == 1 {
            return share(&result.exprs[0]);
        }
        return sequence(span, copied_exprs(&result.exprs));
    }
    string(span, "")
}

fn build_outputs(
    results: &Vec<TransformResult>,
    context: &mut BlockContext,
    vocabulary: &Vocabulary,
) -> (outputs: Vec<Rc<Expr>>)
    requires
        forall|i: int|
            0 <= i < results@.len() ==> match (#[trigger] results@[i]@).output_kind {
                OutputKind::Universal => results@[i]@.universal_output is Some,
                OutputKind::Dom => can_output(results@[i]@, old(context)@.hydratable),
            },
    ensures
        final(context)@ == outputs_v(old(context)@, result_values(results@), *vocabulary).0,
        expr_values(outputs@) == outputs_v(
            old(context)@,
            result_values(results@),
            *vocabulary,
        ).1,
    decreases results, 1nat,
{
    let ghost ctx = context@;
    let ghost all = result_values(results@);
    let mut outputs: Vec<Rc<Expr>> = Vec::new();
    let mut i: usize = 0;
    while i < results.len()
        invariant
            i <= results.len(),
            all == result_values(results@),
            context@.hydratable == ctx.hydratable,
            forall|k: int|
                0 <= k < results@.len() ==> match (#[trigger] results@[k]@).output_kind {
                    OutputKind::Universal => results@[k]@.universal_output is Some,
                    OutputKind::Dom => can_output(results@[k]@, ctx.hydratable),
                },
            context@ == outputs_v(ctx, all.take(i as int), *vocabulary).0,
            expr_values(outputs@) == outputs_v(ctx, all.take(i as int), *vocabulary).1,
        decreases results.len() - i,
    {
        let child = &results[i];
        proof {
            reveal(result_value);
            assert(all.take(i + 1).drop_last() =~= all.take(i as int));
            assert(all[i as int] == results@[i as int]@);
        }
        let output = match child.output_kind {
            OutputKind::Universal => match &child.universal_output {
                Some(expr) => share(expr),
                None => string(nowhere(), ""),
            },
            OutputKind::Dom => {
                proof {
                    output_keeps(context@, child@, *vocabulary);
                }
                build_dom_output_expr(child, context, vocabulary)
            },
        };
        outputs.push(output);
        i = i + 1;
    }
    proof {
        assert(all.take(i as int) =~= all);
    }
    outputs
}

/// Putting out a result does not change whether the page is hydrated.
pub proof fn output_keeps(ctx: ContextV, result: ResultV, vocabulary: Vocabulary)
    ensures
        output_v(ctx, result, vocabulary).0.hydratable == ctx.hydratable,
    decreases result, 0nat,
{
    if result.child_results.len() > 0 {
        outputs_keep(ctx, result.child_results, vocabulary);
    } else {
        let added = ctx.add_template(template_of(result)).0;
        let next = if result.skip_template {
            ctx
        } else {
            added
        };
        let next = if next.hydratable {
            next.register("getNextElement"@)
        } else {
            next
        };
        register_bindings_keep(next.register("effect"@), result.dynamics, vocabulary);
        register_bindings_keep(next, result.dynamics, vocabulary);
    }
}

proof fn outputs_keep(ctx: ContextV, results: Seq<ResultV>, vocabulary: Vocabulary)
    ensures
        outputs_v(ctx, results, vocabulary).0.hydratable == ctx.hydratable,
    decreases results, results.len(),
{
    if results.len() > 0 {
        outputs_keep(ctx, results.drop_last(), vocabulary);
        output_keeps(
            outputs_v(ctx, results.drop_last(), vocabulary).0,
            results[results.len() - 1],
            vocabulary,
        );
    }
}

} // verus!
