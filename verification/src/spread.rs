//! Spread attributes, and classes given more than once.

use crate::ast::{
    expr_values, group_values, key_value, no_span, nowhere, pattern_values, prop_values,
    quasi_values, stmt_values, Expr, ExprV, JsxAttr, JsxAttribute, JsxValue, Key, KeyV, Kind, KindV,
    LogicalOp, Pattern, Prop, PropKind, PropV, Quasi, QuasiV, Span, Stmt, StmtV,
};
use crate::attribute::{source_of, source_v};
use crate::attributes::{
    cloned, cloned_v, container_expr, dom_helper_expr, dom_helper_v, el, el_v, expr_in_container,
};
use crate::handlers::{or_undefined, or_undefined_v, undefined_v};
use crate::ir::{BlockContext, ContextV};
use crate::make::{
    bool_v, boolean, call, call3, call_v, copied, ident, logical, logical_v, node_v, object,
    object_v, str_v, string, template, unknown,
};
use crate::marker::{static_marker, static_marker_anywhere};
use crate::options::TransformOptions;
use crate::outside::{
    identifier_name, is_identifier_name, is_reserved_keyword, push_char, reserved_keyword, same,
    share,
};
use crate::text::{before_first, chars_of, join, join_v, split_once, texts};
use std::rc::Rc;
use vstd::prelude::*;

verus! {

broadcast use group_values;

// ---------------------------------------------------------------------------
// Property keys
// ---------------------------------------------------------------------------

/// A key as a name where it is one, else as a string.
pub open spec fn prop_key_v(key: Seq<char>) -> KeyV {
    if identifier_name(key) {
        KeyV::Ident(key)
    } else {
        KeyV::Str(key)
    }
}

/// A name that a getter can have.
pub open spec fn is_getter_name(key: Seq<char>) -> bool {
    identifier_name(key) && !reserved_keyword(key)
}

/// The key of a getter.
pub open spec fn getter_key_v(key: Seq<char>) -> KeyV {
    if is_getter_name(key) {
        KeyV::Ident(key)
    } else {
        KeyV::Str(key)
    }
}

/// A key as a name where it is one, else as a string.
pub fn make_prop_key(raw_key: &str) -> (key: Key)
    ensures
        key@ == prop_key_v(raw_key@),
{
    if is_identifier_name(raw_key) {
        Key::Ident(copied(raw_key))
    } else {
        Key::Str(copied(raw_key))
    }
}

/// The key of a getter, and whether it is a name.
pub fn make_getter_prop_key(raw_key: &str) -> (made: (Key, bool))
    ensures
        made.0@ == getter_key_v(raw_key@),
        made.1 == is_getter_name(raw_key@),
{
    if is_identifier_name(raw_key) && !is_reserved_keyword(raw_key) {
        (Key::Ident(copied(raw_key)), true)
    } else {
        (Key::Str(copied(raw_key)), false)
    }
}

/// `function () { return expr; }`.
pub open spec fn getter_v(expr: ExprV) -> ExprV {
    node_v(
        no_span(),
        KindV::Function {
            is_async: false,
            generator: false,
            name: None,
            params: seq![],
            body: seq![StmtV::Return(Some(expr))],
        },
    )
}

/// `function () { return expr; }`.
pub fn getter_return_expr(expr: Rc<Expr>) -> (getter: Rc<Expr>)
    ensures
        getter@ == getter_v(expr@),
{
    let mut body: Vec<Stmt> = Vec::new();
    let stmt = Stmt::Return(Some(expr));
    proof {
        assert(crate::ast::option_value(stmt->Return_0) == Some(expr@));
        assert(stmt@ == StmtV::Return(Some(expr@)));
    }
    body.push(stmt);
    let params: Vec<Pattern> = Vec::new();
    proof {
        assert(stmt_values(body@) =~= seq![StmtV::Return(Some(expr@))]);
        assert(pattern_values(params@) =~= seq![]);
    }
    let kind = Kind::Function { is_async: false, generator: false, name: None, params, body };
    proof {
        assert(crate::ast::kind_value(kind) == getter_v(expr@).kind);
    }
    Rc::new(Expr { span: nowhere(), facts: unknown(), kind })
}

/// An attribute that can be spread with the others.
pub open spec fn spreads(key: Seq<char>, check_namespaces: bool) -> bool {
    key != "ref"@ && !(check_namespaces && match before_first(key, ':') {
        Some(ns) => ns == "class"@ || ns == "style"@ || ns == "use"@ || ns == "prop"@ || ns
            == "attr"@ || ns == "bool"@,
        None => false,
    })
}

/// Whether an attribute can be spread with the others.
pub fn can_native_spread(key: &str, check_namespaces: bool) -> (yes: bool)
    ensures
        yes == spreads(key@, check_namespaces),
{
    if check_namespaces {
        if let Some((ns, _)) = split_once(key, ':') {
            let ns = ns.as_str();
            if same(ns, "class") || same(ns, "style") || same(ns, "use") || same(ns, "prop") || same(
                ns,
                "attr",
            ) || same(ns, "bool") {
                return false;
            }
        }
    }
    !same(key, "ref")
}

// ---------------------------------------------------------------------------
// Spreads
// ---------------------------------------------------------------------------

/// An attribute is read again and again.
pub open spec fn is_dynamic_prop(attr: JsxAttribute, source: Seq<char>, marker: Seq<char>) -> bool {
    match attr.value {
        JsxValue::Container { span, expr: Some(expr), .. } => !static_marker_anywhere(
            source,
            span,
            marker,
        ) && expr.facts.dynamic,
        _ => false,
    }
}

/// The value of an attribute that is read once.
pub open spec fn static_prop_value(attr: JsxAttribute, source: Seq<char>, marker: Seq<char>) -> ExprV {
    match attr.value {
        JsxValue::Str { value, .. } => str_v(attr.span, value@),
        JsxValue::Container { span, expr: Some(expr), .. } => if static_marker_anywhere(
            source,
            span,
            marker,
        ) {
            cloned_v(*expr, true)
        } else {
            match expr.facts.static_text {
                Some(text) => str_v(attr.span, text@.text()),
                None => expr@,
            }
        },
        JsxValue::Absent => bool_v(no_span(), true),
        _ => undefined_v(),
    }
}

/// An attribute as a property.
pub open spec fn attr_prop_v(attr: JsxAttribute, source: Seq<char>, marker: Seq<char>) -> PropV {
    if is_dynamic_prop(attr, source, marker) {
        PropV::Named {
            span: attr.span,
            kind: PropKind::Getter,
            key: getter_key_v(attr.key@),
            value: getter_v(or_undefined_v(container_expr(attr.value))),
            method: false,
            shorthand: false,
            computed: !is_getter_name(attr.key@),
        }
    } else {
        PropV::Named {
            span: attr.span,
            kind: PropKind::Init,
            key: prop_key_v(attr.key@),
            value: static_prop_value(attr, source, marker),
            method: false,
            shorthand: false,
            computed: false,
        }
    }
}

/// A spread attribute as an argument.
pub open spec fn spread_arg_v(span: Span, argument: Expr, marked: bool) -> ExprV {
    let value = if argument.facts.dynamic {
        source_v(argument)
    } else {
        cloned_v(argument, marked)
    };
    if marked {
        object_v(no_span(), seq![PropV::Spread { span, argument: value }])
    } else {
        value
    }
}

/// What the attributes of an element with spreads come to: those that are left,
/// the arguments to merge, and the properties that are not yet an argument.
pub ghost struct SpreadsV {
    pub left: Seq<JsxAttribute>,
    pub args: Seq<ExprV>,
    pub props: Seq<PropV>,
    pub dynamic: bool,
}

impl SpreadsV {
    /// With the properties made an argument.
    pub open spec fn flushed(self) -> SpreadsV {
        if self.props.len() == 0 {
            self
        } else {
            SpreadsV {
                args: self.args.push(object_v(no_span(), self.props)),
                props: seq![],
                ..self
            }
        }
    }
}

/// The attributes, one after the other.
pub open spec fn spreads_v(attrs: Seq<JsxAttr>, source: Seq<char>, marker: Seq<char>) -> SpreadsV
    decreases attrs.len(),
{
    if attrs.len() == 0 {
        SpreadsV { left: seq![], args: seq![], props: seq![], dynamic: false }
    } else {
        let head = spreads_v(attrs.drop_last(), source, marker);
        match attrs.last() {
            JsxAttr::Spread { span, argument } => {
                let flushed = head.flushed();
                SpreadsV {
                    args: flushed.args.push(
                        spread_arg_v(span, *argument, static_marker(source, span, marker)),
                    ),
                    dynamic: head.dynamic || argument.facts.dynamic,
                    ..flushed
                }
            },
            JsxAttr::Named(attr) => if spreads(attr.key@, true) {
                SpreadsV { props: head.props.push(attr_prop_v(attr, source, marker)), ..head }
            } else {
                SpreadsV { left: head.left.push(attr), ..head }
            },
        }
    }
}

/// The argument of the spread helper.
pub open spec fn spread_props_v(all: SpreadsV, ctx: ContextV) -> (ContextV, ExprV) {
    if all.args.len() == 1 && !all.dynamic {
        (ctx, all.args[0])
    } else {
        (ctx.register("mergeProps"@), call_v(no_span(), el_v("mergeProps"@), all.args))
    }
}

/// The call of the spread helper.
pub open spec fn spread_call_v(
    attrs: Seq<JsxAttr>,
    elem: Seq<char>,
    has_children: bool,
    ctx: ContextV,
    options: TransformOptions,
) -> (ContextV, Option<ExprV>) {
    let all = spreads_v(attrs, ctx.source, options.static_marker@).flushed();
    if all.args.len() == 0 {
        (ctx, None)
    } else {
        let props = spread_props_v(all, ctx);
        let helper = dom_helper_v(props.0, no_span(), "spread"@);
        (
            helper.0,
            Some(
                call_v(
                    no_span(),
                    helper.1,
                    seq![el_v(elem), props.1, bool_v(no_span(), has_children)],
                ),
            ),
        )
    }
}

fn attr_prop(attr: &JsxAttribute, context: &BlockContext, options: &TransformOptions) -> (prop: Prop)
    ensures
        prop@ == attr_prop_v(*attr, context@.source, options.static_marker@),
{
    let dynamic = match &attr.value {
        JsxValue::Container { span, expr: Some(expr), .. } => {
            !context.has_static_marker_comment_anywhere(*span, options.static_marker)
                && expr.facts.dynamic
        },
        _ => false,
    };
    if dynamic {
        let (key, is_name) = make_getter_prop_key(attr.key.as_str());
        let expr = or_undefined(expr_in_container(&attr.value));
        let prop = Prop::Named {
            span: attr.span,
            kind: PropKind::Getter,
            key,
            value: getter_return_expr(expr),
            method: false,
            shorthand: false,
            computed: !is_name,
        };
        proof {
            assert(key_value(key) == getter_key_v(attr.key@));
        }
        prop
    } else {
        let key = make_prop_key(attr.key.as_str());
        let value = match &attr.value {
            JsxValue::Str { value, .. } => string(attr.span, value.as_str()),
            JsxValue::Container { span, expr: Some(expr), .. } => {
                if context.has_static_marker_comment_anywhere(*span, options.static_marker) {
                    cloned(expr, true)
                } else {
                    match &expr.facts.static_text {
                        Some(text) => string(attr.span, text.as_text().as_str()),
                        None => share(expr),
                    }
                }
            },
            JsxValue::Absent => boolean(nowhere(), true),
            _ => ident(nowhere(), "undefined"),
        };
        let prop = Prop::Named {
            span: attr.span,
            kind: PropKind::Init,
            key,
            value,
            method: false,
            shorthand: false,
            computed: false,
        };
        proof {
            assert(key_value(key) == prop_key_v(attr.key@));
        }
        prop
    }
}

fn spread_arg(span: Span, argument: &Rc<Expr>, marked: bool) -> (arg: Rc<Expr>)
    ensures
        arg@ == spread_arg_v(span, **argument, marked),
{
    let value = if argument.facts.dynamic {
        source_of(argument)
    } else {
        cloned(argument, marked)
    };
    if marked {
        let mut props: Vec<Prop> = Vec::new();
        let prop = Prop::Spread { span, argument: value };
        proof {
            assert(prop@ == PropV::Spread { span, argument: value@ });
        }
        props.push(prop);
        proof {
            assert(prop_values(props@) =~= seq![PropV::Spread { span, argument: value@ }]);
        }
        object(nowhere(), props)
    } else {
        value
    }
}

/// The attributes that a list of references holds.
pub open spec fn attrs_of(items: Seq<&JsxAttribute>) -> Seq<JsxAttribute> {
    items.map_values(|a: &JsxAttribute| *a)
}

/// Takes the spreads of an element out of its attributes.
pub fn process_spreads<'e>(
    attrs: &'e Vec<JsxAttr>,
    elem_id: &str,
    has_children: bool,
    context: &mut BlockContext,
    options: &TransformOptions,
) -> (taken: (Vec<&'e JsxAttribute>, Option<Rc<Expr>>))
    ensures
        attrs_of(taken.0@) == spreads_v(
            attrs@,
            old(context)@.source,
            options.static_marker@,
        ).left,
        (final(context)@, crate::template::opt_expr(taken.1)) == spread_call_v(
            attrs@,
            elem_id@,
            has_children,
            old(context)@,
            *options,
        ),
{
    let ghost source = context@.source;
    let ghost marker = options.static_marker@;
    let mut left: Vec<&'e JsxAttribute> = Vec::new();
    let mut args: Vec<Rc<Expr>> = Vec::new();
    let mut props: Vec<Prop> = Vec::new();
    let mut dynamic = false;
    let mut i: usize = 0;
    proof {
        assert(attrs_of(left@) =~= seq![]);
        assert(expr_values(args@) =~= seq![]);
        assert(prop_values(props@) =~= seq![]);
    }
    while i < attrs.len()
        invariant
            i <= attrs.len(),
            source == context@.source,
            marker == options.static_marker@,
            *context == *old(context),
            (SpreadsV {
                left: attrs_of(left@),
                args: expr_values(args@),
                props: prop_values(props@),
                dynamic,
            }) == spreads_v(attrs@.take(i as int), source, marker),
        decreases attrs.len() - i,
    {
        proof {
            assert(attrs@.take(i + 1).drop_last() =~= attrs@.take(i as int));
            assert(attrs@.take(i + 1).last() == attrs@[i as int]);
        }
        match &attrs[i] {
            JsxAttr::Spread { span, argument } => {
                if props.len() > 0 {
                    args.push(object(nowhere(), props));
                    props = Vec::new();
                    proof {
                        assert(prop_values(props@) =~= seq![]);
                    }
                }
                let marked = context.has_static_marker_comment(*span, options.static_marker);
                args.push(spread_arg(*span, argument, marked));
                dynamic = dynamic || argument.facts.dynamic;
            },
            JsxAttr::Named(attr) => {
                if can_native_spread(attr.key.as_str(), true) {
                    props.push(attr_prop(attr, context, options));
                } else {
                    let ghost before = attrs_of(left@);
                    left.push(attr);
                    proof {
                        assert(attrs_of(left@) =~= before.push(*attr));
                    }
                }
            },
        }
        i = i + 1;
    }
    proof {
        assert(attrs@.take(i as int) =~= attrs@);
    }
    if props.len() > 0 {
        args.push(object(nowhere(), props));
    }
    if args.len() == 0 {
        return (left, None);
    }
    let merged = if args.len() == 1 && !dynamic {
        share(&args[0])
    } else {
        context.register_helper("mergeProps");
        call(nowhere(), el("mergeProps"), args)
    };
    let callee = dom_helper_expr(context, nowhere(), "spread");
    let flag = boolean(nowhere(), has_children);
    (left, Some(call3(nowhere(), callee, el(elem_id), merged, flag)))
}

// ---------------------------------------------------------------------------
// Merged classes
// ---------------------------------------------------------------------------

/// One of several class attributes.
pub ghost enum ClassPartV {
    Static(Seq<char>),
    Dynamic(ExprV),
}

pub open spec fn class_part_v(attr: JsxAttribute) -> Option<ClassPartV> {
    match attr.value {
        JsxValue::Str { value, .. } => Some(ClassPartV::Static(value@)),
        JsxValue::Container { expr: Some(expr), .. } => match expr.kind {
            Kind::Str(text) => Some(ClassPartV::Static(text@)),
            Kind::Num(number) => Some(ClassPartV::Static(number.text@)),
            Kind::Null => None,
            Kind::Ident { name, .. } => if name@ == "undefined"@ {
                None
            } else {
                Some(ClassPartV::Dynamic(expr@))
            },
            _ => Some(ClassPartV::Dynamic(expr@)),
        },
        _ => None,
    }
}

/// The parts of several class attributes.
pub open spec fn class_parts_v(attrs: Seq<JsxAttribute>) -> Seq<ClassPartV>
    decreases attrs.len(),
{
    if attrs.len() == 0 {
        seq![]
    } else {
        let head = class_parts_v(attrs.drop_last());
        match class_part_v(attrs.last()) {
            Some(part) => head.push(part),
            None => head,
        }
    }
}

/// The static parts that are not empty.
pub open spec fn static_classes_v(parts: Seq<ClassPartV>) -> Seq<Seq<char>>
    decreases parts.len(),
{
    if parts.len() == 0 {
        seq![]
    } else {
        let head = static_classes_v(parts.drop_last());
        match parts.last() {
            ClassPartV::Static(text) => if text.len() > 0 {
                head.push(text)
            } else {
                head
            },
            ClassPartV::Dynamic(_) => head,
        }
    }
}

/// Some part is dynamic.
pub open spec fn has_dynamic_part(parts: Seq<ClassPartV>) -> bool {
    exists|i: int| 0 <= i < parts.len() && (#[trigger] parts[i]) is Dynamic
}

/// A static class behind what stands in a piece of the literal.
pub open spec fn class_piece(piece: Seq<char>, text: Seq<char>, last: bool) -> Seq<char> {
    if text.len() == 0 {
        piece
    } else {
        (if piece.len() > 0 && piece.last() != ' ' {
            piece.push(' ')
        } else {
            piece
        }) + text + (if last {
            Seq::<char>::empty()
        } else {
            seq![' ']
        })
    }
}

/// The pieces and values of the template literal of the first `n` parts.
pub open spec fn class_pieces_v(parts: Seq<ClassPartV>, n: nat) -> (Seq<Seq<char>>, Seq<ExprV>)
    decreases n,
{
    if n == 0 {
        (seq![seq![]], seq![])
    } else {
        let head = class_pieces_v(parts, (n - 1) as nat);
        let last = n == parts.len();
        match parts[n - 1] {
            ClassPartV::Static(text) => (
                head.0.drop_last().push(class_piece(head.0.last(), text, last)),
                head.1,
            ),
            ClassPartV::Dynamic(expr) => (
                head.0.push(
                    if last {
                        Seq::<char>::empty()
                    } else {
                        seq![' ']
                    },
                ),
                head.1.push(
                    logical_v(no_span(), expr, LogicalOp::Or, str_v(no_span(), ""@)),
                ),
            ),
        }
    }
}

/// A template literal of these pieces.
pub open spec fn pieces_template_v(pieces: Seq<Seq<char>>, values: Seq<ExprV>) -> ExprV {
    node_v(
        no_span(),
        KindV::Template {
            quasis: pieces.map_values(|p: Seq<char>| QuasiV { raw: p, cooked: Some(p) }),
            exprs: values,
        },
    )
}

/// Several class attributes in one.
pub ghost enum MergedClassV {
    Static(Seq<char>),
    Dynamic(ExprV),
}

/// Several class attributes in one; `None` where none of them says anything.
pub open spec fn merged_class_v(attrs: Seq<JsxAttribute>) -> Option<MergedClassV> {
    let parts = class_parts_v(attrs);
    if parts.len() == 0 {
        None
    } else if !has_dynamic_part(parts) {
        Some(MergedClassV::Static(join_v(static_classes_v(parts), " "@)))
    } else {
        let pieces = class_pieces_v(parts, parts.len());
        Some(MergedClassV::Dynamic(pieces_template_v(pieces.0, pieces.1)))
    }
}

/// One of several class attributes.
pub enum ClassPart {
    Static(String),
    Dynamic(Rc<Expr>),
}

impl View for ClassPart {
    type V = ClassPartV;

    open spec fn view(&self) -> ClassPartV {
        match *self {
            ClassPart::Static(text) => ClassPartV::Static(text@),
            ClassPart::Dynamic(expr) => ClassPartV::Dynamic(expr@),
        }
    }
}

/// Several class attributes in one.
pub enum MergedClass {
    Static(String),
    Dynamic(Rc<Expr>),
}

impl View for MergedClass {
    type V = MergedClassV;

    open spec fn view(&self) -> MergedClassV {
        match *self {
            MergedClass::Static(text) => MergedClassV::Static(text@),
            MergedClass::Dynamic(expr) => MergedClassV::Dynamic(expr@),
        }
    }
}

pub open spec fn part_values(items: Seq<ClassPart>) -> Seq<ClassPartV> {
    items.map_values(|p: ClassPart| p@)
}

fn class_part(attr: &JsxAttribute) -> (part: Option<ClassPart>)
    ensures
        (match part {
            Some(part) => Some(part@),
            None => None,
        }) == class_part_v(*attr),
{
    match &attr.value {
        JsxValue::Str { value, .. } => Some(ClassPart::Static(value.clone())),
        JsxValue::Container { expr: Some(expr), .. } => match &expr.kind {
            Kind::Str(text) => Some(ClassPart::Static(text.clone())),
            Kind::Num(number) => Some(ClassPart::Static(number.text.clone())),
            Kind::Null => None,
            Kind::Ident { name, .. } => if same(name.as_str(), "undefined") {
                None
            } else {
                Some(ClassPart::Dynamic(share(expr)))
            },
            _ => Some(ClassPart::Dynamic(share(expr))),
        },
        _ => None,
    }
}

pub fn class_parts(attrs: &Vec<&JsxAttribute>) -> (parts: Vec<ClassPart>)
    ensures
        part_values(parts@) == class_parts_v(attrs_of(attrs@)),
{
    let ghost all = attrs_of(attrs@);
    let mut parts: Vec<ClassPart> = Vec::new();
    let mut i: usize = 0;
    proof {
        assert(part_values(parts@) =~= class_parts_v(all.take(0)));
    }
    while i < attrs.len()
        invariant
            i <= attrs.len(),
            all == attrs_of(attrs@),
            part_values(parts@) == class_parts_v(all.take(i as int)),
        decreases attrs.len() - i,
    {
        proof {
            assert(all.take(i + 1).drop_last() =~= all.take(i as int));
            assert(all.take(i + 1).last() == *attrs@[i as int]);
        }
        if let Some(part) = class_part(attrs[i]) {
            let ghost before = part_values(parts@);
            parts.push(part);
            proof {
                assert(part_values(parts@) =~= before.push(part@));
            }
        }
        i = i + 1;
    }
    proof {
        assert(all.take(i as int) =~= all);
    }
    parts
}

pub fn any_dynamic(parts: &Vec<ClassPart>) -> (yes: bool)
    ensures
        yes == has_dynamic_part(part_values(parts@)),
{
    let ghost all = part_values(parts@);
    let mut i: usize = 0;
    while i < parts.len()
        invariant
            i <= parts.len(),
            all == part_values(parts@),
            forall|k: int| 0 <= k < i ==> !((#[trigger] all[k]) is Dynamic),
        decreases parts.len() - i,
    {
        let dynamic = match &parts[i] {
            ClassPart::Dynamic(_) => true,
            ClassPart::Static(_) => false,
        };
        if dynamic {
            proof {
                assert(all[i as int] is Dynamic);
            }
            return true;
        }
        i = i + 1;
    }
    false
}

fn static_classes(parts: &Vec<ClassPart>) -> (classes: Vec<String>)
    ensures
        texts(classes@) == static_classes_v(part_values(parts@)),
{
    let ghost all = part_values(parts@);
    let mut classes: Vec<String> = Vec::new();
    let mut i: usize = 0;
    proof {
        assert(texts(classes@) =~= static_classes_v(all.take(0)));
    }
    while i < parts.len()
        invariant
            i <= parts.len(),
            all == part_values(parts@),
            texts(classes@) == static_classes_v(all.take(i as int)),
        decreases parts.len() - i,
    {
        proof {
            assert(all.take(i + 1).drop_last() =~= all.take(i as int));
            assert(all.take(i + 1).last() == parts@[i as int]@);
        }
        if let ClassPart::Static(text) = &parts[i] {
            if !text.as_str().is_empty() {
                let ghost before = texts(classes@);
                classes.push(text.clone());
                proof {
                    assert(texts(classes@) =~= before.push(text@));
                }
            }
        }
        i = i + 1;
    }
    proof {
        assert(all.take(i as int) =~= all);
    }
    classes
}

fn extend_piece(piece: String, text: &str, last: bool) -> (extended: String)
    ensures
        extended@ == class_piece(piece@, text@, last),
{
    let mut extended = piece;
    if !text.is_empty() {
        let chars = chars_of(extended.as_str());
        let n: usize = chars.len();
        if n > 0 && chars[n - 1] != ' ' {
            push_char(&mut extended, ' ');
        }
        extended.append(text);
        if !last {
            push_char(&mut extended, ' ');
        }
        proof {
            assert(extended@ =~= class_piece(piece@, text@, last));
        }
    }
    extended
}

fn class_template(parts: &Vec<ClassPart>) -> (expr: Rc<Expr>)
    ensures
        expr@ == pieces_template_v(
            class_pieces_v(part_values(parts@), parts@.len()).0,
            class_pieces_v(part_values(parts@), parts@.len()).1,
        ),
{
    let ghost all = part_values(parts@);
    let mut done: Vec<Quasi> = Vec::new();
    let mut piece = String::new();
    let mut values: Vec<Rc<Expr>> = Vec::new();
    let ghost mut pieces: Seq<Seq<char>> = seq![];
    let mut i: usize = 0;
    proof {
        assert(pieces.push(piece@) =~= class_pieces_v(all, 0).0);
        assert(expr_values(values@) =~= seq![]);
        assert(quasi_values(done@) =~= pieces.map_values(
            |p: Seq<char>| QuasiV { raw: p, cooked: Some(p) },
        ));
    }
    while i < parts.len()
        invariant
            i <= parts.len(),
            all == part_values(parts@),
            class_pieces_v(all, i as nat) == (pieces.push(piece@), expr_values(values@)),
            quasi_values(done@) == pieces.map_values(
                |p: Seq<char>| QuasiV { raw: p, cooked: Some(p) },
            ),
        decreases parts.len() - i,
    {
        let last = i + 1 == parts.len();
        proof {
            assert(all[i as int] == parts@[i as int]@);
            assert(pieces.push(piece@).drop_last() =~= pieces);
        }
        match &parts[i] {
            ClassPart::Static(text) => {
                piece = extend_piece(piece, text.as_str(), last);
            },
            ClassPart::Dynamic(expr) => {
                let empty = string(nowhere(), "");
                values.push(logical(nowhere(), share(expr), LogicalOp::Or, empty));
                let ghost before = quasi_values(done@);
                let quasi = Quasi { raw: piece.clone(), cooked: Some(piece) };
                done.push(quasi);
                proof {
                    pieces = pieces.push(quasi.raw@);
                    assert(quasi@ == QuasiV { raw: quasi.raw@, cooked: Some(quasi.raw@) });
                    assert(quasi_values(done@) =~= before.push(quasi@));
                    assert(quasi_values(done@) =~= pieces.map_values(
                        |p: Seq<char>| QuasiV { raw: p, cooked: Some(p) },
                    ));
                }
                piece = String::new();
                if !last {
                    push_char(&mut piece, ' ');
                }
                proof {
                    assert(piece@ =~= if last {
                        Seq::<char>::empty()
                    } else {
                        seq![' ']
                    });
                }
            },
        }
        i = i + 1;
    }
    let ghost before = quasi_values(done@);
    let quasi = Quasi { raw: piece.clone(), cooked: Some(piece) };
    done.push(quasi);
    proof {
        pieces = pieces.push(quasi.raw@);
        assert(quasi@ == QuasiV { raw: quasi.raw@, cooked: Some(quasi.raw@) });
        assert(quasi_values(done@) =~= before.push(quasi@));
        assert(quasi_values(done@) =~= pieces.map_values(
            |p: Seq<char>| QuasiV { raw: p, cooked: Some(p) },
        ));
    }
    template(nowhere(), done, values)
}

/// Makes one of several class attributes.
pub fn build_merged_class_value(attrs: &Vec<&JsxAttribute>) -> (merged: Option<MergedClass>)
    ensures
        (match merged {
            Some(merged) => Some(merged@),
            None => None,
        }) == merged_class_v(attrs_of(attrs@)),
{
    let parts = class_parts(attrs);
    if parts.len() == 0 {
        return None;
    }
    if !any_dynamic(&parts) {
        let classes = static_classes(&parts);
        return Some(MergedClass::Static(join(&classes, " ")));
    }
    Some(MergedClass::Dynamic(class_template(&parts)))
}

} // verus!
