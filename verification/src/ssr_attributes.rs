//! All attributes of an element that is rendered on a server.  Styles and
//! classes that are given one by one are merged into objects.

use crate::ast::{
    expr_value, group_values, kind_value, no_span, nowhere, prop_value, prop_values, Expr, ExprV,
    Facts, JsxAttr, JsxAttribute, JsxValue, Key, KeyV, Kind, KindV, Prop, PropKind, PropV, Span,
};
use crate::copy::copied_props;
use crate::make::{bool_v, boolean, copied, str_v, string};
use crate::options::TransformOptions;
use crate::outside::{same, share};
use crate::peel::{peel_wrapped_expression, peeled_v, peeled_value};
use crate::ssr::{SsrContext, SsrContextV, SsrResult, SsrResultV};
use crate::ssr_attribute::{attr_v, expr_attr_v, transform_attribute, transform_expression_attribute};
use crate::text::{starts_with, strip_prefix};
use crate::vocabulary::Vocabulary;
use std::rc::Rc;
use vstd::prelude::*;

verus! {

// ---------------------------------------------------------------------------
// Properties that are given one by one
// ---------------------------------------------------------------------------

/// A property that is given by an attribute such as `style:color`.
#[derive(Debug)]
pub struct NamespaceProperty {
    pub name: String,
    pub value: Rc<Expr>,
    pub span: Span,
}

pub ghost struct NamespacePropertyV {
    pub name: Seq<char>,
    pub value: ExprV,
    pub span: Span,
}

impl View for NamespaceProperty {
    type V = NamespacePropertyV;

    open spec fn view(&self) -> NamespacePropertyV {
        NamespacePropertyV { name: self.name@, value: self.value@, span: self.span }
    }
}

pub open spec fn namespace_values(items: Seq<NamespaceProperty>) -> Seq<NamespacePropertyV> {
    items.map_values(|p: NamespaceProperty| p@)
}

/// The value of such an attribute, and where it stands.
pub open spec fn namespace_value_v(attr: JsxAttribute) -> Option<(ExprV, Span)> {
    match attr.value {
        JsxValue::Container { span, expr: Some(expr), .. } => Some((expr@, span)),
        JsxValue::Str { value, .. } => Some((str_v(no_span(), value@), attr.span)),
        JsxValue::Absent => Some((bool_v(no_span(), true), attr.span)),
        _ => None,
    }
}

/// The property that an attribute gives in a namespace.
pub open spec fn given_in_v(attr: JsxAttr, prefix: Seq<char>) -> Option<NamespacePropertyV> {
    match attr {
        JsxAttr::Named(attr) => if starts_with(attr.key@, prefix) {
            match namespace_value_v(attr) {
                Some((value, span)) => Some(
                    NamespacePropertyV { name: attr.key@.skip(prefix.len() as int), value, span },
                ),
                None => None,
            }
        } else {
            None
        },
        JsxAttr::Spread { .. } => None,
    }
}

/// The properties that attributes give in a namespace, with their positions.
pub open spec fn all_given_in_v(attrs: Seq<JsxAttr>, prefix: Seq<char>) -> (
    Seq<NamespacePropertyV>,
    Seq<nat>,
)
    decreases attrs.len(),
{
    if attrs.len() == 0 {
        (seq![], seq![])
    } else {
        let before = all_given_in_v(attrs.drop_last(), prefix);
        match given_in_v(attrs.last(), prefix) {
            Some(prop) => (before.0.push(prop), before.1.push((attrs.len() - 1) as nat)),
            None => before,
        }
    }
}

fn namespace_property_value(attr: &JsxAttribute) -> (value: Option<(Rc<Expr>, Span)>)
    ensures
        match value {
            Some((value, span)) => namespace_value_v(*attr) == Some((value@, span)),
            None => namespace_value_v(*attr) is None,
        },
{
    match &attr.value {
        JsxValue::Container { span, expr: Some(expr), .. } => Some((share(expr), *span)),
        JsxValue::Str { value, .. } => Some((string(nowhere(), value.as_str()), attr.span)),
        JsxValue::Absent => Some((boolean(nowhere(), true), attr.span)),
        _ => None,
    }
}

fn given_in(attr: &JsxAttr, prefix: &str) -> (prop: Option<NamespaceProperty>)
    ensures
        match prop {
            Some(prop) => given_in_v(*attr, prefix@) == Some(prop@),
            None => given_in_v(*attr, prefix@) is None,
        },
{
    match attr {
        JsxAttr::Named(attr) => match strip_prefix(attr.key.as_str(), prefix) {
            Some(name) => match namespace_property_value(attr) {
                Some((value, span)) => Some(
                    NamespaceProperty { name: copied(name), value, span },
                ),
                None => None,
            },
            None => None,
        },
        JsxAttr::Spread { .. } => None,
    }
}

pub open spec fn nats(items: Seq<usize>) -> Seq<nat> {
    items.map_values(|i: usize| i as nat)
}

fn all_given_in(attrs: &Vec<JsxAttr>, prefix: &str) -> (given: (
    Vec<NamespaceProperty>,
    Vec<usize>,
))
    ensures
        (namespace_values(given.0@), nats(given.1@)) == all_given_in_v(attrs@, prefix@),
{
    let mut props: Vec<NamespaceProperty> = Vec::new();
    let mut places: Vec<usize> = Vec::new();
    let mut i: usize = 0;
    proof {
        assert(namespace_values(props@) =~= seq![]);
        assert(nats(places@) =~= seq![]);
    }
    while i < attrs.len()
        invariant
            i <= attrs.len(),
            (namespace_values(props@), nats(places@)) == all_given_in_v(
                attrs@.take(i as int),
                prefix@,
            ),
        decreases attrs.len() - i,
    {
        proof {
            assert(attrs@.take(i + 1).drop_last() =~= attrs@.take(i as int));
            assert(attrs@.take(i + 1).last() == attrs@[i as int]);
        }
        if let Some(prop) = given_in(&attrs[i], prefix) {
            let ghost props0 = props@;
            let ghost places0 = places@;
            props.push(prop);
            places.push(i);
            proof {
                assert(namespace_values(props@) =~= namespace_values(props0).push(prop@));
                assert(nats(places@) =~= nats(places0).push(i as nat));
            }
        }
        i = i + 1;
    }
    proof {
        assert(attrs@.take(attrs@.len() as int) =~= attrs@);
    }
    (props, places)
}

/// The properties as properties of an object.
pub open spec fn object_props_v(props: Seq<NamespacePropertyV>) -> Seq<PropV> {
    props.map_values(
        |p: NamespacePropertyV|
            PropV::Named {
                span: no_span(),
                kind: PropKind::Init,
                key: KeyV::Str(p.name),
                value: p.value,
                method: false,
                shorthand: false,
                computed: false,
            },
    )
}

/// Some property changes.
pub open spec fn any_dynamic(props: Seq<NamespacePropertyV>) -> bool {
    exists|i: int| 0 <= i < props.len() && (#[trigger] props[i]).value.facts.dynamic
}

/// An object that changes where `dynamic`.
pub open spec fn object_expr_v(props: Seq<PropV>, dynamic: bool) -> ExprV {
    ExprV {
        span: no_span(),
        facts: Facts { dynamic, static_text: None, condition: None },
        kind: KindV::Object(props),
    }
}

fn object_expr(props: Vec<Prop>, dynamic: bool) -> (expr: Rc<Expr>)
    ensures
        expr@ == object_expr_v(prop_values(props@), dynamic),
{
    let kind = Kind::Object(props);
    proof {
        assert(kind_value(kind) == KindV::Object(prop_values(props@)));
    }
    Rc::new(
        Expr {
            span: nowhere(),
            facts: Facts { dynamic, static_text: None, condition: None },
            kind,
        },
    )
}

fn push_namespace_props(list: &mut Vec<Prop>, props: &Vec<NamespaceProperty>) -> (dynamic: bool)
    ensures
        prop_values(final(list)@) == prop_values(old(list)@) + object_props_v(
            namespace_values(props@),
        ),
        dynamic == any_dynamic(namespace_values(props@)),
{
    broadcast use group_values;

    let ghost values = namespace_values(props@);
    let ghost added = object_props_v(values);
    let mut dynamic = false;
    let mut i: usize = 0;
    proof {
        assert(prop_values(list@) + added.take(0) =~= prop_values(list@));
    }
    while i < props.len()
        invariant
            i <= props.len(),
            values == namespace_values(props@),
            added == object_props_v(values),
            prop_values(list@) == prop_values(old(list)@) + added.take(i as int),
            dynamic == exists|k: int| 0 <= k < i && (#[trigger] values[k]).value.facts.dynamic,
        decreases props.len() - i,
    {
        let prop = Prop::Named {
            span: nowhere(),
            kind: PropKind::Init,
            key: Key::Str(props[i].name.clone()),
            value: share(&props[i].value),
            method: false,
            shorthand: false,
            computed: false,
        };
        proof {
            reveal_with_fuel(prop_value, 2);
            assert(values[i as int] == props@[i as int]@);
            assert(prop@ == added[i as int]);
            assert(prop_values(old(list)@) + added.take(i + 1) =~= (prop_values(old(list)@)
                + added.take(i as int)).push(added[i as int]));
        }
        list.push(prop);
        dynamic = dynamic || props[i].value.facts.dynamic;
        i = i + 1;
    }
    proof {
        assert(added.take(added.len() as int) =~= added);
    }
    dynamic
}

/// The properties as an object.
pub open spec fn namespace_object_v(props: Seq<NamespacePropertyV>) -> ExprV {
    object_expr_v(object_props_v(props), any_dynamic(props))
}

fn build_namespace_object_expression(props: &Vec<NamespaceProperty>) -> (expr: Rc<Expr>)
    ensures
        expr@ == namespace_object_v(namespace_values(props@)),
{
    let mut list: Vec<Prop> = Vec::new();
    let dynamic = push_namespace_props(&mut list, props);
    proof {
        assert(prop_values(Seq::<Prop>::empty()) =~= seq![]);
        assert(prop_values(list@) =~= object_props_v(namespace_values(props@)));
    }
    object_expr(list, dynamic)
}

/// An object with more properties.
pub open spec fn merged_object_v(expr: ExprV, props: Seq<NamespacePropertyV>) -> Option<ExprV> {
    match peeled_v(expr).kind {
        KindV::Object(own) => Some(
            object_expr_v(
                own + object_props_v(props),
                peeled_v(expr).facts.dynamic || any_dynamic(props),
            ),
        ),
        _ => None,
    }
}

fn merge_namespace_object_expression(expr: &Expr, props: &Vec<NamespaceProperty>) -> (merged: Option<
    Rc<Expr>,
>)
    ensures
        match merged {
            Some(merged) => merged_object_v(expr@, namespace_values(props@)) == Some(merged@),
            None => merged_object_v(expr@, namespace_values(props@)) is None,
        },
{
    proof {
        peeled_value(expr);
        reveal_with_fuel(expr_value, 2);
        reveal_with_fuel(kind_value, 2);
    }
    let inner = peel_wrapped_expression(expr);
    match &inner.kind {
        Kind::Object(own) => {
            let mut list = copied_props(own);
            let dynamic = push_namespace_props(&mut list, props);
            Some(object_expr(list, inner.facts.dynamic || dynamic))
        },
        _ => None,
    }
}

/// Where the first property stands.
pub open spec fn first_span_v(props: Seq<NamespacePropertyV>) -> Span {
    if props.len() > 0 {
        props[0].span
    } else {
        no_span()
    }
}

fn first_namespace_span(props: &Vec<NamespaceProperty>) -> (span: Span)
    ensures
        span == first_span_v(namespace_values(props@)),
{
    if props.len() > 0 {
        proof {
            assert(namespace_values(props@)[0] == props@[0]@);
        }
        props[0].span
    } else {
        nowhere()
    }
}

// ---------------------------------------------------------------------------
// Positions
// ---------------------------------------------------------------------------

pub open spec fn has_key(attr: JsxAttr, key: Seq<char>) -> bool {
    attr matches JsxAttr::Named(attr) && attr.key@ == key
}

/// The positions of the attributes of a name.
pub open spec fn places_v(attrs: Seq<JsxAttr>, key: Seq<char>) -> Seq<nat>
    decreases attrs.len(),
{
    if attrs.len() == 0 {
        seq![]
    } else {
        let before = places_v(attrs.drop_last(), key);
        if has_key(attrs.last(), key) {
            before.push((attrs.len() - 1) as nat)
        } else {
            before
        }
    }
}

fn places_of(attrs: &Vec<JsxAttr>, key: &str) -> (places: Vec<usize>)
    ensures
        nats(places@) == places_v(attrs@, key@),
{
    let mut places: Vec<usize> = Vec::new();
    let mut i: usize = 0;
    proof {
        assert(nats(places@) =~= seq![]);
    }
    while i < attrs.len()
        invariant
            i <= attrs.len(),
            nats(places@) == places_v(attrs@.take(i as int), key@),
        decreases attrs.len() - i,
    {
        proof {
            assert(attrs@.take(i + 1).drop_last() =~= attrs@.take(i as int));
            assert(attrs@.take(i + 1).last() == attrs@[i as int]);
        }
        if let JsxAttr::Named(attr) = &attrs[i] {
            if same(attr.key.as_str(), key) {
                let ghost before = places@;
                places.push(i);
                proof {
                    assert(nats(places@) =~= nats(before).push(i as nat));
                }
            }
        }
        i = i + 1;
    }
    proof {
        assert(attrs@.take(attrs@.len() as int) =~= attrs@);
    }
    places
}

/// The positions of the attributes that are no spreads.
pub open spec fn named_places_v(attrs: Seq<JsxAttr>) -> Seq<nat>
    decreases attrs.len(),
{
    if attrs.len() == 0 {
        seq![]
    } else {
        let before = named_places_v(attrs.drop_last());
        if attrs.last() is Named {
            before.push((attrs.len() - 1) as nat)
        } else {
            before
        }
    }
}

fn named_places(attrs: &Vec<JsxAttr>) -> (places: Vec<usize>)
    ensures
        nats(places@) == named_places_v(attrs@),
{
    let mut places: Vec<usize> = Vec::new();
    let mut i: usize = 0;
    proof {
        assert(nats(places@) =~= seq![]);
    }
    while i < attrs.len()
        invariant
            i <= attrs.len(),
            nats(places@) == named_places_v(attrs@.take(i as int)),
        decreases attrs.len() - i,
    {
        proof {
            assert(attrs@.take(i + 1).drop_last() =~= attrs@.take(i as int));
            assert(attrs@.take(i + 1).last() == attrs@[i as int]);
        }
        if let JsxAttr::Named(_) = &attrs[i] {
            let ghost before = places@;
            places.push(i);
            proof {
                assert(nats(places@) =~= nats(before).push(i as nat));
            }
        }
        i = i + 1;
    }
    proof {
        assert(attrs@.take(attrs@.len() as int) =~= attrs@);
    }
    places
}

/// What is taken out of `live` when each position of `at` is taken out in turn,
/// though the positions shift: the rest, and what was taken.
pub open spec fn spliced_v(live: Seq<nat>, at: Seq<nat>) -> (Seq<nat>, Seq<nat>)
    decreases at.len(),
{
    if at.len() == 0 {
        (live, seq![])
    } else {
        let before = spliced_v(live, at.drop_last());
        if at.last() < before.0.len() {
            (
                before.0.remove(at.last() as int),
                before.1.push(before.0[at.last() as int]),
            )
        } else {
            before
        }
    }
}

fn splice(live: Vec<usize>, at: &Vec<usize>) -> (taken: Vec<usize>)
    ensures
        nats(taken@) == spliced_v(nats(live@), nats(at@)).1,
{
    let ghost all = nats(at@);
    let ghost start = nats(live@);
    let mut rest = live;
    let mut taken: Vec<usize> = Vec::new();
    let mut i: usize = 0;
    proof {
        assert(nats(taken@) =~= seq![]);
        assert(all.take(0) =~= seq![]);
    }
    while i < at.len()
        invariant
            i <= at.len(),
            all == nats(at@),
            (nats(rest@), nats(taken@)) == spliced_v(start, all.take(i as int)),
        decreases at.len() - i,
    {
        let place: usize = at[i];
        let ghost rest0 = rest@;
        let ghost taken0 = taken@;
        proof {
            assert(all.take(i + 1).drop_last() =~= all.take(i as int));
            assert(all.take(i + 1).last() == place as nat);
        }
        if place < rest.len() {
            let item: usize = rest.remove(place);
            taken.push(item);
            proof {
                assert(nats(rest@) =~= nats(rest0).remove(place as int));
                assert(nats(taken@) =~= nats(taken0).push(nats(rest0)[place as int]));
            }
        }
        i = i + 1;
    }
    proof {
        assert(all.take(all.len() as int) =~= all);
    }
    taken
}

fn holds(items: &Vec<usize>, item: usize) -> (yes: bool)
    ensures
        yes == nats(items@).contains(item as nat),
{
    let mut i: usize = 0;
    while i < items.len()
        invariant
            i <= items.len(),
            forall|k: int| 0 <= k < i ==> #[trigger] items@[k] != item,
        decreases items.len() - i,
    {
        if items[i] == item {
            proof {
                assert(nats(items@)[i as int] == item as nat);
            }
            return true;
        }
        i = i + 1;
    }
    proof {
        assert forall|k: int| 0 <= k < items@.len() implies nats(items@)[k] != item as nat by {
            assert(items@[k] != item);
        }
    }
    false
}

// ---------------------------------------------------------------------------
// All attributes
// ---------------------------------------------------------------------------

/// What is known of the attributes before they are transformed.
#[derive(Debug)]
pub struct Plan {
    /// The styles that are given one by one, and where.
    pub styles: Vec<NamespaceProperty>,
    pub style_places: Vec<usize>,
    /// The classes that are given one by one, and where.
    pub classes: Vec<NamespaceProperty>,
    pub class_places: Vec<usize>,
    /// The first attribute `style`.
    pub style_attr: Option<usize>,
    /// The last attribute `class`, and whether there are several.
    pub class_attr: Option<usize>,
    pub several_classes: bool,
    /// Attributes that are dropped, and whether that attribute is one of them.
    pub dropped: Vec<usize>,
    pub class_dropped: bool,
}

pub ghost struct PlanV {
    pub styles: Seq<NamespacePropertyV>,
    pub style_places: Seq<nat>,
    pub classes: Seq<NamespacePropertyV>,
    pub class_places: Seq<nat>,
    pub style_attr: Option<nat>,
    pub class_attr: Option<nat>,
    pub several_classes: bool,
    pub dropped: Seq<nat>,
    pub class_dropped: bool,
}

pub open spec fn opt_nat(place: Option<usize>) -> Option<nat> {
    match place {
        Some(place) => Some(place as nat),
        None => None,
    }
}

impl View for Plan {
    type V = PlanV;

    open spec fn view(&self) -> PlanV {
        PlanV {
            styles: namespace_values(self.styles@),
            style_places: nats(self.style_places@),
            classes: namespace_values(self.classes@),
            class_places: nats(self.class_places@),
            style_attr: opt_nat(self.style_attr),
            class_attr: opt_nat(self.class_attr),
            several_classes: self.several_classes,
            dropped: nats(self.dropped@),
            class_dropped: self.class_dropped,
        }
    }
}

/// A class beside classes that are given one by one: these are taken out by
/// positions that have shifted, and what lies there is dropped in their place.
#[verifier::opaque]
pub open spec fn plan_v(attrs: Seq<JsxAttr>) -> PlanV {
    let styles = all_given_in_v(attrs, "style:"@);
    let classes = all_given_in_v(attrs, "class:"@);
    let style = places_v(attrs, "style"@);
    let class = places_v(attrs, "class"@);
    let dropped = if class.len() > 0 {
        spliced_v(named_places_v(attrs), classes.1).1
    } else {
        seq![]
    };
    PlanV {
        styles: styles.0,
        style_places: styles.1,
        classes: classes.0,
        class_places: classes.1,
        style_attr: if style.len() > 0 {
            Some(style[0])
        } else {
            None
        },
        class_attr: if class.len() > 0 {
            Some(class.last())
        } else {
            None
        },
        several_classes: class.len() > 1,
        dropped,
        class_dropped: class.len() > 0 && dropped.contains(class.last()),
    }
}

fn make_plan(attrs: &Vec<JsxAttr>) -> (plan: Plan)
    ensures
        plan@ == plan_v(attrs@),
{
    proof {
        reveal(plan_v);
    }
    let (styles, style_places) = all_given_in(attrs, "style:");
    let (classes, class_places) = all_given_in(attrs, "class:");
    let style = places_of(attrs, "style");
    let class = places_of(attrs, "class");
    let style_attr = if style.len() > 0 {
        proof {
            assert(nats(style@)[0] == style@[0] as nat);
        }
        Some(style[0])
    } else {
        None
    };
    let several_classes = class.len() > 1;
    if class.len() > 0 {
        let last: usize = class[class.len() - 1];
        proof {
            assert(nats(class@).last() == last as nat);
        }
        let dropped = splice(named_places(attrs), &class_places);
        let class_dropped = holds(&dropped, last);
        Plan {
            styles,
            style_places,
            classes,
            class_places,
            style_attr,
            class_attr: Some(last),
            several_classes,
            dropped,
            class_dropped,
        }
    } else {
        let dropped: Vec<usize> = Vec::new();
        proof {
            assert(nats(dropped@) =~= seq![]);
        }
        Plan {
            styles,
            style_places,
            classes,
            class_places,
            style_attr,
            class_attr: None,
            several_classes,
            dropped,
            class_dropped: false,
        }
    }
}

/// The attributes so far: the result, the context, and whether the styles and
/// classes that are given one by one are in it.
pub ghost struct SetV {
    pub result: SsrResultV,
    pub ctx: SsrContextV,
    pub styled: bool,
    pub classed: bool,
}

/// A merged object as an attribute.
pub open spec fn merged_attr_v(
    key: Seq<char>,
    object: ExprV,
    span: Span,
    is_svg: bool,
    state: SetV,
    options: TransformOptions,
    vocabulary: Vocabulary,
) -> SetV {
    let pair = expr_attr_v(
        key,
        object,
        span,
        is_svg,
        state.result,
        state.ctx,
        options,
        vocabulary,
    );
    SetV {
        result: pair.0,
        ctx: pair.1,
        styled: state.styled || key == "style"@,
        classed: state.classed || key == "class"@,
    }
}

/// The object that an attribute is, with the properties that are given one by
/// one.
pub open spec fn merged_into_v(attr: JsxAttribute, props: Seq<NamespacePropertyV>) -> Option<
    (ExprV, Span),
> {
    match attr.value {
        JsxValue::Container { span, expr: Some(expr), .. } => if props.len() == 0 {
            None
        } else {
            match merged_object_v(expr@, props) {
                Some(object) => Some((object, span)),
                None => None,
            }
        },
        _ => None,
    }
}

/// One attribute.
#[verifier::opaque]
pub open spec fn set_one_v(
    attr: JsxAttr,
    at: nat,
    plan: PlanV,
    is_svg: bool,
    state: SetV,
    options: TransformOptions,
    vocabulary: Vocabulary,
) -> SetV {
    match attr {
        JsxAttr::Spread { .. } => state,
        JsxAttr::Named(attr) => {
            let merged_style = merged_into_v(attr, plan.styles);
            let merged_class = merged_into_v(attr, plan.classes);
            if plan.dropped.contains(at) {
                state
            } else if attr.key@ == "class"@ && plan.several_classes && plan.class_attr != Some(
                at,
            ) {
                state
            } else if plan.style_places.contains(at) {
                if plan.style_attr is None && !state.styled && at == plan.style_places[0] {
                    merged_attr_v(
                        "style"@,
                        namespace_object_v(plan.styles),
                        first_span_v(plan.styles),
                        is_svg,
                        state,
                        options,
                        vocabulary,
                    )
                } else {
                    state
                }
            } else if plan.class_places.contains(at) && !plan.class_dropped {
                if plan.class_attr is None && !state.classed && at == plan.class_places[0] {
                    merged_attr_v(
                        "class"@,
                        namespace_object_v(plan.classes),
                        first_span_v(plan.classes),
                        is_svg,
                        state,
                        options,
                        vocabulary,
                    )
                } else {
                    state
                }
            } else if plan.style_attr == Some(at) && merged_style is Some {
                merged_attr_v(
                    "style"@,
                    (merged_style->0).0,
                    (merged_style->0).1,
                    is_svg,
                    state,
                    options,
                    vocabulary,
                )
            } else if plan.class_attr == Some(at) && !plan.class_dropped && merged_class is Some {
                merged_attr_v(
                    "class"@,
                    (merged_class->0).0,
                    (merged_class->0).1,
                    is_svg,
                    state,
                    options,
                    vocabulary,
                )
            } else {
                let pair = attr_v(attr, is_svg, state.result, state.ctx, options, vocabulary);
                SetV { result: pair.0, ctx: pair.1, ..state }
            }
        },
    }
}

/// The first `n` attributes.
pub open spec fn set_each_v(
    attrs: Seq<JsxAttr>,
    n: nat,
    plan: PlanV,
    is_svg: bool,
    state: SetV,
    options: TransformOptions,
    vocabulary: Vocabulary,
) -> SetV
    decreases n,
{
    if n == 0 || n > attrs.len() {
        state
    } else {
        set_one_v(
            attrs[n - 1],
            (n - 1) as nat,
            plan,
            is_svg,
            set_each_v(attrs, (n - 1) as nat, plan, is_svg, state, options, vocabulary),
            options,
            vocabulary,
        )
    }
}

/// All attributes of an element.
#[verifier::opaque]
pub open spec fn attributes_v(
    attrs: Seq<JsxAttr>,
    is_svg: bool,
    result: SsrResultV,
    ctx: SsrContextV,
    options: TransformOptions,
    vocabulary: Vocabulary,
) -> (SsrResultV, SsrContextV) {
    let plan = plan_v(attrs);
    let set = set_each_v(
        attrs,
        attrs.len(),
        plan,
        is_svg,
        SetV { result, ctx, styled: false, classed: false },
        options,
        vocabulary,
    );
    let styled = if plan.styles.len() > 0 && !set.styled {
        merged_attr_v(
            "style"@,
            namespace_object_v(plan.styles),
            first_span_v(plan.styles),
            is_svg,
            set,
            options,
            vocabulary,
        )
    } else {
        set
    };
    let classed = if plan.classes.len() > 0 && !styled.classed && !plan.class_dropped {
        merged_attr_v(
            "class"@,
            namespace_object_v(plan.classes),
            first_span_v(plan.classes),
            is_svg,
            styled,
            options,
            vocabulary,
        )
    } else {
        styled
    };
    (classed.result, classed.ctx)
}

fn merged_into(attr: &JsxAttribute, props: &Vec<NamespaceProperty>) -> (merged: Option<
    (Rc<Expr>, Span),
>)
    ensures
        match merged {
            Some((object, span)) => merged_into_v(*attr, namespace_values(props@)) == Some(
                (object@, span),
            ),
            None => merged_into_v(*attr, namespace_values(props@)) is None,
        },
{
    match &attr.value {
        JsxValue::Container { span, expr: Some(expr), .. } => {
            if props.len() == 0 {
                None
            } else {
                match merge_namespace_object_expression(expr, props) {
                    Some(object) => Some((object, *span)),
                    None => None,
                }
            }
        },
        _ => None,
    }
}

fn is_place(place: &Option<usize>, at: usize) -> (yes: bool)
    ensures
        yes == (opt_nat(*place) == Some(at as nat)),
{
    match place {
        Some(place) => *place == at,
        None => false,
    }
}

fn is_first(places: &Vec<usize>, at: usize) -> (yes: bool)
    requires
        places.len() > 0,
    ensures
        yes == (at as nat == nats(places@)[0]),
{
    proof {
        assert(nats(places@)[0] == places@[0] as nat);
    }
    places[0] == at
}

/// Transforms one attribute.
fn set_one(
    attr: &JsxAttr,
    at: usize,
    plan: &Plan,
    is_svg: bool,
    result: &mut SsrResult,
    context: &mut SsrContext,
    styled: &mut bool,
    classed: &mut bool,
    options: &TransformOptions,
    vocabulary: &Vocabulary,
)
    ensures
        (SetV {
            result: final(result)@,
            ctx: final(context)@,
            styled: *final(styled),
            classed: *final(classed),
        }) == set_one_v(
            *attr,
            at as nat,
            plan@,
            is_svg,
            SetV {
                result: old(result)@,
                ctx: old(context)@,
                styled: *old(styled),
                classed: *old(classed),
            },
            *options,
            *vocabulary,
        ),
{
    proof {
        reveal(set_one_v);
        reveal_strlit("style");
        reveal_strlit("class");
        assert("style"@[0] != "class"@[0]);
    }
    let attr = match attr {
        JsxAttr::Spread { .. } => {
            return;
        },
        JsxAttr::Named(attr) => attr,
    };
    if holds(&plan.dropped, at) {
        return;
    }
    if same(attr.key.as_str(), "class") && plan.several_classes && !is_place(&plan.class_attr, at) {
        return;
    }
    if holds(&plan.style_places, at) {
        if plan.style_attr.is_none() && !*styled && is_first(&plan.style_places, at) {
            transform_expression_attribute(
                "style",
                &build_namespace_object_expression(&plan.styles),
                first_namespace_span(&plan.styles),
                is_svg,
                result,
                context,
                options,
                vocabulary,
            );
            *styled = true;
        }
        return;
    }
    if !plan.class_dropped && holds(&plan.class_places, at) {
        if plan.class_attr.is_none() && !*classed && is_first(&plan.class_places, at) {
            transform_expression_attribute(
                "class",
                &build_namespace_object_expression(&plan.classes),
                first_namespace_span(&plan.classes),
                is_svg,
                result,
                context,
                options,
                vocabulary,
            );
            *classed = true;
        }
        return;
    }
    if is_place(&plan.style_attr, at) {
        if let Some((object, span)) = merged_into(attr, &plan.styles) {
            transform_expression_attribute(
                "style",
                &object,
                span,
                is_svg,
                result,
                context,
                options,
                vocabulary,
            );
            *styled = true;
            return;
        }
    }
    if is_place(&plan.class_attr, at) && !plan.class_dropped {
        if let Some((object, span)) = merged_into(attr, &plan.classes) {
            transform_expression_attribute(
                "class",
                &object,
                span,
                is_svg,
                result,
                context,
                options,
                vocabulary,
            );
            *classed = true;
            return;
        }
    }
    transform_attribute(attr, is_svg, result, context, options, vocabulary);
}

/// Transforms all attributes of an element.
pub fn transform_attributes(
    attrs: &Vec<JsxAttr>,
    is_svg: bool,
    result: &mut SsrResult,
    context: &mut SsrContext,
    options: &TransformOptions,
    vocabulary: &Vocabulary,
)
    ensures
        (final(result)@, final(context)@) == attributes_v(
            attrs@,
            is_svg,
            old(result)@,
            old(context)@,
            *options,
            *vocabulary,
        ),
{
    proof {
        reveal(attributes_v);
        reveal_strlit("style");
        reveal_strlit("class");
        assert("style"@[0] != "class"@[0]);
    }
    let plan = make_plan(attrs);
    let mut styled = false;
    let mut classed = false;
    let ghost start = SetV { result: result@, ctx: context@, styled: false, classed: false };
    let mut i: usize = 0;
    while i < attrs.len()
        invariant
            i <= attrs.len(),
            (SetV { result: result@, ctx: context@, styled, classed }) == set_each_v(
                attrs@,
                i as nat,
                plan@,
                is_svg,
                start,
                *options,
                *vocabulary,
            ),
        decreases attrs.len() - i,
    {
        set_one(
            &attrs[i],
            i,
            &plan,
            is_svg,
            result,
            context,
            &mut styled,
            &mut classed,
            options,
            vocabulary,
        );
        i = i + 1;
    }
    if plan.styles.len() > 0 && !styled {
        transform_expression_attribute(
            "style",
            &build_namespace_object_expression(&plan.styles),
            first_namespace_span(&plan.styles),
            is_svg,
            result,
            context,
            options,
            vocabulary,
        );
    }
    if plan.classes.len() > 0 && !classed && !plan.class_dropped {
        transform_expression_attribute(
            "class",
            &build_namespace_object_expression(&plan.classes),
            first_namespace_span(&plan.classes),
            is_svg,
            result,
            context,
            options,
            vocabulary,
        );
    }
}

} // verus!
