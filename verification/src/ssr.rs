//! What is rendered on a server: templates, and the requests that they make.

use crate::ast::{
    expr_values, group_values, kind_value, no_span, nowhere, Expr, ExprV, JsxElement, Kind, KindV,
    Span,
};
use crate::make::{copied, node_v, unknown};
use crate::marker::{has_marker, static_marker};
use crate::outside::share;
use std::rc::Rc;
use vstd::prelude::*;

verus! {

broadcast use group_values;

/// A step in the making of a result.
#[derive(Debug)]
pub enum Part {
    /// Text of the template.
    Static(String),
    /// A value between two pieces of the template.
    Dynamic(Rc<Expr>),
    /// A new piece of the template.
    Piece(String),
    /// A value on its own.
    Value(Rc<Expr>),
    /// The request of this number belongs to the result.
    Hoisted(usize),
    /// The parts of a child that is merged begin, and end.
    Opened,
    Closed,
}

#[allow(inconsistent_fields)]
pub ghost enum PartV {
    Static(Seq<char>),
    Dynamic(ExprV),
    Piece(Seq<char>),
    Value(ExprV),
    Hoisted(usize),
    Opened,
    Closed,
}

impl View for Part {
    type V = PartV;

    open spec fn view(&self) -> PartV {
        match *self {
            Part::Static(text) => PartV::Static(text@),
            Part::Dynamic(expr) => PartV::Dynamic(expr@),
            Part::Piece(text) => PartV::Piece(text@),
            Part::Value(expr) => PartV::Value(expr@),
            Part::Hoisted(slot) => PartV::Hoisted(slot),
            Part::Opened => PartV::Opened,
            Part::Closed => PartV::Closed,
        }
    }
}

pub open spec fn part_values(items: Seq<Part>) -> Seq<PartV> {
    items.map_values(|p: Part| p@)
}

/// The result of a node.  Where it holds expressions, it is put out as the
/// first of them.
#[derive(Debug)]
pub struct SsrResult {
    pub span: Span,
    /// The element has spread attributes.
    pub spread_element: bool,
    pub parts: Vec<Part>,
    pub exprs: Vec<Rc<Expr>>,
}

pub ghost struct SsrResultV {
    pub span: Span,
    pub spread_element: bool,
    pub parts: Seq<PartV>,
    pub exprs: Seq<ExprV>,
}

impl View for SsrResult {
    type V = SsrResultV;

    open spec fn view(&self) -> SsrResultV {
        SsrResultV {
            span: self.span,
            spread_element: self.spread_element,
            parts: part_values(self.parts@),
            exprs: expr_values(self.exprs@),
        }
    }
}

/// What the rest of the renderer is asked for, in order.
#[derive(Debug)]
pub enum Request {
    /// Import a helper.
    Helper(String),
    /// Hoist an expression: together with its neighbours, behind them, or as it
    /// is.
    Hoist { expr: Rc<Expr>, grouped: bool, post: bool, plain: bool },
    /// Make the expression of a template.
    Template(SsrResult),
    /// Lower a component: what it asks for itself comes here.
    Component(Rc<JsxElement>),
}

pub ghost enum RequestV {
    Helper(Seq<char>),
    Hoist { expr: ExprV, grouped: bool, post: bool, plain: bool },
    Template(SsrResultV),
    Component(JsxElement),
}

impl View for Request {
    type V = RequestV;

    open spec fn view(&self) -> RequestV {
        match *self {
            Request::Helper(name) => RequestV::Helper(name@),
            Request::Hoist { expr, grouped, post, plain } => RequestV::Hoist {
                expr: expr@,
                grouped,
                post,
                plain,
            },
            Request::Template(result) => RequestV::Template(result@),
            Request::Component(element) => RequestV::Component(*element),
        }
    }
}

pub open spec fn request_values(items: Seq<Request>) -> Seq<RequestV> {
    items.map_values(|r: Request| r@)
}

/// The context of a file that is rendered on a server.
#[derive(Debug)]
pub struct SsrContext<'a> {
    pub hydratable: bool,
    pub source: &'a str,
    pub requests: Vec<Request>,
}

pub ghost struct SsrContextV {
    pub hydratable: bool,
    pub source: Seq<char>,
    pub requests: Seq<RequestV>,
}

impl<'a> View for SsrContext<'a> {
    type V = SsrContextV;

    open spec fn view(&self) -> SsrContextV {
        SsrContextV {
            hydratable: self.hydratable,
            source: self.source@,
            requests: request_values(self.requests@),
        }
    }
}

/// What the request of this number comes to.
pub open spec fn hole_v(slot: nat) -> ExprV {
    node_v(no_span(), KindV::Hole(slot as usize))
}

fn hole(slot: usize) -> (expr: Rc<Expr>)
    ensures
        expr@ == hole_v(slot as nat),
{
    let kind = Kind::Hole(slot);
    proof {
        assert(kind_value(kind) == KindV::Hole(slot));
    }
    Rc::new(Expr { span: nowhere(), facts: unknown(), kind })
}

impl SsrContextV {
    pub open spec fn with_request(self, request: RequestV) -> SsrContextV {
        SsrContextV { requests: self.requests.push(request), ..self }
    }

    pub open spec fn with_helper(self, name: Seq<char>) -> SsrContextV {
        self.with_request(RequestV::Helper(name))
    }

    /// Puts out a result: as its first expression, else by its template.
    pub open spec fn put_out(self, result: SsrResultV) -> (SsrContextV, ExprV) {
        if result.exprs.len() > 0 {
            (self, result.exprs[0])
        } else {
            (self.with_request(RequestV::Template(result)), hole_v(self.requests.len()))
        }
    }
}

/// A component, as what comes of a request for it.
pub open spec fn component_v(element: JsxElement, ctx: SsrContextV) -> (SsrResultV, SsrContextV) {
    (
        SsrResultV { exprs: seq![hole_v(ctx.requests.len())], ..new_result(element.span) },
        ctx.with_request(RequestV::Component(element)),
    )
}

impl SsrResultV {
    pub open spec fn with_part(self, part: PartV) -> SsrResultV {
        SsrResultV { parts: self.parts.push(part), ..self }
    }

    pub open spec fn with_static(self, text: Seq<char>) -> SsrResultV {
        self.with_part(PartV::Static(text))
    }

    pub open spec fn with_dynamic(self, expr: ExprV) -> SsrResultV {
        self.with_part(PartV::Dynamic(expr))
    }

    /// Merges a child.
    pub open spec fn merged(self, child: SsrResultV) -> SsrResultV {
        SsrResultV {
            parts: self.parts.push(PartV::Opened) + child.parts.push(PartV::Closed),
            ..self
        }
    }
}

/// Hoists an expression for a result.
pub open spec fn hoist_v(
    result: SsrResultV,
    ctx: SsrContextV,
    expr: ExprV,
    grouped: bool,
    post: bool,
    plain: bool,
) -> (SsrResultV, SsrContextV, ExprV) {
    let slot = ctx.requests.len();
    (
        result.with_part(PartV::Hoisted(slot as usize)),
        ctx.with_request(RequestV::Hoist { expr, grouped, post, plain }),
        hole_v(slot),
    )
}

/// A result that holds nothing.
pub open spec fn new_result(span: Span) -> SsrResultV {
    SsrResultV { span, spread_element: false, parts: seq![], exprs: seq![] }
}

impl<'a> SsrContext<'a> {
    pub fn new(hydratable: bool, source: &'a str) -> (context: SsrContext<'a>)
        ensures
            context@ == (SsrContextV { hydratable, source: source@, requests: seq![] }),
    {
        let context = SsrContext { hydratable, source, requests: Vec::new() };
        proof {
            assert(request_values(context.requests@) =~= seq![]);
        }
        context
    }

    fn ask(&mut self, request: Request) -> (slot: usize)
        ensures
            slot == old(self)@.requests.len(),
            final(self)@ == old(self)@.with_request(request@),
    {
        let slot: usize = self.requests.len();
        self.requests.push(request);
        proof {
            assert(request_values(self.requests@) =~= request_values(old(self).requests@).push(
                request@,
            ));
        }
        slot
    }

    /// Imports a helper.
    pub fn register_helper(&mut self, name: &str)
        ensures
            final(self)@ == old(self)@.with_helper(name@),
    {
        let _slot: usize = self.ask(Request::Helper(copied(name)));
    }

    /// Puts out a result.
    pub fn put_out(&mut self, result: SsrResult) -> (expr: Rc<Expr>)
        ensures
            (final(self)@, expr@) == old(self)@.put_out(result@),
    {
        if result.exprs.len() > 0 {
            share(&result.exprs[0])
        } else {
            let slot: usize = self.ask(Request::Template(result));
            hole(slot)
        }
    }

    /// A component, as what comes of a request for it.
    pub fn component(&mut self, element: &Rc<JsxElement>) -> (result: SsrResult)
        ensures
            (result@, final(self)@) == component_v(**element, old(self)@),
    {
        let slot: usize = self.ask(Request::Component(share(element)));
        let mut result = SsrResult::new(element.span);
        let value = hole(slot);
        result.exprs.push(value);
        proof {
            assert(expr_values(result.exprs@) =~= seq![value@]);
        }
        result
    }

    /// The braces carry the static marker.
    pub fn has_static_marker_comment(&self, span: Span, marker: &str) -> (yes: bool)
        ensures
            yes == static_marker(self@.source, span, marker@),
    {
        has_marker(self.source, span, marker)
    }
}

impl SsrResult {
    pub fn new(span: Span) -> (result: SsrResult)
        ensures
            result@ == new_result(span),
    {
        let result = SsrResult {
            span,
            spread_element: false,
            parts: Vec::new(),
            exprs: Vec::new(),
        };
        proof {
            assert(part_values(result.parts@) =~= seq![]);
            assert(expr_values(result.exprs@) =~= seq![]);
        }
        result
    }

    pub fn push(&mut self, part: Part)
        ensures
            final(self)@ == old(self)@.with_part(part@),
    {
        self.parts.push(part);
        proof {
            assert(part_values(self.parts@) =~= part_values(old(self).parts@).push(part@));
        }
    }

    pub fn push_static(&mut self, text: &str)
        ensures
            final(self)@ == old(self)@.with_static(text@),
    {
        self.push(Part::Static(copied(text)));
    }

    pub fn push_dynamic(&mut self, expr: Rc<Expr>)
        ensures
            final(self)@ == old(self)@.with_dynamic(expr@),
    {
        self.push(Part::Dynamic(expr));
    }

    /// Merges a child.
    pub fn merge(&mut self, child: SsrResult)
        ensures
            final(self)@ == old(self)@.merged(child@),
    {
        let mut more = child.parts;
        more.push(Part::Closed);
        let ghost added = more@;
        proof {
            assert(part_values(added) =~= part_values(child.parts@).push(PartV::Closed));
        }
        self.push(Part::Opened);
        let ghost opened = self.parts@;
        self.parts.append(&mut more);
        proof {
            assert(part_values(self.parts@) =~= part_values(opened) + part_values(added));
        }
    }
}

/// Hoists an expression for a result.
pub fn hoist_expression(
    context: &mut SsrContext,
    result: &mut SsrResult,
    expr: Rc<Expr>,
    grouped: bool,
    post: bool,
    plain: bool,
) -> (held: Rc<Expr>)
    ensures
        (final(result)@, final(context)@, held@) == hoist_v(
            old(result)@,
            old(context)@,
            expr@,
            grouped,
            post,
            plain,
        ),
{
    let slot: usize = context.ask(Request::Hoist { expr, grouped, post, plain });
    result.push(Part::Hoisted(slot));
    hole(slot)
}

} // verus!
