//! The rules on the status codes and the methods that a declaration may
//! name.

use vstd::prelude::*;
use crate::diagnostic::{Diagnostic, DiagnosticView};
use crate::span::Span;

verus! {

/// A status code that a declaration may name.
#[derive(Clone, Copy, Debug, PartialEq, Eq, Hash, Structural)]
pub struct Status {
    pub code: u16,
}

/// The status that the number `num`, written at `span`, names: one from
/// 100 to 599.
pub open spec fn status_spec(num: usize, span: Span) -> Result<Status, DiagnosticView> {
    if 100 <= num < 600 {
        Ok(Status { code: num as u16 })
    } else {
        Err(DiagnosticView::error(span, "status must be in range [100, 599]"@))
    }
}

impl Status {
    /// The status that the number `num`, written at `span`, names.
    pub fn from_code(num: usize, span: Span) -> (r: Result<Status, Diagnostic>)
        ensures
            match r {
                Ok(status) => status_spec(num, span) == Ok::<Status, DiagnosticView>(status),
                Err(diagnostic) => status_spec(num, span) == Err::<Status, DiagnosticView>(
                    diagnostic@,
                ),
            },
    {
        if num < 100 || num >= 600 {
            return Err(
                Diagnostic::error(span, String::from_str("status must be in range [100, 599]")),
            );
        }
        Ok(Status { code: num as u16 })
    }
}

/// A request method.
#[derive(Clone, Copy, Debug, PartialEq, Eq, Hash, Structural)]
pub enum Method {
    Get,
    Put,
    Post,
    Delete,
    Options,
    Head,
    Trace,
    Connect,
    Patch,
}

/// The advice that goes with every refused method.
pub open spec fn method_help() -> Seq<char> {
    "method must be one of: `GET`, `PUT`, `POST`, `DELETE`, `HEAD`, `PATCH`, `OPTIONS`"@
}

/// The method of a route that the identifier written at `span` names,
/// where `parsed` is the method that the identifier spells, if it spells
/// one.
pub open spec fn route_method_spec(parsed: Option<Method>, span: Span) -> Result<
    Method,
    DiagnosticView,
> {
    match parsed {
        None => Err(DiagnosticView::error(span, "invalid HTTP method"@).help(method_help())),
        Some(method) => if method.for_routes() {
            Ok(method)
        } else {
            Err(
                DiagnosticView::error(span, "invalid HTTP method for route handlers"@).help(
                    method_help(),
                ),
            )
        },
    }
}

impl Method {
    /// Whether a route may answer the method: every method but `TRACE` and
    /// `CONNECT`.
    pub open spec fn for_routes(self) -> bool {
        self != Method::Trace && self != Method::Connect
    }

    /// Whether a route may answer the method.
    pub fn is_for_routes(&self) -> (r: bool)
        ensures
            r == self.for_routes(),
    {
        match self {
            Method::Get | Method::Put | Method::Post | Method::Delete | Method::Head
            | Method::Patch | Method::Options => true,
            Method::Trace | Method::Connect => false,
        }
    }

    /// The advice that goes with every refused method.
    fn help_text() -> (r: String)
        ensures
            r@ == method_help(),
    {
        String::from_str(
            "method must be one of: `GET`, `PUT`, `POST`, `DELETE`, `HEAD`, `PATCH`, `OPTIONS`",
        )
    }

    /// The method of a route that the identifier written at `span` names,
    /// where `parsed` is the method that the identifier spells, if it
    /// spells one.
    pub fn for_route(parsed: Option<Method>, span: Span) -> (r: Result<Method, Diagnostic>)
        ensures
            match r {
                Ok(method) => route_method_spec(parsed, span) == Ok::<Method, DiagnosticView>(
                    method,
                ),
                Err(diagnostic) => route_method_spec(parsed, span) == Err::<
                    Method,
                    DiagnosticView,
                >(diagnostic@),
            },
    {
        match parsed {
            None => Err(
                Diagnostic::error(span, String::from_str("invalid HTTP method")).help(
                    Method::help_text(),
                ),
            ),
            Some(method) => {
                if method.is_for_routes() {
                    Ok(method)
                } else {
                    Err(
                        Diagnostic::error(
                            span,
                            String::from_str("invalid HTTP method for route handlers"),
                        ).help(Method::help_text()),
                    )
                }
            },
        }
    }

    /// What is said where a method should stand at `span`, and `found`
    /// stands there, which is no identifier.
    pub fn not_an_identifier(found: &str, span: Span) -> (d: Diagnostic)
        ensures
            d@ == DiagnosticView::error(span, "expected identifier, found "@ + found@).help(
                method_help(),
            ),
    {
        let mut message = String::from_str("expected identifier, found ");
        message.append(found);
        Diagnostic::error(span, message).help(Method::help_text())
    }
}

} // verus!
