//! Error types for the API layer.

use vstd::prelude::*;

use super::types::{field_errors_view, ErrorResponse, FieldError};
use crate::error::{error_text, CryptoScopeError};
use crate::text::owned;

verus! {

/// HTTP status 400.
pub const STATUS_BAD_REQUEST: u16 = 400;
/// HTTP status 401.
pub const STATUS_UNAUTHORIZED: u16 = 401;
/// HTTP status 500.
pub const STATUS_INTERNAL_SERVER_ERROR: u16 = 500;
/// HTTP status 501.
pub const STATUS_NOT_IMPLEMENTED: u16 = 501;
/// HTTP status 502.
pub const STATUS_BAD_GATEWAY: u16 = 502;

/// Name for the `Debug` rendering of a string (quoted, with escapes).
pub uninterp spec fn debug_text(s: Seq<char>) -> Seq<char>;

/// Trusted: `format!("{:?}", s)` for a string slice.
#[verifier::external_body]
pub fn debug_str(s: &str) -> (r: String)
    ensures
        r@ == debug_text(s@),
{
    format!("{:?}", s)
}

/// Application error type for unified error handling.
#[derive(Debug, Clone)]
pub enum AppError {
    /// Query parameter parsing failed (the parser's message)
    QueryParseError(String),
    /// Query validation failed
    ValidationError(Vec<FieldError>),
    /// Generic error with status code
    HttpError(u16, String),
}

/// An HTTP error with the given status and message.
pub open spec fn is_http_error(e: AppError, status: u16, message: Seq<char>) -> bool {
    e matches AppError::HttpError(s, m) && s == status && m@ == message
}

/// The HTTP error a core error becomes.
pub open spec fn core_error_mapping(err: CryptoScopeError) -> (u16, Seq<char>) {
    let status: u16 = match err {
        CryptoScopeError::UnknownExchange(_) => 400,
        CryptoScopeError::HttpError(_) => 502,
        CryptoScopeError::ParseError(_) => 500,
        CryptoScopeError::DbError(_) => 500,
        CryptoScopeError::DbInternal(_) => 500,
        CryptoScopeError::ApiError { .. } => 502,
    };
    (status, error_text(err))
}

impl AppError {
    pub fn bad_request(message: String) -> (r: Self)
        ensures
            r == AppError::HttpError(400, message),
    {
        AppError::HttpError(STATUS_BAD_REQUEST, message)
    }

    pub fn bad_gateway(message: String) -> (r: Self)
        ensures
            r == AppError::HttpError(502, message),
    {
        AppError::HttpError(STATUS_BAD_GATEWAY, message)
    }

    pub fn internal_error(message: String) -> (r: Self)
        ensures
            r == AppError::HttpError(500, message),
    {
        AppError::HttpError(STATUS_INTERNAL_SERVER_ERROR, message)
    }

    pub fn not_implemented(message: String) -> (r: Self)
        ensures
            r == AppError::HttpError(501, message),
    {
        AppError::HttpError(STATUS_NOT_IMPLEMENTED, message)
    }

    pub fn unauthorized(message: String) -> (r: Self)
        ensures
            r == AppError::HttpError(401, message),
    {
        AppError::HttpError(STATUS_UNAUTHORIZED, message)
    }

    /// Convert a core error to the HTTP error reported for it.
    pub fn from_core_error(err: CryptoScopeError) -> (r: Self)
        ensures
            is_http_error(r, core_error_mapping(err).0, core_error_mapping(err).1),
    {
        let message = err.message();
        match err {
            CryptoScopeError::UnknownExchange(_) => AppError::bad_request(message),
            CryptoScopeError::HttpError(_) => AppError::bad_gateway(message),
            CryptoScopeError::ParseError(_) => AppError::internal_error(message),
            CryptoScopeError::DbError(_) => AppError::internal_error(message),
            CryptoScopeError::DbInternal(_) => AppError::internal_error(message),
            CryptoScopeError::ApiError { .. } => AppError::bad_gateway(message),
        }
    }

    /// The status and body of the response for this error.
    pub fn response(&self) -> (r: (u16, ErrorResponse))
        ensures
            match *self {
                AppError::QueryParseError(m) => r.0 == 400 && r.1.error == m && r.1.details is None,
                AppError::ValidationError(errs) => r.0 == 400 && r.1.error@ == "Validation failed"@
                    && (r.1.details matches Some(d) && d@ == render_validations(grouped(field_errors_view(errs@)))),
                AppError::HttpError(s, m) => r.0 == s && r.1.error == m && r.1.details is None,
            },
    {
        match self {
            AppError::QueryParseError(m) => (STATUS_BAD_REQUEST, ErrorResponse::new(m.clone())),
            AppError::ValidationError(errs) => {
                let v = ValidationErrorResponse::from_errors(errs);
                let details = render_validation_map(&v.validations);
                (STATUS_BAD_REQUEST, ErrorResponse::with_details(v.error, details))
            },
            AppError::HttpError(s, m) => (*s, ErrorResponse::new(m.clone())),
        }
    }
}

/// Position of the group of `field` in `groups`, or -1.
pub open spec fn group_index(groups: Seq<(Seq<char>, Seq<Seq<char>>)>, field: Seq<char>) -> int
    decreases groups.len(),
{
    if groups.len() == 0 {
        -1
    } else if groups.last().0 == field {
        groups.len() - 1
    } else {
        group_index(groups.drop_last(), field)
    }
}

/// Messages grouped by field, groups in order of first appearance.
pub open spec fn grouped(errors: Seq<(Seq<char>, Seq<char>)>) -> Seq<(Seq<char>, Seq<Seq<char>>)>
    decreases errors.len(),
{
    if errors.len() == 0 {
        Seq::empty()
    } else {
        let g = grouped(errors.drop_last());
        let (field, message) = errors.last();
        let j = group_index(g, field);
        if j >= 0 {
            g.update(j, (field, g[j].1.push(message)))
        } else {
            g.push((field, seq![message]))
        }
    }
}

/// The `Debug` renderings of strings, joined with `, `.
pub open spec fn debug_joined(items: Seq<Seq<char>>) -> Seq<char>
    decreases items.len(),
{
    if items.len() == 0 {
        Seq::empty()
    } else if items.len() == 1 {
        debug_text(items[0])
    } else {
        debug_joined(items.drop_last()) + ", "@ + debug_text(items.last())
    }
}

/// The `Debug` rendering of a list of strings: `["a", "b"]`.
pub open spec fn render_list(items: Seq<Seq<char>>) -> Seq<char> {
    "["@ + debug_joined(items) + "]"@
}

/// The `Debug` rendering of one map entry: `"field": ["m"]`.
pub open spec fn render_entry(group: (Seq<char>, Seq<Seq<char>>)) -> Seq<char> {
    debug_text(group.0) + ": "@ + render_list(group.1)
}

/// Map entries rendered and joined with `, `.
pub open spec fn entries_joined(groups: Seq<(Seq<char>, Seq<Seq<char>>)>) -> Seq<char>
    decreases groups.len(),
{
    if groups.len() == 0 {
        Seq::empty()
    } else if groups.len() == 1 {
        render_entry(groups[0])
    } else {
        entries_joined(groups.drop_last()) + ", "@ + render_entry(groups.last())
    }
}

/// The `Debug` rendering of a field-to-messages map: `{"field": ["m"]}`.
pub open spec fn render_validations(groups: Seq<(Seq<char>, Seq<Seq<char>>)>) -> Seq<char> {
    "{"@ + entries_joined(groups) + "}"@
}

/// Validation error response for input validation failures.
#[derive(Debug, Clone)]
pub struct ValidationErrorResponse {
    pub error: String,
    pub validations: Vec<(String, Vec<String>)>,
}

/// The texts of grouped validations.
pub open spec fn validations_view(v: Seq<(String, Vec<String>)>) -> Seq<(Seq<char>, Seq<Seq<char>>)> {
    v.map_values(|g: (String, Vec<String>)| (g.0@, g.1@.map_values(|m: String| m@)))
}

fn find_group(groups: &Vec<(String, Vec<String>)>, field: &String) -> (r: Option<usize>)
    ensures
        r matches Some(j) ==> j as int == group_index(validations_view(groups@), field@),
        r is None ==> group_index(validations_view(groups@), field@) == -1,
{
    let ghost gv = validations_view(groups@);
    let mut j: usize = groups.len();
    assert(gv.subrange(0, j as int) =~= gv);
    while j > 0
        invariant
            j <= groups@.len(),
            gv == validations_view(groups@),
            group_index(gv, field@) == group_index(gv.subrange(0, j as int), field@),
        decreases j,
    {
        assert(gv.subrange(0, j as int).drop_last() =~= gv.subrange(0, j - 1));
        if groups[j - 1].0 == *field {
            return Some(j - 1);
        }
        j = j - 1;
    }
    None
}

proof fn lemma_group_index_bounds(g: Seq<(Seq<char>, Seq<Seq<char>>)>, field: Seq<char>)
    ensures
        -1 <= group_index(g, field) < g.len(),
        group_index(g, field) >= 0 ==> g[group_index(g, field)].0 == field,
    decreases g.len(),
{
    if g.len() > 0 && g.last().0 != field {
        lemma_group_index_bounds(g.drop_last(), field);
    }
}

/// Number of messages over all groups.
pub open spec fn message_total(groups: Seq<(Seq<char>, Seq<Seq<char>>)>) -> nat
    decreases groups.len(),
{
    if groups.len() == 0 {
        0
    } else {
        message_total(groups.drop_last()) + groups.last().1.len()
    }
}

/// No two groups have the same field.
pub open spec fn fields_distinct(groups: Seq<(Seq<char>, Seq<Seq<char>>)>) -> bool {
    forall|a: int, b: int| 0 <= a < b < groups.len() ==> #[trigger] groups[a].0 != #[trigger] groups[b].0
}

proof fn lemma_group_index_absent(g: Seq<(Seq<char>, Seq<Seq<char>>)>, field: Seq<char>)
    requires
        group_index(g, field) < 0,
    ensures
        forall|k: int| 0 <= k < g.len() ==> #[trigger] g[k].0 != field,
    decreases g.len(),
{
    if g.len() > 0 {
        lemma_group_index_absent(g.drop_last(), field);
        assert forall|k: int| 0 <= k < g.len() implies #[trigger] g[k].0 != field by {
            if k < g.len() - 1 {
                assert(g.drop_last()[k] == g[k]);
            }
        }
    }
}

proof fn lemma_total_update(
    g: Seq<(Seq<char>, Seq<Seq<char>>)>,
    j: int,
    x: (Seq<char>, Seq<Seq<char>>),
)
    requires
        0 <= j < g.len(),
    ensures
        message_total(g.update(j, x)) + g[j].1.len() == message_total(g) + x.1.len(),
    decreases g.len(),
{
    if j < g.len() - 1 {
        lemma_total_update(g.drop_last(), j, x);
        assert(g.update(j, x).drop_last() =~= g.drop_last().update(j, x));
    } else {
        assert(g.update(j, x).drop_last() =~= g.drop_last());
    }
}

/// Law: grouping keeps every message: the groups hold as many messages as
/// there were failed checks, and no field has two groups.
pub proof fn law_grouped_keeps_every_message(errors: Seq<(Seq<char>, Seq<char>)>)
    ensures
        message_total(grouped(errors)) == errors.len(),
        fields_distinct(grouped(errors)),
    decreases errors.len(),
{
    if errors.len() > 0 {
        let d = errors.drop_last();
        law_grouped_keeps_every_message(d);
        let g = grouped(d);
        let (field, message) = errors.last();
        let j = group_index(g, field);
        lemma_group_index_bounds(g, field);
        let r = grouped(errors);
        if j >= 0 {
            lemma_total_update(g, j, (field, g[j].1.push(message)));
            assert forall|a: int, b: int| 0 <= a < b < r.len() implies #[trigger] r[a].0 != #[trigger] r[b].0 by {
                assert(r[a].0 == g[a].0 && r[b].0 == g[b].0);
            }
        } else {
            lemma_group_index_absent(g, field);
            assert(r.drop_last() =~= g);
            assert forall|a: int, b: int| 0 <= a < b < r.len() implies #[trigger] r[a].0 != #[trigger] r[b].0 by {
                if b == g.len() {
                    assert(r[a] == g[a]);
                } else {
                    assert(r[a] == g[a] && r[b] == g[b]);
                }
            }
        }
    }
}

impl ValidationErrorResponse {
    /// Group the failed checks by field.
    pub fn from_errors(errors: &Vec<FieldError>) -> (r: Self)
        ensures
            r.error@ == "Validation failed"@,
            validations_view(r.validations@) == grouped(field_errors_view(errors@)),
    {
        let mut groups: Vec<(String, Vec<String>)> = Vec::new();
        let n = errors.len();
        let mut i: usize = 0;
        while i < n
            invariant
                n == errors@.len(),
                i <= n,
                validations_view(groups@) == grouped(field_errors_view(errors@.subrange(0, i as int))),
            decreases n - i,
        {
            let ghost before = validations_view(groups@);
            let e = &errors[i];
            assert(field_errors_view(errors@.subrange(0, i + 1)).drop_last() =~= field_errors_view(errors@.subrange(0, i as int)));
            proof { lemma_group_index_bounds(before, e.field@); }
            match find_group(&groups, &e.field) {
                Some(j) => {
                    let ghost old_groups = groups@;
                    let (f, mut msgs) = groups.remove(j);
                    assert(f == old_groups[j as int].0 && msgs == old_groups[j as int].1);
                    msgs.push(e.message.clone());
                    assert(msgs@.map_values(|m: String| m@) =~= before[j as int].1.push(e.message@));
                    groups.insert(j, (f, msgs));
                    assert(groups@ =~= old_groups.update(j as int, groups@[j as int]));
                    assert(validations_view(groups@) =~= before.update(j as int, (e.field@, before[j as int].1.push(e.message@))));
                },
                None => {
                    let mut msgs: Vec<String> = Vec::new();
                    msgs.push(e.message.clone());
                    assert(msgs@.map_values(|m: String| m@) =~= seq![e.message@]);
                    let ghost old_groups = groups@;
                    groups.push((e.field.clone(), msgs));
                    assert(groups@ =~= old_groups.push(groups@.last()));
                    assert(validations_view(groups@) =~= before.push((e.field@, seq![e.message@])));
                },
            }
            i = i + 1;
        }
        assert(errors@.subrange(0, n as int) =~= errors@);
        ValidationErrorResponse { error: owned("Validation failed"), validations: groups }
    }
}

fn render_message_list(messages: &Vec<String>) -> (r: String)
    ensures
        r@ == render_list(messages@.map_values(|m: String| m@)),
{
    let ghost mv = messages@.map_values(|m: String| m@);
    let mut out = owned("[");
    let n = messages.len();
    let mut i: usize = 0;
    while i < n
        invariant
            n == messages@.len(),
            mv == messages@.map_values(|m: String| m@),
            i <= n,
            out@ == "["@ + debug_joined(mv.subrange(0, i as int)),
        decreases n - i,
    {
        assert(mv.subrange(0, i + 1).drop_last() =~= mv.subrange(0, i as int));
        assert(mv.subrange(0, i + 1).last() == messages@[i as int]@);
        if i > 0 {
            out.append(", ");
        }
        let d = debug_str(messages[i].as_str());
        out.append(d.as_str());
        i = i + 1;
    }
    assert(mv.subrange(0, n as int) =~= mv);
    out.append("]");
    out
}

/// Render grouped validations as the `Debug` text of a field-to-messages map.
pub fn render_validation_map(groups: &Vec<(String, Vec<String>)>) -> (r: String)
    ensures
        r@ == render_validations(validations_view(groups@)),
{
    let ghost gv = validations_view(groups@);
    let mut out = owned("{");
    let n = groups.len();
    let mut i: usize = 0;
    while i < n
        invariant
            n == groups@.len(),
            gv == validations_view(groups@),
            i <= n,
            out@ == "{"@ + entries_joined(gv.subrange(0, i as int)),
        decreases n - i,
    {
        assert(gv.subrange(0, i + 1).drop_last() =~= gv.subrange(0, i as int));
        assert(gv.subrange(0, i + 1).last() == gv[i as int]);
        if i > 0 {
            out.append(", ");
        }
        let k = debug_str(groups[i].0.as_str());
        out.append(k.as_str());
        out.append(": ");
        let list = render_message_list(&groups[i].1);
        out.append(list.as_str());
        i = i + 1;
    }
    assert(gv.subrange(0, n as int) =~= gv);
    out.append("}");
    out
}

} // verus!
