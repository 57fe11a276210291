//! Pagination metadata as HTTP headers: the `X-*` headers and an RFC 8288
//! `Link` header.
use vstd::prelude::*;

use crate::params::PaginationParams;
use crate::response::PaginatorResponseMeta;
use crate::text::{decimal, joined, push_u64, views};

verus! {

/// One link: `<base?page=P&per_page=S>; rel="REL"`.
pub open spec fn link_text(base: Seq<char>, page: nat, per_page: nat, rel: Seq<char>) -> Seq<char> {
    "<"@ + base + "?page="@ + decimal(page) + "&per_page="@ + decimal(per_page) + ">; rel=\""@ + rel
        + "\""@
}

/// The links of a page: first; prev and next when they exist; last when the
/// page count is known.
pub open spec fn links(base: Seq<char>, p: PaginationParams, m: PaginatorResponseMeta) -> Seq<
    Seq<char>,
> {
    let s = p.per_page as nat;
    let first = seq![link_text(base, 1, s, "first"@)];
    let prev = if m.has_prev {
        seq![link_text(base, (p.page - 1) as nat, s, "prev"@)]
    } else {
        Seq::empty()
    };
    let next = if m.has_next {
        seq![link_text(base, (p.page + 1) as nat, s, "next"@)]
    } else {
        Seq::empty()
    };
    let last = match m.total_pages {
        Some(t) => seq![link_text(base, t as nat, s, "last"@)],
        None => Seq::empty(),
    };
    first + prev + next + last
}

fn link(base: &str, page: u32, per_page: u32, rel: &str) -> (r: String)
    ensures
        r@ == link_text(base@, page as nat, per_page as nat, rel@),
{
    let mut r = String::new();
    r.push_str("<");
    r.push_str(base);
    r.push_str("?page=");
    push_u64(&mut r, page as u64);
    r.push_str("&per_page=");
    push_u64(&mut r, per_page as u64);
    r.push_str(">; rel=\"");
    r.push_str(rel);
    r.push_str("\"");
    assert(r@ =~= link_text(base@, page as nat, per_page as nat, rel@));
    r
}

/// The `Link` header of a page: its links joined by `", "`.
pub fn create_link_header(
    base_url: &str,
    params: &PaginationParams,
    meta: &PaginatorResponseMeta,
) -> (r: String)
    requires
        meta.has_prev ==> params.page >= 1,
        meta.has_next ==> params.page < u32::MAX,
    ensures
        r@ == joined(links(base_url@, *params, *meta), ", "@),
{
    let mut parts: Vec<String> = Vec::new();
    parts.push(link(base_url, 1, params.per_page, "first"));
    if meta.has_prev {
        parts.push(link(base_url, params.page - 1, params.per_page, "prev"));
    }
    if meta.has_next {
        parts.push(link(base_url, params.page + 1, params.per_page, "next"));
    }
    match meta.total_pages {
        Some(t) => parts.push(link(base_url, t, params.per_page, "last")),
        None => {},
    }
    assert(views(parts@) =~= links(base_url@, *params, *meta));
    crate::text::join(&parts, ", ")
}

/// The headers of a page, in order: `X-Total-Count` and `X-Total-Pages`
/// when known, then `X-Current-Page` and `X-Per-Page`, values in decimal.
pub open spec fn header_list(m: PaginatorResponseMeta) -> Seq<(Seq<char>, Seq<char>)> {
    let total = match m.total {
        Some(t) => seq![("X-Total-Count"@, decimal(t as nat))],
        None => Seq::empty(),
    };
    let pages = match m.total_pages {
        Some(t) => seq![("X-Total-Pages"@, decimal(t as nat))],
        None => Seq::empty(),
    };
    total + pages + seq![
        ("X-Current-Page"@, decimal(m.page as nat)),
        ("X-Per-Page"@, decimal(m.per_page as nat)),
    ]
}

fn header(name: &str, value: u32) -> (r: (String, String))
    ensures
        r.0@ == name@,
        r.1@ == decimal(value as nat),
{
    let mut n = String::new();
    n.push_str(name);
    assert(n@ =~= name@);
    (n, crate::text::u32_text(value))
}

/// The pagination headers of a page; see `header_list`.
pub fn pagination_headers(meta: &PaginatorResponseMeta) -> (r: Vec<(String, String)>)
    ensures
        r@.map_values(|h: (String, String)| (h.0@, h.1@)) == header_list(*meta),
{
    let mut r: Vec<(String, String)> = Vec::new();
    match meta.total {
        Some(t) => r.push(header("X-Total-Count", t)),
        None => {},
    }
    match meta.total_pages {
        Some(t) => r.push(header("X-Total-Pages", t)),
        None => {},
    }
    r.push(header("X-Current-Page", meta.page));
    r.push(header("X-Per-Page", meta.per_page));
    assert(r@.map_values(|h: (String, String)| (h.0@, h.1@)) =~= header_list(*meta));
    r
}

} // verus!
