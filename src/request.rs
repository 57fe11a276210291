//! Pagination parameters from the query string of a request.
use vstd::prelude::*;

use crate::filter::Filter;
use crate::params::{clamp_page, clamp_per_page, PaginationParams, SortDirection, DEFAULT_PER_PAGE};
use crate::parse::{
    ascii_lower, colon_parts, filter_value_read, operator_named, parse_filter, parse_i64, split,
    split_on, trim, trimmed,
};
use crate::search::SearchParams;
use crate::text::views;

verus! {

/// `t` is `asc` or `desc` in any ASCII case.
pub open spec fn sort_direction_named(t: Seq<char>) -> Option<SortDirection> {
    if crate::parse::same_ignoring_case(t, "asc"@) {
        Some(SortDirection::Asc)
    } else if crate::parse::same_ignoring_case(t, "desc"@) {
        Some(SortDirection::Desc)
    } else {
        None
    }
}

fn same_ignoring_case_exec(t: &str, lit: &str) -> (r: bool)
    ensures
        r == crate::parse::same_ignoring_case(t@, lit@),
{
    let n = t.unicode_len();
    let m = lit.unicode_len();
    if n != m {
        return false;
    }
    let mut i: usize = 0;
    while i < n
        invariant
            n == t@.len(),
            m == lit@.len(),
            n == m,
            i <= n,
            forall|k: int| 0 <= k < i ==> ascii_lower(#[trigger] t@[k]) == lit@[k],
        decreases n - i,
    {
        let c = t.get_char(i);
        let l = if 'A' <= c && c <= 'Z' {
            ((c as u32) + 32) as u8 as char
        } else {
            c
        };
        assert(l == ascii_lower(c));
        if l != lit.get_char(i) {
            return false;
        }
        i = i + 1;
    }
    true
}

/// Reads a sort direction: `asc` or `desc`, case ignored; nothing otherwise.
pub fn parse_sort_direction(t: &str) -> (r: Option<SortDirection>)
    ensures
        r == sort_direction_named(t@),
{
    if same_ignoring_case_exec(t, "asc") {
        Some(SortDirection::Asc)
    } else if same_ignoring_case_exec(t, "desc") {
        Some(SortDirection::Desc)
    } else {
        None
    }
}

/// The direction named by an optional text.
pub open spec fn opt_direction(t: Option<String>) -> Option<SortDirection> {
    match t {
        Some(s) => sort_direction_named(s@),
        None => None,
    }
}

/// Page, size and ordering as a query string gives them.
#[derive(Debug)]
pub struct PaginationQuery {
    pub page: u32,
    pub per_page: u32,
    pub sort_by: Option<String>,
    pub sort_direction: Option<String>,
}

/// The request a query describes: page and size clamped, the direction read
/// by `sort_direction_named`, nothing else set.
pub open spec fn query_params(
    p: PaginationParams,
    page: u32,
    per_page: u32,
    sort_by: Option<Seq<char>>,
    sort_direction: Option<SortDirection>,
) -> bool {
    &&& p.page == clamp_page(page)
    &&& p.per_page == clamp_per_page(per_page)
    &&& crate::params::opt_view(p.sort_by) == sort_by
    &&& p.sort_direction == sort_direction
    &&& p.filters@.len() == 0
    &&& p.search is None
    &&& !p.disable_total_count
    &&& p.cursor is None
}

impl PaginationQuery {
    pub fn into_params(self) -> (r: PaginationParams)
        ensures
            query_params(
                r,
                self.page,
                self.per_page,
                crate::params::opt_view(self.sort_by),
                opt_direction(self.sort_direction),
            ),
    {
        let sort_direction = match &self.sort_direction {
            Some(s) => parse_sort_direction(s.as_str()),
            None => None,
        };
        let p = PaginationParams::new(self.page, self.per_page);
        PaginationParams { sort_by: self.sort_by, sort_direction, ..p }
    }

    pub fn as_params(&self) -> (r: PaginationParams)
        ensures
            query_params(
                r,
                self.page,
                self.per_page,
                crate::params::opt_view(self.sort_by),
                opt_direction(self.sort_direction),
            ),
    {
        let sort_direction = match &self.sort_direction {
            Some(s) => parse_sort_direction(s.as_str()),
            None => None,
        };
        let sort_by = match &self.sort_by {
            Some(s) => Some(s.clone()),
            None => None,
        };
        let p = PaginationParams::new(self.page, self.per_page);
        PaginationParams { sort_by, sort_direction, ..p }
    }
}

/// Everything a query string can set: page, size, ordering, repeated
/// `filter=field:operator:value`, and `search` over `search_fields`.
#[derive(Debug)]
pub struct PaginationQueryParams {
    pub page: u32,
    pub per_page: u32,
    pub sort_by: Option<String>,
    pub sort_direction: Option<String>,
    pub filter: Vec<String>,
    pub search: Option<String>,
    pub search_fields: Option<String>,
}

/// The filters that the texts describe, in order, with unreadable ones left out.
pub open spec fn read_filters(texts: Seq<Seq<char>>, filters: Seq<Filter>) -> bool
    decreases texts.len(),
{
    if texts.len() == 0 {
        filters.len() == 0
    } else {
        let t = texts.last();
        match colon_parts(t) {
            Some((field, name, value)) if operator_named(name) is Some => {
                &&& filters.len() > 0
                &&& read_filters(texts.drop_last(), filters.drop_last())
                &&& filters.last().field@ == field
                &&& filters.last().operator == operator_named(name)->0
                &&& filter_value_read(operator_named(name)->0, filters.last().value, value)
            },
            _ => read_filters(texts.drop_last(), filters),
        }
    }
}

/// The fields of a search: the comma-separated list, each name trimmed.
pub open spec fn search_field_list(text: Seq<char>) -> Seq<Seq<char>> {
    split(text, ',').map_values(|p: Seq<char>| trim(p))
}

/// The search a query asks for: present when a query is given and the list
/// of fields is not empty; substring and case-insensitive.
pub open spec fn query_search(s: Option<SearchParams>, search: Option<String>, fields: Option<String>) -> bool {
    match search {
        Some(q) => {
            let names = match fields {
                Some(f) => search_field_list(f@),
                None => Seq::empty(),
            };
            if names.len() > 0 {
                s matches Some(sp) && sp.query@ == q@ && views(sp.fields@) == names && !sp.case_sensitive
                    && !sp.exact_match
            } else {
                s is None
            }
        },
        None => s is None,
    }
}

impl PaginationQueryParams {
    /// The request described: page and size clamped, direction read, the
    /// readable filters in order, and the search when it names fields.
    pub fn into_params(self) -> (r: PaginationParams)
        ensures
            r.page == clamp_page(self.page),
            r.per_page == clamp_per_page(self.per_page),
            crate::params::opt_view(r.sort_by) == crate::params::opt_view(self.sort_by),
            r.sort_direction == opt_direction(self.sort_direction),
            read_filters(views(self.filter@), r.filters@),
            query_search(r.search, self.search, self.search_fields),
            !r.disable_total_count,
            r.cursor is None,
    {
        let sort_direction = match &self.sort_direction {
            Some(s) => parse_sort_direction(s.as_str()),
            None => None,
        };
        let mut filters: Vec<Filter> = Vec::new();
        let mut i: usize = 0;
        while i < self.filter.len()
            invariant
                i <= self.filter@.len(),
                read_filters(views(self.filter@.take(i as int)), filters@),
            decreases self.filter@.len() - i,
        {
            let ghost before = filters@;
            assert(views(self.filter@.take(i + 1)).drop_last() =~= views(self.filter@.take(i as int)));
            assert(views(self.filter@.take(i + 1)).last() == self.filter@[i as int]@);
            match parse_filter(self.filter[i].as_str()) {
                Some(f) => {
                    filters.push(f);
                    assert(filters@.drop_last() =~= before);
                },
                None => {},
            }
            i = i + 1;
        }
        assert(self.filter@.take(i as int) =~= self.filter@);
        let search = match self.search {
            Some(q) => {
                let fields = match &self.search_fields {
                    Some(f) => trimmed_pieces(f.as_str()),
                    None => Vec::new(),
                };
                if fields.len() > 0 {
                    Some(SearchParams { query: q, fields, case_sensitive: false, exact_match: false })
                } else {
                    None
                }
            },
            None => None,
        };
        let p = PaginationParams::new(self.page, self.per_page);
        PaginationParams { sort_by: self.sort_by, sort_direction, filters, search, ..p }
    }
}

/// The comma-separated pieces of `t`, each trimmed.
fn trimmed_pieces(t: &str) -> (r: Vec<String>)
    ensures
        views(r@) == search_field_list(t@),
{
    let pieces = split_on(t, ',');
    let mut out: Vec<String> = Vec::new();
    let mut i: usize = 0;
    while i < pieces.len()
        invariant
            i <= pieces@.len(),
            views(pieces@) == split(t@, ','),
            out@.len() == i,
            forall|k: int| 0 <= k < i ==> #[trigger] out@[k]@ == trim(split(t@, ',')[k]),
        decreases pieces@.len() - i,
    {
        assert(views(pieces@)[i as int] == pieces@[i as int]@);
        out.push(trimmed(pieces[i].as_str()));
        i = i + 1;
    }
    assert(views(out@) =~= search_field_list(t@));
    out
}

/// The `u32` that `t` is the text of, as `u32::from_str` reads it.
pub open spec fn u32_of(t: Seq<char>) -> Option<u32> {
    if t.len() > 0 && t[0] == '-' {
        None
    } else {
        match crate::parse::i64_of(t) {
            Some(v) => if 0 <= v <= u32::MAX {
                Some(v as u32)
            } else {
                None
            },
            None => None,
        }
    }
}

/// Reads `t` as `u32::from_str` does.
pub fn parse_u32(t: &str) -> (r: Option<u32>)
    ensures
        r == u32_of(t@),
{
    if t.unicode_len() > 0 && t.get_char(0) == '-' {
        return None;
    }
    match parse_i64(t) {
        Some(v) => if 0 <= v && v <= 4294967295 {
            Some(v as u32)
        } else {
            None
        },
        None => None,
    }
}

/// Page, size and ordering read from query segments, later keys overriding
/// earlier ones: `page` and `per_page` when they read as `u32` (clamped),
/// `sort_by` as given, `sort_direction` as `sort_direction_named` reads it.
pub open spec fn segments_state(
    pairs: Seq<(Seq<char>, Seq<char>)>,
) -> (u32, u32, Option<Seq<char>>, Option<SortDirection>)
    decreases pairs.len(),
{
    if pairs.len() == 0 {
        (1, DEFAULT_PER_PAGE, None, None)
    } else {
        let (page, per_page, sort_by, dir) = segments_state(pairs.drop_last());
        let (k, v) = pairs.last();
        if k == "page"@ {
            match u32_of(v) {
                Some(p) => (clamp_page(p), per_page, sort_by, dir),
                None => (page, per_page, sort_by, dir),
            }
        } else if k == "per_page"@ {
            match u32_of(v) {
                Some(p) => (page, clamp_per_page(p), sort_by, dir),
                None => (page, per_page, sort_by, dir),
            }
        } else if k == "sort_by"@ {
            (page, per_page, Some(v), dir)
        } else if k == "sort_direction"@ {
            (page, per_page, sort_by, sort_direction_named(v))
        } else {
            (page, per_page, sort_by, dir)
        }
    }
}

/// The views of key/value pairs.
pub open spec fn pair_views(pairs: Seq<(String, String)>) -> Seq<(Seq<char>, Seq<char>)> {
    pairs.map_values(|p: (String, String)| (p.0@, p.1@))
}

/// The request that query segments describe; see `segments_state`.
pub fn params_from_segments(pairs: &Vec<(String, String)>) -> (r: PaginationParams)
    ensures
        ({
            let (page, per_page, sort_by, dir) = segments_state(pair_views(pairs@));
            query_params(r, page, per_page, sort_by, dir)
        }),
{
    let mut page: u32 = 1;
    let mut per_page: u32 = DEFAULT_PER_PAGE;
    let mut sort_by: Option<String> = None;
    let mut dir: Option<SortDirection> = None;
    let mut i: usize = 0;
    while i < pairs.len()
        invariant
            i <= pairs@.len(),
            1 <= page,
            1 <= per_page <= crate::params::MAX_PER_PAGE,
            segments_state(pair_views(pairs@.take(i as int))) == (
                page,
                per_page,
                crate::params::opt_view(sort_by),
                dir,
            ),
        decreases pairs@.len() - i,
    {
        assert(pair_views(pairs@.take(i + 1)).drop_last() =~= pair_views(pairs@.take(i as int)));
        let key = pairs[i].0.as_str();
        let value = pairs[i].1.as_str();
        if crate::text::text_is(key, "page") {
            match parse_u32(value) {
                Some(p) => {
                    page = if p < 1 {
                        1
                    } else {
                        p
                    };
                },
                None => {},
            }
        } else if crate::text::text_is(key, "per_page") {
            match parse_u32(value) {
                Some(p) => {
                    per_page = if p < 1 {
                        1
                    } else if p > crate::params::MAX_PER_PAGE {
                        crate::params::MAX_PER_PAGE
                    } else {
                        p
                    };
                },
                None => {},
            }
        } else if crate::text::text_is(key, "sort_by") {
            sort_by = Some(pairs[i].1.clone());
        } else if crate::text::text_is(key, "sort_direction") {
            dir = parse_sort_direction(value);
        }
        i = i + 1;
    }
    assert(pairs@.take(i as int) =~= pairs@);
    let p = PaginationParams::new(page, per_page);
    PaginationParams { sort_by, sort_direction: dir, ..p }
}

} // verus!
