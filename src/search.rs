//! Free-text search over several fields.
use vstd::prelude::*;

use crate::text::{double_quotes, joined, push_doubled_quotes, push_sql_quoted, sql_quoted};

verus! {

/// Text searched for in a list of fields.
#[derive(Clone, Debug, PartialEq)]
pub struct SearchParams {
    pub query: String,
    pub fields: Vec<String>,
    pub case_sensitive: bool,
    pub exact_match: bool,
}

/// The quoted pattern of a search: the query itself for an exact match,
/// else the query between `%` wildcards; inner quotes are doubled.
pub open spec fn search_pattern(s: SearchParams) -> Seq<char> {
    if s.exact_match {
        sql_quoted(s.query@)
    } else {
        "'%"@ + double_quotes(s.query@) + "%'"@
    }
}

/// One condition per field: `field op pattern`.
pub open spec fn field_conditions(fields: Seq<String>, op: Seq<char>, pattern: Seq<char>) -> Seq<
    Seq<char>,
> {
    fields.map_values(|f: String| f@ + " "@ + op + " "@ + pattern)
}

/// The conditions on all fields, joined by `" OR "` and parenthesised.
pub open spec fn any_field(fields: Seq<String>, op: Seq<char>, pattern: Seq<char>) -> Seq<char> {
    "("@ + joined(field_conditions(fields, op, pattern), " OR "@) + ")"@
}

/// Generic SQL text of a search: `LIKE` when case-sensitive, else `ILIKE`.
pub open spec fn search_sql(s: SearchParams) -> Seq<char> {
    any_field(
        s.fields@,
        if s.case_sensitive {
            "LIKE"@
        } else {
            "ILIKE"@
        },
        search_pattern(s),
    )
}

/// SurrealQL text of a search, which matches with `~`.
pub open spec fn search_surrealql(s: SearchParams) -> Seq<char> {
    any_field(s.fields@, "~"@, search_pattern(s))
}

impl SearchParams {
    /// A substring, case-insensitive search.
    pub fn new(query: String, fields: Vec<String>) -> (r: SearchParams)
        ensures
            r == (SearchParams { query, fields, case_sensitive: false, exact_match: false }),
    {
        SearchParams { query, fields, case_sensitive: false, exact_match: false }
    }

    pub fn with_case_sensitive(self, sensitive: bool) -> (r: SearchParams)
        ensures
            r == (SearchParams { case_sensitive: sensitive, ..self }),
    {
        SearchParams { case_sensitive: sensitive, ..self }
    }

    pub fn with_exact_match(self, exact: bool) -> (r: SearchParams)
        ensures
            r == (SearchParams { exact_match: exact, ..self }),
    {
        SearchParams { exact_match: exact, ..self }
    }

    fn pattern(&self) -> (r: String)
        ensures
            r@ == search_pattern(*self),
    {
        let mut r = String::new();
        if self.exact_match {
            push_sql_quoted(&mut r, self.query.as_str());
        } else {
            r.push_str("'%");
            push_doubled_quotes(&mut r, self.query.as_str());
            r.push_str("%'");
        }
        assert(r@ =~= search_pattern(*self));
        r
    }

    /// Every field matched against the pattern with `op`, OR-joined, parenthesised.
    fn render(&self, op: &str) -> (r: String)
        ensures
            r@ == any_field(self.fields@, op@, search_pattern(*self)),
    {
        let pattern = self.pattern();
        let ghost conds = field_conditions(self.fields@, op@, pattern@);
        let mut r = String::new();
        r.push_str("(");
        let mut i: usize = 0;
        while i < self.fields.len()
            invariant
                i <= self.fields@.len(),
                conds == field_conditions(self.fields@, op@, pattern@),
                r@ == "("@ + joined(conds.take(i as int), " OR "@),
            decreases self.fields@.len() - i,
        {
            proof {
                assert(conds.take(i as int + 1).drop_last() =~= conds.take(i as int));
            }
            if i > 0 {
                r.push_str(" OR ");
            }
            r.push_str(self.fields[i].as_str());
            r.push_str(" ");
            r.push_str(op);
            r.push_str(" ");
            r.push_str(pattern.as_str());
            assert(r@ =~= "("@ + joined(conds.take(i as int + 1), " OR "@));
            i = i + 1;
        }
        assert(conds.take(i as int) =~= conds);
        r.push_str(")");
        assert(r@ =~= any_field(self.fields@, op@, search_pattern(*self)));
        r
    }

    /// The generic SQL text of this search.
    pub fn to_sql_where(&self) -> (r: String)
        ensures
            r@ == search_sql(*self),
    {
        if self.case_sensitive {
            self.render("LIKE")
        } else {
            self.render("ILIKE")
        }
    }

    /// The SurrealQL text of this search.
    pub fn to_surrealql_where(&self) -> (r: String)
        ensures
            r@ == search_surrealql(*self),
    {
        self.render("~")
    }
}

} // verus!
