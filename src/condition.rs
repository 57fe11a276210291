//! Requests as structured conditions for query builders that take
//! expressions rather than text: every predicate a column, a comparison
//! and values.
use vstd::prelude::*;

use crate::cursor::{selects_greater, CursorValue};
use crate::filter::{Filter, FilterOperator, FilterValue};
use crate::params::PaginationParams;
use crate::search::SearchParams;

verus! {

/// A value compared against a column.
#[derive(Clone, Debug, PartialEq)]
pub enum SqlValue {
    Text(String),
    Int(i64),
    /// The decimal text of a floating-point number.
    Float(String),
    Bool(bool),
    Null,
}

/// Comparison of a column with one value.
#[derive(Clone, Copy, Debug, PartialEq, Eq, Structural)]
pub enum Comparison {
    Eq,
    Ne,
    Gt,
    Lt,
    Gte,
    Lte,
}

/// One predicate on a column.
#[derive(Clone, Debug, PartialEq)]
pub enum Predicate {
    /// `column op value`
    Compare { column: String, op: Comparison, value: SqlValue },
    /// `column LIKE pattern`
    Like { column: String, pattern: String },
    /// `LOWER(column) LIKE pattern`
    LowerLike { column: String, pattern: String },
    /// `column IN (values)`, or `NOT IN` when negated
    In { column: String, values: Vec<SqlValue>, negated: bool },
    /// `column IS NULL`, or `IS NOT NULL` when negated
    IsNull { column: String, negated: bool },
    /// `column BETWEEN low AND high`
    Between { column: String, low: SqlValue, high: SqlValue },
}

/// Predicates that must all hold, and a group of which one must hold.
#[derive(Debug)]
pub struct ConditionSet {
    pub all: Vec<Predicate>,
    pub any: Option<Vec<Predicate>>,
}

/// Lower case of text as `str::to_lowercase` computes it.
pub uninterp spec fn lower_of(s: Seq<char>) -> Seq<char>;

/// Relies on `str::to_lowercase`: the result depends on the characters alone.
#[verifier::external_body]
fn lowercase(s: &str) -> (r: String)
    ensures
        r@ == lower_of(s@),
{
    s.to_lowercase()
}

/// `s` is the value that `v` stands for: `NULL` for null and for arrays.
pub open spec fn sql_value_of(v: FilterValue, s: SqlValue) -> bool {
    match v {
        FilterValue::String(x) => s matches SqlValue::Text(y) && y@ == x@,
        FilterValue::Int(i) => s == SqlValue::Int(i),
        FilterValue::Float(t) => s matches SqlValue::Float(u) && u@ == t@,
        FilterValue::Bool(b) => s == SqlValue::Bool(b),
        _ => s == SqlValue::Null,
    }
}

fn value_of(v: &FilterValue) -> (r: SqlValue)
    ensures
        sql_value_of(*v, r),
{
    match v {
        FilterValue::String(x) => SqlValue::Text(x.clone()),
        FilterValue::Int(i) => SqlValue::Int(*i),
        FilterValue::Float(t) => SqlValue::Float(t.text()),
        FilterValue::Bool(b) => SqlValue::Bool(*b),
        _ => SqlValue::Null,
    }
}

/// The comparison an operator stands for, if it compares with one value.
pub open spec fn comparison_of(op: FilterOperator) -> Option<Comparison> {
    match op {
        FilterOperator::Eq => Some(Comparison::Eq),
        FilterOperator::Ne => Some(Comparison::Ne),
        FilterOperator::Gt => Some(Comparison::Gt),
        FilterOperator::Lt => Some(Comparison::Lt),
        FilterOperator::Gte => Some(Comparison::Gte),
        FilterOperator::Lte => Some(Comparison::Lte),
        _ => None,
    }
}

/// `p` is `column IN (items)` (`NOT IN` when negated), item by item.
pub open spec fn in_predicate(col: Seq<char>, items: Seq<FilterValue>, neg: bool, p: Option<Predicate>) -> bool {
    p matches Some(Predicate::In { column, values, negated }) && column@ == col && negated == neg
        && values@.len() == items.len() && forall|k: int|
        0 <= k < items.len() ==> sql_value_of(items[k], #[trigger] values@[k])
}

/// The predicate of a filter, or none where the value does not suit the
/// operator: comparisons take any value; `Like` a string pattern; `ILike`
/// a string, lowered, against the lowered column; `In`/`NotIn` an array, or
/// else an equality (inequality for `NotIn`) with the value; `Between` a
/// pair, or else an equality with the value (membership for an array);
/// `Contains` a string, matched anywhere.
pub open spec fn predicate_of(f: Filter, p: Option<Predicate>) -> bool {
    let col = f.field@;
    match comparison_of(f.operator) {
        Some(c) => p matches Some(Predicate::Compare { column, op, value }) && column@ == col && op
            == c && sql_value_of(f.value, value),
        None => match f.operator {
            FilterOperator::Like => match f.value {
                FilterValue::String(x) => p matches Some(Predicate::Like { column, pattern })
                    && column@ == col && pattern@ == x@,
                _ => p is None,
            },
            FilterOperator::ILike => match f.value {
                FilterValue::String(x) => p matches Some(Predicate::LowerLike { column, pattern })
                    && column@ == col && pattern@ == lower_of(x@),
                _ => p is None,
            },
            FilterOperator::In | FilterOperator::NotIn => match f.value {
                FilterValue::Array(items) => in_predicate(col, items@, f.operator == FilterOperator::NotIn, p),
                _ => p matches Some(Predicate::Compare { column, op, value }) && column@ == col
                    && op == (if f.operator == FilterOperator::NotIn {
                    Comparison::Ne
                } else {
                    Comparison::Eq
                }) && sql_value_of(f.value, value),
            },
            FilterOperator::IsNull | FilterOperator::IsNotNull => p matches Some(
                Predicate::IsNull { column, negated },
            ) && column@ == col && negated == (f.operator == FilterOperator::IsNotNull),
            FilterOperator::Between => if crate::filter::is_pair(f.value) {
                let items = f.value->Array_0@;
                p matches Some(Predicate::Between { column, low, high }) && column@ == col
                    && sql_value_of(items[0], low) && sql_value_of(items[1], high)
            } else {
                match f.value {
                    FilterValue::Array(items) => in_predicate(col, items@, false, p),
                    _ => p matches Some(Predicate::Compare { column, op, value }) && column@ == col
                        && op == Comparison::Eq && sql_value_of(f.value, value),
                }
            },
            FilterOperator::Contains => match f.value {
                FilterValue::String(x) => p matches Some(Predicate::Like { column, pattern })
                    && column@ == col && pattern@ == "%"@ + x@ + "%"@,
                _ => p is None,
            },
            _ => p is None,
        },
    }
}

fn in_of(column: String, items: &Vec<FilterValue>, negated: bool) -> (r: Predicate)
    ensures
        in_predicate(column@, items@, negated, Some(r)),
{
    let mut values: Vec<SqlValue> = Vec::new();
    let mut i: usize = 0;
    while i < items.len()
        invariant
            i <= items@.len(),
            values@.len() == i,
            forall|k: int| 0 <= k < i ==> sql_value_of(items@[k], #[trigger] values@[k]),
        decreases items@.len() - i,
    {
        values.push(value_of(&items[i]));
        i = i + 1;
    }
    Predicate::In { column, values, negated }
}

fn filter_predicate(f: &Filter) -> (r: Option<Predicate>)
    ensures
        predicate_of(*f, r),
{
    let column = f.field.clone();
    match f.operator {
        FilterOperator::Eq => Some(Predicate::Compare { column, op: Comparison::Eq, value: value_of(&f.value) }),
        FilterOperator::Ne => Some(Predicate::Compare { column, op: Comparison::Ne, value: value_of(&f.value) }),
        FilterOperator::Gt => Some(Predicate::Compare { column, op: Comparison::Gt, value: value_of(&f.value) }),
        FilterOperator::Lt => Some(Predicate::Compare { column, op: Comparison::Lt, value: value_of(&f.value) }),
        FilterOperator::Gte => Some(Predicate::Compare { column, op: Comparison::Gte, value: value_of(&f.value) }),
        FilterOperator::Lte => Some(Predicate::Compare { column, op: Comparison::Lte, value: value_of(&f.value) }),
        FilterOperator::Like => match &f.value {
            FilterValue::String(x) => Some(Predicate::Like { column, pattern: x.clone() }),
            _ => None,
        },
        FilterOperator::ILike => match &f.value {
            FilterValue::String(x) => Some(Predicate::LowerLike { column, pattern: lowercase(x.as_str()) }),
            _ => None,
        },
        FilterOperator::In | FilterOperator::NotIn => {
            let negated = match f.operator {
                FilterOperator::NotIn => true,
                _ => false,
            };
            match &f.value {
                FilterValue::Array(items) => Some(in_of(column, items, negated)),
                _ => Some(
                    Predicate::Compare {
                        column,
                        op: if negated {
                            Comparison::Ne
                        } else {
                            Comparison::Eq
                        },
                        value: value_of(&f.value),
                    },
                ),
            }
        },
        FilterOperator::IsNull => Some(Predicate::IsNull { column, negated: false }),
        FilterOperator::IsNotNull => Some(Predicate::IsNull { column, negated: true }),
        FilterOperator::Between => match &f.value {
            FilterValue::Array(items) => if items.len() == 2 {
                Some(Predicate::Between { column, low: value_of(&items[0]), high: value_of(&items[1]) })
            } else {
                Some(in_of(column, items, false))
            },
            _ => Some(Predicate::Compare { column, op: Comparison::Eq, value: value_of(&f.value) }),
        },
        FilterOperator::Contains => match &f.value {
            FilterValue::String(x) => {
                let mut pattern = String::new();
                pattern.push('%');
                pattern.push_str(x.as_str());
                pattern.push('%');
                proof {
                    reveal_strlit("%");
                }
                assert(pattern@ =~= "%"@ + x@ + "%"@);
                Some(Predicate::Like { column, pattern })
            },
            _ => None,
        },
    }
}

/// The predicates of the filters, in order, those that do not suit their
/// operator left out.
pub open spec fn filter_predicates(fs: Seq<Filter>, ps: Seq<Predicate>) -> bool
    decreases fs.len(),
{
    if fs.len() == 0 {
        ps.len() == 0
    } else {
        let f = fs.last();
        if exists|p: Predicate| predicate_of(f, Some(p)) {
            ps.len() > 0 && predicate_of(f, Some(ps.last())) && filter_predicates(
                fs.drop_last(),
                ps.drop_last(),
            )
        } else {
            filter_predicates(fs.drop_last(), ps)
        }
    }
}

/// The cursor's predicate: the cursor column compared with its value, `>`
/// or `<` as the cursor direction and sort direction choose.
pub open spec fn cursor_predicate(p: PaginationParams, q: Predicate) -> bool {
    let c = p.cursor->Some_0;
    q matches Predicate::Compare { column, op, value } && column@ == c.field@ && op == (if selects_greater(
        c.direction,
        p.sort_direction,
    ) {
        Comparison::Gt
    } else {
        Comparison::Lt
    }) && match c.value {
        CursorValue::String(s) => value matches SqlValue::Text(t) && t@ == s@,
        CursorValue::Int(i) => value == SqlValue::Int(i),
        CursorValue::Float(s) => value matches SqlValue::Float(t) && t@ == s@,
    }
}

/// The search group: per field, the pattern (the query, between `%`
/// wildcards unless exact) matched as is when case-sensitive, else lowered
/// and matched against the lowered column.
pub open spec fn search_predicates(s: SearchParams, ps: Seq<Predicate>) -> bool {
    let pattern = if s.exact_match {
        s.query@
    } else {
        "%"@ + s.query@ + "%"@
    };
    ps.len() == s.fields@.len() && forall|k: int|
        #![trigger ps[k]]
        0 <= k < ps.len() ==> if s.case_sensitive {
            ps[k] matches Predicate::Like { column, pattern: pt } && column@
                == s.fields@[k]@ && pt@ == pattern
        } else {
            ps[k] matches Predicate::LowerLike { column, pattern: pt } && column@ == s.fields@[k]@
                && pt@ == lower_of(pattern)
        }
}

/// The conditions of a request: the cursor predicate first when there is
/// a cursor, then the filters' predicates; the search as a group of which
/// one must hold.
pub open spec fn request_conditions(p: PaginationParams, c: ConditionSet) -> bool {
    &&& if p.cursor is Some {
        c.all@.len() > 0 && cursor_predicate(p, c.all@[0]) && filter_predicates(
            p.filters@,
            c.all@.drop_first(),
        )
    } else {
        filter_predicates(p.filters@, c.all@)
    }
    &&& match p.search {
        Some(s) => c.any matches Some(g) && search_predicates(s, g@),
        None => c.any is None,
    }
}

impl ConditionSet {
    /// The conditions of a request; see `request_conditions`.
    pub fn from_params(params: &PaginationParams) -> (r: ConditionSet)
        ensures
            request_conditions(*params, r),
    {
        let mut all: Vec<Predicate> = Vec::new();
        match &params.cursor {
            Some(c) => {
                let op = match c.direction.comparison(params.sort_direction) {
                    crate::cursor::CursorComparison::Greater => Comparison::Gt,
                    crate::cursor::CursorComparison::Less => Comparison::Lt,
                };
                let value = match &c.value {
                    CursorValue::String(s) => SqlValue::Text(s.clone()),
                    CursorValue::Int(i) => SqlValue::Int(*i),
                    CursorValue::Float(t) => SqlValue::Float(t.clone()),
                };
                all.push(Predicate::Compare { column: c.field.clone(), op, value });
            },
            None => {},
        }
        let ghost head = all@;
        assert(params.cursor is Some ==> head.len() == 1 && cursor_predicate(*params, head[0]));
        let mut i: usize = 0;
        while i < params.filters.len()
            invariant
                i <= params.filters@.len(),
                params.cursor is Some ==> head.len() == 1 && cursor_predicate(*params, head[0]),
                params.cursor is None ==> head.len() == 0,
                all@.len() >= head.len(),
                all@.subrange(0, head.len() as int) == head,
                filter_predicates(params.filters@.take(i as int), all@.skip(head.len() as int)),
            decreases params.filters@.len() - i,
        {
            assert(params.filters@.take(i + 1).drop_last() =~= params.filters@.take(i as int));
            assert(params.filters@.take(i + 1).last() == params.filters@[i as int]);
            let ghost before = all@;
            match filter_predicate(&params.filters[i]) {
                Some(p) => {
                    all.push(p);
                    assert(all@.skip(head.len() as int).drop_last() =~= before.skip(head.len() as int));
                    assert(all@.subrange(0, head.len() as int) =~= head);
                },
                None => {
                    assert(forall|p: Predicate| !predicate_of(params.filters@[i as int], Some(p)));
                },
            }
            i = i + 1;
        }
        assert(params.filters@.take(i as int) =~= params.filters@);
        proof {
            if params.cursor is Some {
                assert(all@.drop_first() =~= all@.skip(1));
                assert(all@[0] == all@.subrange(0, 1)[0]);
            } else {
                assert(all@.skip(0) =~= all@);
            }
        }
        let any = match &params.search {
            Some(s) => Some(search_group(s)),
            None => None,
        };
        ConditionSet { all, any }
    }
}

fn search_group(s: &SearchParams) -> (r: Vec<Predicate>)
    ensures
        search_predicates(*s, r@),
{
    let pattern = if s.exact_match {
        s.query.clone()
    } else {
        let mut p = String::new();
        p.push('%');
        p.push_str(s.query.as_str());
        p.push('%');
        proof {
            reveal_strlit("%");
        }
        assert(p@ =~= "%"@ + s.query@ + "%"@);
        p
    };
    let lowered = lowercase(pattern.as_str());
    let mut out: Vec<Predicate> = Vec::new();
    let mut i: usize = 0;
    while i < s.fields.len()
        invariant
            i <= s.fields@.len(),
            out@.len() == i,
            pattern@ == (if s.exact_match {
                s.query@
            } else {
                "%"@ + s.query@ + "%"@
            }),
            lowered@ == lower_of(pattern@),
            forall|k: int|
                #![trigger out@[k]]
                0 <= k < i ==> if s.case_sensitive {
                    out@[k] matches Predicate::Like { column, pattern: pt } && column@
                        == s.fields@[k]@ && pt@ == pattern@
                } else {
                    out@[k] matches Predicate::LowerLike { column, pattern: pt } && column@
                        == s.fields@[k]@ && pt@ == lowered@
                },
        decreases s.fields@.len() - i,
    {
        let column = s.fields[i].clone();
        if s.case_sensitive {
            out.push(Predicate::Like { column, pattern: pattern.clone() });
        } else {
            out.push(Predicate::LowerLike { column, pattern: lowered.clone() });
        }
        i = i + 1;
    }
    out
}

} // verus!
