//! Single-field predicates and their rendering as generic SQL and SurrealQL.
use vstd::prelude::*;

use crate::parse::{float_text, is_float_text};
use crate::text::{int_text, push_i64, push_sql_quoted, sql_quoted};

verus! {

/// Comparison applied by a filter.
#[derive(Clone, Copy, Debug, PartialEq, Eq, Structural)]
pub enum FilterOperator {
    Eq,
    Ne,
    Gt,
    Lt,
    Gte,
    Lte,
    Like,
    ILike,
    In,
    NotIn,
    IsNull,
    IsNotNull,
    Between,
    Contains,
}

/// The text of a floating-point number, always one that `f64::from_str`
/// accepts (`"2.5"`, `"-1e3"`, `"inf"`), so that it can stand bare in a query.
#[derive(Debug, PartialEq)]
pub struct FloatLiteral {
    text: String,
}

impl View for FloatLiteral {
    type V = Seq<char>;

    closed spec fn view(&self) -> Seq<char> {
        self.text@
    }
}

impl FloatLiteral {
    #[verifier::type_invariant]
    spec fn inv(self) -> bool {
        is_float_text(self.text@)
    }

    /// The literal of `text` when `f64::from_str` accepts it; else the text back.
    pub fn new(text: String) -> (r: Result<FloatLiteral, String>)
        ensures
            r is Ok <==> is_float_text(text@),
            r matches Ok(f) ==> f@ == text@,
            r matches Err(t) ==> t@ == text@,
    {
        if float_text(text.as_str()) {
            Ok(FloatLiteral { text })
        } else {
            Err(text)
        }
    }

    /// The text, which `f64::from_str` accepts.
    pub fn as_str(&self) -> (r: &str)
        ensures
            r@ == self@,
            is_float_text(r@),
    {
        proof {
            use_type_invariant(self);
        }
        self.text.as_str()
    }

    /// A copy of the text.
    pub fn text(&self) -> (r: String)
        ensures
            r@ == self@,
            is_float_text(r@),
    {
        proof {
            use_type_invariant(self);
        }
        self.text.clone()
    }
}

impl Clone for FloatLiteral {
    fn clone(&self) -> (r: FloatLiteral)
        ensures
            r@ == self@,
    {
        proof {
            use_type_invariant(self);
        }
        FloatLiteral { text: self.text.clone() }
    }
}

/// A value compared against a field. A `Float` is rendered as its text.
#[derive(Debug, PartialEq)]
pub enum FilterValue {
    String(String),
    Int(i64),
    Float(FloatLiteral),
    Bool(bool),
    Array(Vec<FilterValue>),
    Null,
}

/// The SQL literal of a value: strings quoted with inner quotes doubled,
/// numbers bare, booleans `TRUE`/`FALSE`, arrays as a parenthesised list.
pub open spec fn literal(v: FilterValue) -> Seq<char>
    decreases v,
{
    match v {
        FilterValue::String(s) => sql_quoted(s@),
        FilterValue::Int(i) => int_text(i as int),
        FilterValue::Float(t) => t@,
        FilterValue::Bool(b) => if b {
            "TRUE"@
        } else {
            "FALSE"@
        },
        FilterValue::Array(items) => "("@ + literal_list(items@) + ")"@,
        FilterValue::Null => "NULL"@,
    }
}

/// The literals of `items`, separated by `", "`.
pub open spec fn literal_list(items: Seq<FilterValue>) -> Seq<char>
    decreases items,
{
    if items.len() == 0 {
        Seq::empty()
    } else if items.len() == 1 {
        literal(items[0])
    } else {
        literal_list(items.drop_last()) + ", "@ + literal(items.last())
    }
}

/// `true` when `v` is an array of exactly two values.
pub open spec fn is_pair(v: FilterValue) -> bool {
    v matches FilterValue::Array(items) && items@.len() == 2
}

/// Generic SQL text of a filter.
pub open spec fn sql_where(f: Filter) -> Seq<char> {
    let lhs = f.field@;
    let v = literal(f.value);
    match f.operator {
        FilterOperator::Eq => lhs + " = "@ + v,
        FilterOperator::Ne => lhs + " != "@ + v,
        FilterOperator::Gt => lhs + " > "@ + v,
        FilterOperator::Lt => lhs + " < "@ + v,
        FilterOperator::Gte => lhs + " >= "@ + v,
        FilterOperator::Lte => lhs + " <= "@ + v,
        FilterOperator::Like => lhs + " LIKE "@ + v,
        FilterOperator::ILike => lhs + " ILIKE "@ + v,
        FilterOperator::In => lhs + " IN "@ + v,
        FilterOperator::NotIn => lhs + " NOT IN "@ + v,
        FilterOperator::IsNull => lhs + " IS NULL"@,
        FilterOperator::IsNotNull => lhs + " IS NOT NULL"@,
        FilterOperator::Between => if is_pair(f.value) {
            let items = f.value->Array_0@;
            lhs + " BETWEEN "@ + literal(items[0]) + " AND "@ + literal(items[1])
        } else {
            lhs + " = "@ + v
        },
        FilterOperator::Contains => lhs + " @> "@ + v,
    }
}

/// SurrealQL text of a filter.
pub open spec fn surrealql_where(f: Filter) -> Seq<char> {
    let lhs = f.field@;
    let v = literal(f.value);
    match f.operator {
        FilterOperator::Eq => lhs + " = "@ + v,
        FilterOperator::Ne => lhs + " != "@ + v,
        FilterOperator::Gt => lhs + " > "@ + v,
        FilterOperator::Lt => lhs + " < "@ + v,
        FilterOperator::Gte => lhs + " >= "@ + v,
        FilterOperator::Lte => lhs + " <= "@ + v,
        FilterOperator::Like => lhs + " ~ "@ + v,
        FilterOperator::ILike => lhs + " ~ "@ + v,
        FilterOperator::In => lhs + " INSIDE "@ + v,
        FilterOperator::NotIn => lhs + " NOT INSIDE "@ + v,
        FilterOperator::IsNull => lhs + " IS NULL"@,
        FilterOperator::IsNotNull => lhs + " IS NOT NULL"@,
        FilterOperator::Between => if is_pair(f.value) {
            let items = f.value->Array_0@;
            lhs + " >= "@ + literal(items[0]) + " AND "@ + lhs + " <= "@ + literal(items[1])
        } else {
            lhs + " = "@ + v
        },
        FilterOperator::Contains => lhs + " CONTAINS "@ + v,
    }
}

impl Clone for FilterValue {
    fn clone(&self) -> (r: FilterValue)
        ensures
            literal(r) == literal(*self),
        decreases self,
    {
        match self {
            FilterValue::String(s) => FilterValue::String(s.clone()),
            FilterValue::Int(i) => FilterValue::Int(*i),
            FilterValue::Float(t) => FilterValue::Float(t.clone()),
            FilterValue::Bool(b) => FilterValue::Bool(*b),
            FilterValue::Array(items) => {
                let mut out: Vec<FilterValue> = Vec::new();
                let mut i: usize = 0;
                while i < items.len()
                    invariant
                        *self is Array,
                        self->Array_0 == *items,
                        i <= items@.len(),
                        out@.len() == i,
                        forall|k: int| 0 <= k < i ==> literal(#[trigger] out@[k]) == literal(items@[k]),
                    decreases items@.len() - i,
                {
                    proof {
                        assert(decreases_to!(*self => self->Array_0));
                        assert(decreases_to!(self->Array_0 => self->Array_0@));
                        assert(decreases_to!(self->Array_0@ => self->Array_0@[i as int]));
                    }
                    out.push(items[i].clone());
                    i = i + 1;
                }
                proof {
                    lemma_literal_list_same(out@, items@);
                }
                FilterValue::Array(out)
            },
            FilterValue::Null => FilterValue::Null,
        }
    }
}

proof fn lemma_literal_list_same(a: Seq<FilterValue>, b: Seq<FilterValue>)
    requires
        a.len() == b.len(),
        forall|k: int| 0 <= k < a.len() ==> literal(#[trigger] a[k]) == literal(b[k]),
    ensures
        literal_list(a) == literal_list(b),
    decreases a.len(),
{
    if a.len() > 1 {
        lemma_literal_list_same(a.drop_last(), b.drop_last());
        assert(literal(a.last()) == literal(b.last()));
    } else if a.len() == 1 {
        assert(literal(a[0]) == literal(b[0]));
    }
}

impl FilterValue {
    /// Appends the SQL literal of this value.
    pub fn push_sql(&self, out: &mut String)
        ensures
            final(out)@ == old(out)@ + literal(*self),
        decreases self,
    {
        match self {
            FilterValue::String(s) => push_sql_quoted(out, s.as_str()),
            FilterValue::Int(i) => push_i64(out, *i),
            FilterValue::Float(t) => out.push_str(t.as_str()),
            FilterValue::Bool(b) => {
                if *b {
                    out.push_str("TRUE");
                } else {
                    out.push_str("FALSE");
                }
            },
            FilterValue::Array(items) => {
                let ghost start = out@;
                out.push_str("(");
                let mut i: usize = 0;
                while i < items.len()
                    invariant
                        *self is Array,
                        self->Array_0 == *items,
                        i <= items@.len(),
                        out@ == start + "("@ + literal_list(items@.take(i as int)),
                    decreases items@.len() - i,
                {
                    proof {
                        assert(items@.take(i as int + 1).drop_last() =~= items@.take(i as int));
                        assert(decreases_to!(*self => self->Array_0));
                        assert(decreases_to!(self->Array_0 => self->Array_0@));
                        assert(decreases_to!(self->Array_0@ => self->Array_0@[i as int]));
                    }
                    if i > 0 {
                        out.push_str(", ");
                    }
                    items[i].push_sql(out);
                    assert(out@ =~= start + "("@ + literal_list(items@.take(i as int + 1)));
                    i = i + 1;
                }
                assert(items@.take(i as int) =~= items@);
                out.push_str(")");
                assert(out@ =~= start + literal(*self));
            },
            FilterValue::Null => out.push_str("NULL"),
        }
    }

    /// The SQL literal of this value.
    pub fn to_sql_string(&self) -> (r: String)
        ensures
            r@ == literal(*self),
    {
        let mut r = String::new();
        self.push_sql(&mut r);
        assert(r@ =~= literal(*self));
        r
    }
}

/// A predicate on one field: `field operator value`.
#[derive(Clone, Debug, PartialEq)]
pub struct Filter {
    pub field: String,
    pub operator: FilterOperator,
    pub value: FilterValue,
}

impl Filter {
    pub fn new(field: String, operator: FilterOperator, value: FilterValue) -> (r: Filter)
        ensures
            r == (Filter { field, operator, value }),
    {
        Filter { field, operator, value }
    }

    /// `field`, then `op`, then the literal of `value`.
    fn comparison(&self, op: &str) -> (r: String)
        ensures
            r@ == self.field@ + op@ + literal(self.value),
    {
        let mut r = String::new();
        r.push_str(self.field.as_str());
        r.push_str(op);
        self.value.push_sql(&mut r);
        assert(r@ =~= self.field@ + op@ + literal(self.value));
        r
    }

    /// `field`, then `op`, with the value left out.
    fn unary(&self, op: &str) -> (r: String)
        ensures
            r@ == self.field@ + op@,
    {
        let mut r = String::new();
        r.push_str(self.field.as_str());
        r.push_str(op);
        assert(r@ =~= self.field@ + op@);
        r
    }

    /// The generic SQL text of this filter.
    pub fn to_sql_where(&self) -> (r: String)
        ensures
            r@ == sql_where(*self),
    {
        match self.operator {
            FilterOperator::Eq => self.comparison(" = "),
            FilterOperator::Ne => self.comparison(" != "),
            FilterOperator::Gt => self.comparison(" > "),
            FilterOperator::Lt => self.comparison(" < "),
            FilterOperator::Gte => self.comparison(" >= "),
            FilterOperator::Lte => self.comparison(" <= "),
            FilterOperator::Like => self.comparison(" LIKE "),
            FilterOperator::ILike => self.comparison(" ILIKE "),
            FilterOperator::In => self.comparison(" IN "),
            FilterOperator::NotIn => self.comparison(" NOT IN "),
            FilterOperator::IsNull => self.unary(" IS NULL"),
            FilterOperator::IsNotNull => self.unary(" IS NOT NULL"),
            FilterOperator::Between => {
                if let FilterValue::Array(items) = &self.value {
                    if items.len() == 2 {
                        let mut r = String::new();
                        r.push_str(self.field.as_str());
                        r.push_str(" BETWEEN ");
                        items[0].push_sql(&mut r);
                        r.push_str(" AND ");
                        items[1].push_sql(&mut r);
                        assert(r@ =~= sql_where(*self));
                        return r;
                    }
                }
                self.comparison(" = ")
            },
            FilterOperator::Contains => self.comparison(" @> "),
        }
    }

    /// The SurrealQL text of this filter.
    pub fn to_surrealql_where(&self) -> (r: String)
        ensures
            r@ == surrealql_where(*self),
    {
        match self.operator {
            FilterOperator::Eq => self.comparison(" = "),
            FilterOperator::Ne => self.comparison(" != "),
            FilterOperator::Gt => self.comparison(" > "),
            FilterOperator::Lt => self.comparison(" < "),
            FilterOperator::Gte => self.comparison(" >= "),
            FilterOperator::Lte => self.comparison(" <= "),
            FilterOperator::Like => self.comparison(" ~ "),
            FilterOperator::ILike => self.comparison(" ~ "),
            FilterOperator::In => self.comparison(" INSIDE "),
            FilterOperator::NotIn => self.comparison(" NOT INSIDE "),
            FilterOperator::IsNull => self.unary(" IS NULL"),
            FilterOperator::IsNotNull => self.unary(" IS NOT NULL"),
            FilterOperator::Between => {
                if let FilterValue::Array(items) = &self.value {
                    if items.len() == 2 {
                        let mut r = String::new();
                        r.push_str(self.field.as_str());
                        r.push_str(" >= ");
                        items[0].push_sql(&mut r);
                        r.push_str(" AND ");
                        r.push_str(self.field.as_str());
                        r.push_str(" <= ");
                        items[1].push_sql(&mut r);
                        assert(r@ =~= surrealql_where(*self));
                        return r;
                    }
                }
                self.comparison(" = ")
            },
            FilterOperator::Contains => self.comparison(" CONTAINS "),
        }
    }
}

} // verus!
