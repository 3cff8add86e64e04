//! Parameterized graph queries: every value a query needs travels as a named
//! parameter, never inside the query text.
use vstd::prelude::*;

verus! {

/// A parameter value of a graph query.
#[derive(Debug)]
pub enum Param {
    Text(String),
    Flag(bool),
    Int(i64),
    /// The IEEE-754 bit pattern of a single-precision value.
    RealBits(u32),
    /// A point in time, in milliseconds since the Unix epoch.
    Millis(i64),
}

/// What a parameter value stands for.
pub enum ParamValue {
    Text(Seq<char>),
    Flag(bool),
    Int(int),
    RealBits(u32),
    Millis(int),
}

impl View for Param {
    type V = ParamValue;

    open spec fn view(&self) -> ParamValue {
        match self {
            Param::Text(s) => ParamValue::Text(s@),
            Param::Flag(b) => ParamValue::Flag(*b),
            Param::Int(i) => ParamValue::Int(*i as int),
            Param::RealBits(b) => ParamValue::RealBits(*b),
            Param::Millis(t) => ParamValue::Millis(*t as int),
        }
    }
}

/// A query pattern with its named parameters.
#[derive(Debug)]
pub struct GraphQuery {
    pub text: &'static str,
    pub params: Vec<(&'static str, Param)>,
}

/// A query as text and a sequence of (name, value) bindings.
pub type QueryView = (Seq<char>, Seq<(Seq<char>, ParamValue)>);

impl View for GraphQuery {
    type V = QueryView;

    open spec fn view(&self) -> QueryView {
        (self.text@, self.params@.map_values(|p: (&'static str, Param)| (p.0@, p.1@)))
    }
}

/// A text parameter holding a copy of `s`.
pub fn text(s: &String) -> (r: Param)
    ensures
        r@ == ParamValue::Text(s@),
{
    Param::Text(s.clone())
}

/// A query with no parameter bound yet.
pub fn new_query(text: &'static str) -> (q: GraphQuery)
    ensures
        q@ == (text@, Seq::<(Seq<char>, ParamValue)>::empty()),
{
    let q = GraphQuery { text, params: Vec::new() };
    assert(q@.1 =~= Seq::<(Seq<char>, ParamValue)>::empty());
    q
}

/// Binds one more parameter.
pub fn bind(q: &mut GraphQuery, name: &'static str, value: Param)
    ensures
        final(q)@ == (old(q)@.0, old(q)@.1.push((name@, value@))),
{
    let ghost before = q.params@;
    q.params.push((name, value));
    assert(q.params@.map_values(|p: (&'static str, Param)| (p.0@, p.1@)) =~= before.map_values(
        |p: (&'static str, Param)| (p.0@, p.1@),
    ).push((name@, value@)));
}

/// A query with one text parameter.
pub fn query_with(text: &'static str, name: &'static str, value: &String) -> (q: GraphQuery)
    ensures
        q@ == (text@, seq![(name@, ParamValue::Text(value@))]),
{
    let mut q = new_query(text);
    bind(&mut q, name, crate::query::text(value));
    q
}

/// A query with two text parameters.
pub fn query_with2(
    text: &'static str,
    name1: &'static str,
    value1: &String,
    name2: &'static str,
    value2: &String,
) -> (q: GraphQuery)
    ensures
        q@ == (text@, seq![(name1@, ParamValue::Text(value1@)), (name2@, ParamValue::Text(value2@))]),
{
    let mut q = new_query(text);
    bind(&mut q, name1, crate::query::text(value1));
    bind(&mut q, name2, crate::query::text(value2));
    q
}

} // verus!
