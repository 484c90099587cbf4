//! Parameterized statements for each operation on the archive table. User
//! text only ever travels as a bound parameter, never inside the SQL text.
use vstd::prelude::*;
use crate::decimal::{int_text, lemma_parse_int_text, parse_i64, parse_int};
use crate::failure::{kind_of, ErrorKind, Failure};

verus! {

pub const SELECT_BY_ID_OR_ALIAS: &'static str = "SELECT * FROM archive WHERE id = $1 OR alias = $2";
pub const SELECT_RANDOM: &'static str = "SELECT * FROM archive ORDER BY RANDOM() LIMIT 1";
pub const SELECT_RANDOM_WITH_TAG: &'static str = "SELECT * FROM archive WHERE tag = $1 ORDER BY RANDOM() LIMIT 1";
pub const INSERT_POST: &'static str = "INSERT INTO archive (tag, comment, attachment, alias) VALUES ($1, $2, $3, $4) RETURNING id";
pub const DELETE_BY_ID: &'static str = "DELETE FROM archive WHERE id = $1";
pub const SELECT_DISTINCT_TAGS: &'static str = "SELECT DISTINCT tag FROM archive";
pub const SELECT_BY_TAG: &'static str = "SELECT * FROM archive WHERE tag = $1";

/// Id bound in place of a text that is no integer; no stored id equals it.
pub const NO_ID: i64 = -1;

/// One bound parameter.
pub enum Param {
    Int(i64),
    Text(String),
    Null,
}

/// What a bound parameter stands for.
pub enum ParamValue {
    Int(int),
    Text(Seq<char>),
    Null,
}

impl Param {
    pub open spec fn value(&self) -> ParamValue {
        match self {
            Param::Int(n) => ParamValue::Int(*n as int),
            Param::Text(s) => ParamValue::Text(s@),
            Param::Null => ParamValue::Null,
        }
    }
}

/// A SQL statement and the values bound to `$1`, `$2`, ... in order.
pub struct Query {
    pub sql: String,
    pub params: Vec<Param>,
}

impl Query {
    /// The bound values, in order.
    pub open spec fn values(&self) -> Seq<ParamValue> {
        self.params@.map_values(|p: Param| p.value())
    }
}

pub open spec fn text_or_null(o: Option<String>) -> ParamValue {
    match o {
        Some(s) => ParamValue::Text(s@),
        None => ParamValue::Null,
    }
}

/// The id that a lookup text binds: its integer value, else the sentinel.
pub open spec fn lookup_id(raw: Seq<char>) -> int {
    match parse_i64(raw) {
        Some(n) => n as int,
        None => NO_ID as int,
    }
}

fn nullable(o: Option<String>) -> (r: Param)
    ensures
        r.value() == text_or_null(o),
{
    match o {
        Some(s) => Param::Text(s),
        None => Param::Null,
    }
}

/// Lookup of a post whose id is `raw` read as an integer, or whose alias is `raw`.
/// A text that is no integer binds the sentinel id, so that only the alias can match.
pub fn fetch_by_id_or_alias(raw: &str) -> (r: Query)
    ensures
        r.sql@ == SELECT_BY_ID_OR_ALIAS@,
        r.values() == seq![ParamValue::Int(lookup_id(raw@)), ParamValue::Text(raw@)],
{
    let id = match parse_int(raw) {
        Some(n) => n,
        None => NO_ID,
    };
    let params = vec![Param::Int(id), Param::Text(String::from_str(raw))];
    let r = Query { sql: String::from_str(SELECT_BY_ID_OR_ALIAS), params };
    assert(r.values() =~= seq![ParamValue::Int(lookup_id(raw@)), ParamValue::Text(raw@)]);
    r
}

/// One post drawn at random, among those of `tag` when a tag is given.
pub fn fetch_random(tag: Option<String>) -> (r: Query)
    ensures
        tag is None ==> r.sql@ == SELECT_RANDOM@ && r.values() == Seq::<ParamValue>::empty(),
        tag is Some ==> r.sql@ == SELECT_RANDOM_WITH_TAG@ && r.values() == seq![
            text_or_null(tag),
        ],
{
    match tag {
        Some(t) => {
            let ghost v = t@;
            let r = Query { sql: String::from_str(SELECT_RANDOM_WITH_TAG), params: vec![Param::Text(t)] };
            assert(r.values() =~= seq![ParamValue::Text(v)]);
            r
        },
        None => {
            let r = Query { sql: String::from_str(SELECT_RANDOM), params: Vec::new() };
            assert(r.values() =~= Seq::<ParamValue>::empty());
            r
        },
    }
}

/// Insertion of a post, returning its id; refused before any statement when
/// neither a comment nor an attachment is given.
pub fn create(tag: String, comment: Option<String>, attachment: Option<String>, alias: Option<String>) -> (r: Result<Query, Failure>)
    ensures
        r is Err <==> (comment is None && attachment is None),
        r is Err ==> r->Err_0 == Failure::EmptyPost,
        r is Err ==> kind_of(r->Err_0) == ErrorKind::Validation,
        r is Ok ==> r->Ok_0.sql@ == INSERT_POST@ && r->Ok_0.values() == seq![
            ParamValue::Text(tag@),
            text_or_null(comment),
            text_or_null(attachment),
            text_or_null(alias),
        ],
{
    if comment.is_none() && attachment.is_none() {
        return Err(Failure::EmptyPost);
    }
    let ghost (t, c, a, l) = (tag@, text_or_null(comment), text_or_null(attachment), text_or_null(alias));
    let params = vec![Param::Text(tag), nullable(comment), nullable(attachment), nullable(alias)];
    let r = Query { sql: String::from_str(INSERT_POST), params };
    assert(r.values() =~= seq![ParamValue::Text(t), c, a, l]);
    Ok(r)
}

/// Removal of the post of id `id`.
pub fn delete(id: i64) -> (r: Query)
    ensures
        r.sql@ == DELETE_BY_ID@,
        r.values() == seq![ParamValue::Int(id as int)],
{
    let r = Query { sql: String::from_str(DELETE_BY_ID), params: vec![Param::Int(id)] };
    assert(r.values() =~= seq![ParamValue::Int(id as int)]);
    r
}

/// Every tag in use, each once.
pub fn list_distinct_tags() -> (r: Query)
    ensures
        r.sql@ == SELECT_DISTINCT_TAGS@,
        r.values() == Seq::<ParamValue>::empty(),
{
    let r = Query { sql: String::from_str(SELECT_DISTINCT_TAGS), params: Vec::new() };
    assert(r.values() =~= Seq::<ParamValue>::empty());
    r
}

/// Every post of `tag`.
pub fn list_by_tag(tag: &str) -> (r: Query)
    ensures
        r.sql@ == SELECT_BY_TAG@,
        r.values() == seq![ParamValue::Text(tag@)],
{
    let r = Query { sql: String::from_str(SELECT_BY_TAG), params: vec![Param::Text(String::from_str(tag))] };
    assert(r.values() =~= seq![ParamValue::Text(tag@)]);
    r
}

/// The id that an insertion returns, written in decimal and looked up,
/// binds that same id, so the new post is found by it.
pub proof fn lemma_created_id_is_found(id: i64)
    ensures
        lookup_id(int_text(id as int)) == id as int,
{
    lemma_parse_int_text(id);
}

/// A lookup text that is no integer binds the sentinel id, which no stored
/// post has, so only the alias can match.
pub proof fn lemma_non_numeric_is_alias_only(raw: Seq<char>)
    requires
        parse_i64(raw) is None,
    ensures
        lookup_id(raw) == NO_ID as int,
{
}

} // verus!
