//! Queries over the item / tag / date schema: the search kinds, the query
//! builder, the record types, and the SQL text that each of them stands for.
use vstd::prelude::*;

pub mod select;
pub mod dbstring;
pub mod insert;

pub use select::{get_haystack_and_needle, new_query_str, select_statement, Statement};
use select::{needle_piece_total, select_sql, statement_text, statement_view, when_view, whens_needles, whens_view, minus_view};
use crate::calendar::{date_text, parsed_date, supported_pattern, valid_ymd, CalendarDate, DateError};
use crate::text::{i32_text, int_text, piece_count, split_on, views, count_char, decimal, lemma_split_on_len, lemma_decimal_no_char};
use vstd::string::StringExecFns;

verus! {

/// The table every other table is linked to.
pub const MAIN_TABLE: &'static str = "item";

/// The schema the program works in.
pub const DB: &'static str = "mydb";

/// The format dates are written and read in.
pub const DT_FORMAT: &'static str = "%Y-%m-%d";

/// A kind of search together with what it searches with: for a query, the
/// column searched and the needle.
#[derive(Debug, Clone, Copy, Eq, PartialEq)]
pub enum When<T> {
    Equal(T),
    Like(T),
    Match(T),
    Approx(T),
    Less(T),
    Greater(T),
    AtMost(T),
    AtLeast(T),
    Other(T),
}

/// What a search carries.
pub open spec fn when_payload<T>(w: When<T>) -> T {
    match w {
        When::Equal(x) => x,
        When::Like(x) => x,
        When::Match(x) => x,
        When::Approx(x) => x,
        When::Less(x) => x,
        When::Greater(x) => x,
        When::AtMost(x) => x,
        When::AtLeast(x) => x,
        When::Other(x) => x,
    }
}

/// The kind of a search, numbered in declaration order.
pub open spec fn when_kind<T>(w: When<T>) -> int {
    match w {
        When::Equal(_) => 0,
        When::Like(_) => 1,
        When::Match(_) => 2,
        When::Approx(_) => 3,
        When::Less(_) => 4,
        When::Greater(_) => 5,
        When::AtMost(_) => 6,
        When::AtLeast(_) => 7,
        When::Other(_) => 8,
    }
}

/// The search of the same kind as `w`, carrying `to`.
pub open spec fn with_payload<T, R>(w: When<T>, to: R) -> When<R> {
    match w {
        When::Equal(_) => When::Equal(to),
        When::Like(_) => When::Like(to),
        When::Match(_) => When::Match(to),
        When::Approx(_) => When::Approx(to),
        When::Less(_) => When::Less(to),
        When::Greater(_) => When::Greater(to),
        When::AtMost(_) => When::AtMost(to),
        When::AtLeast(_) => When::AtLeast(to),
        When::Other(_) => When::Other(to),
    }
}

/// Changing the payload of a search keeps its kind: changing it twice is
/// changing it once to the second payload, and giving a search its own
/// payload gives the search back.
pub proof fn law_payload_change_keeps_kind<T, R, S>(w: When<T>, x: R, y: S)
    ensures
        when_kind(with_payload(w, x)) == when_kind(w),
        when_payload(with_payload(w, x)) == x,
        with_payload(with_payload(w, x), y) == with_payload(w, y),
        with_payload(w, when_payload(w)) == w,
{
}

impl<T> When<T> {
    /// The same kind of search, carrying `to`.
    pub fn into_when<R>(&self, to: R) -> (r: When<R>)
        ensures
            r == with_payload(*self, to),
            when_kind(r) == when_kind(*self),
            when_payload(r) == to,
    {
        match self {
            When::Equal(_) => When::Equal(to),
            When::Like(_) => When::Like(to),
            When::Match(_) => When::Match(to),
            When::Approx(_) => When::Approx(to),
            When::Less(_) => When::Less(to),
            When::Greater(_) => When::Greater(to),
            When::AtMost(_) => When::AtMost(to),
            When::AtLeast(_) => When::AtLeast(to),
            When::Other(_) => When::Other(to),
        }
    }
}

impl<'a> Default for When<&'a str> {
    fn default() -> (r: When<&'a str>)
        ensures
            r == When::<&'a str>::Equal(""),
    {
        When::<&'a str>::Equal("")
    }
}

impl<'a> Default for When<(&'a str, &'a str)> {
    fn default() -> (r: When<(&'a str, &'a str)>)
        ensures
            r == When::<(&'a str, &'a str)>::Equal(("", "")),
    {
        When::<(&'a str, &'a str)>::Equal(("", ""))
    }
}

/// How the pieces of a needle combine: any of them, or all of them.
#[derive(Debug, Clone, Copy, Eq, PartialEq)]
pub enum Agg {
    Union,
    Intersect,
}


/// A record type stored in one table of the schema: which columns a query
/// selects for it, which table it lives in, and its id.
pub trait MySqlMarshal: Sized {
    /// The columns selected for this type.
    spec fn col_name_text() -> Seq<char>;

    /// The table this type is stored in.
    spec fn table_name_text() -> Seq<char>;

    /// The id of a value.
    spec fn id_value(&self) -> i32;

    fn col_name() -> (r: String)
        ensures
            r@ == Self::col_name_text(),
    ;

    fn table_name() -> (r: String)
        ensures
            r@ == Self::table_name_text(),
    ;

    fn id(&self) -> (r: i32)
        ensures
            r == self.id_value(),
    ;
}

/// The id of a row of the table of `T`.
#[derive(Eq, PartialEq)]
pub struct Id<T> {
    id: i32,
    phantom: std::marker::PhantomData<T>,
}

impl<T> Clone for Id<T> {
    /// The same id.
    fn clone(&self) -> (r: Self)
        ensures
            r == *self,
    {
        Id { id: self.id, phantom: std::marker::PhantomData }
    }
}

impl<T> Id<T> {
    /// The id held.
    pub closed spec fn value(&self) -> i32 {
        self.id
    }

    /// The id of the row with this id.
    pub fn new(id: i32) -> (r: Id<T>)
        ensures
            r.value() == id,
    {
        Id { id, phantom: std::marker::PhantomData }
    }

    /// The id held.
    pub fn get(&self) -> (r: i32)
        ensures
            r == self.value(),
    {
        self.id
    }
}

impl MySqlMarshal for i32 {
    open spec fn col_name_text() -> Seq<char> {
        "`Id`"@
    }

    open spec fn table_name_text() -> Seq<char> {
        Seq::empty()
    }

    open spec fn id_value(&self) -> i32 {
        *self
    }

    fn col_name() -> (r: String) {
        String::from_str("`Id`")
    }

    fn table_name() -> (r: String) {
        String::new()
    }

    fn id(&self) -> (r: i32) {
        *self
    }
}

impl<T: MySqlMarshal> MySqlMarshal for Id<T> {
    open spec fn col_name_text() -> Seq<char> {
        <i32 as MySqlMarshal>::col_name_text()
    }

    open spec fn table_name_text() -> Seq<char> {
        T::table_name_text()
    }

    open spec fn id_value(&self) -> i32 {
        self.value()
    }

    fn col_name() -> (r: String) {
        <i32 as MySqlMarshal>::col_name()
    }

    fn table_name() -> (r: String) {
        T::table_name()
    }

    fn id(&self) -> (r: i32) {
        self.get()
    }
}

/// An item: a named thing with an optional description, optional arrival,
/// expiry and creation dates, tags and further dates.
#[allow(non_snake_case)]
#[derive(Debug, PartialEq, Eq, Clone)]
pub struct Item {
    pub Id: i32,
    pub Name: String,
    pub Description: Option<String>,
    pub Arrival: Option<CalendarDate>,
    pub Expiry: Option<CalendarDate>,
    pub Created: Option<CalendarDate>,
    pub Tags: Vec<String>,
    pub Dates: Vec<CalendarDate>,
}

/// A tag with its creation date.
#[allow(non_snake_case)]
#[derive(Debug, PartialEq, Eq, Clone)]
pub struct Tag {
    pub Id: i32,
    pub Name: String,
    pub Created: Option<CalendarDate>,
}

/// A date row.
#[allow(non_snake_case)]
#[derive(Debug, PartialEq, Eq, Clone)]
pub struct Date {
    pub Id: i32,
    pub Date: CalendarDate,
}

/// The items of a data file.
#[allow(non_snake_case)]
#[derive(Debug)]
pub struct DbRoot {
    pub Items: Vec<Item>,
}

impl MySqlMarshal for Item {
    open spec fn col_name_text() -> Seq<char> {
        "*"@
    }

    open spec fn table_name_text() -> Seq<char> {
        "item"@
    }

    open spec fn id_value(&self) -> i32 {
        self.Id
    }

    fn col_name() -> (r: String) {
        String::from_str("*")
    }

    fn table_name() -> (r: String) {
        String::from_str("item")
    }

    fn id(&self) -> (r: i32) {
        self.Id
    }
}

impl MySqlMarshal for Tag {
    open spec fn col_name_text() -> Seq<char> {
        "*"@
    }

    open spec fn table_name_text() -> Seq<char> {
        "tag"@
    }

    open spec fn id_value(&self) -> i32 {
        self.Id
    }

    fn col_name() -> (r: String) {
        String::from_str("*")
    }

    fn table_name() -> (r: String) {
        String::from_str("tag")
    }

    fn id(&self) -> (r: i32) {
        self.Id
    }
}

impl MySqlMarshal for Date {
    open spec fn col_name_text() -> Seq<char> {
        "*"@
    }

    open spec fn table_name_text() -> Seq<char> {
        "date"@
    }

    open spec fn id_value(&self) -> i32 {
        self.Id
    }

    fn col_name() -> (r: String) {
        String::from_str("*")
    }

    fn table_name() -> (r: String) {
        String::from_str("date")
    }

    fn id(&self) -> (r: i32) {
        self.Id
    }
}


/// A query: from which table, with which searches, without which ids, and
/// how the needle pieces combine. `pool` is the connection it runs on.
pub struct Query<'a, P> {
    pub pool: &'a P,
    pub from: &'a str,
    /// [ SearchType ( Haystack ) ]
    pub when: Vec<When<(&'a str, &'a str)>>,
    pub minus: Option<&'a Vec<i32>>,
    pub aggregate: Agg,
}

/// Builds a [`Query`] one setting at a time.
pub struct QueryBuilder<'a, P> {
    pub pool: &'a P,
    pub from: &'a str,
    /// [ SearchType ( Haystack ) ]
    pub when: Vec<When<(&'a str, &'a str)>>,
    pub minus: Option<&'a Vec<i32>>,
    pub aggregate: Agg,
}

/// A copy of a list of searches.
pub fn copy_whens<'a>(when: &Vec<When<(&'a str, &'a str)>>) -> (r: Vec<When<(&'a str, &'a str)>>)
    ensures
        r@ == when@,
{
    let mut r: Vec<When<(&'a str, &'a str)>> = Vec::new();
    let n = when.len();
    let mut i: usize = 0;
    while i < n
        invariant
            n == when@.len(),
            i <= n,
            r@ == when@.take(i as int),
        decreases n - i,
    {
        r.push(when[i]);
        assert(r@ =~= when@.take(i + 1));
        i = i + 1;
    }
    assert(when@.take(n as int) =~= when@);
    r
}

/// Whether the needles of the searches hold few enough '|'-separated pieces
/// for their count to fit in a `usize`.
pub fn needle_pieces_fit(when: &Vec<When<(&str, &str)>>) -> (r: bool)
    ensures
        r == (needle_piece_total(whens_needles(whens_view(when@))) <= usize::MAX),
{
    let n = when.len();
    let mut count: usize = 0;
    let mut i: usize = 0;
    while i < n
        invariant
            n == when@.len(),
            i <= n,
            count == needle_piece_total(whens_needles(whens_view(when@).take(i as int))),
        decreases n - i,
    {
        let (_, nd) = get_haystack_and_needle(when[i]);
        let k = piece_count(nd.as_str(), '|');
        proof {
            assert(whens_needles(whens_view(when@).take(i + 1)).drop_last() =~= whens_needles(
                whens_view(when@).take(i as int),
            ));
            assert(whens_view(when@).take(i + 1)[i as int] == select::when_view(when@[i as int]));
            select::lemma_needle_piece_total_prefix(whens_needles(whens_view(when@)), i + 1);
            assert(whens_needles(whens_view(when@).take(i + 1)) =~= whens_needles(
                whens_view(when@),
            ).take(i + 1));
        }
        match count.checked_add(k) {
            Some(c) => { count = c; },
            None => { return false; },
        }
        i = i + 1;
    }
    assert(whens_view(when@).take(n as int) =~= whens_view(when@));
    true
}

impl<'a, P> Query<'a, P> {
    /// The settings of the query.
    pub open spec fn settings(&self) -> BuilderSettings<'a, P> {
        (self.pool, self.from, self.when@, self.minus, self.aggregate)
    }

    /// SQL text and bound values of the statement for rows of type `T`
    /// found by the searches `ws` from this query's table, without the ids
    /// in `minus`.
    pub open spec fn results_text<T: MySqlMarshal>(
        &self,
        ws: Seq<When<(Seq<char>, Seq<char>)>>,
        minus: Option<Seq<i32>>,
    ) -> Option<(Seq<char>, Seq<Seq<char>>)> {
        statement_text(T::col_name_text(), T::table_name_text(), self.from@, ws, minus, self.aggregate)
    }

    /// SQL text and bound values of the statement [`Query::to`] runs: the
    /// query's first search alone, with the query's excluded ids.
    pub open spec fn to_text<T: MySqlMarshal>(&self) -> Option<(Seq<char>, Seq<Seq<char>>)> {
        self.results_text::<T>(seq![when_view(self.when@[0])], minus_view(self.minus))
    }

    /// A builder with the default settings.
    pub fn builder(pool: &'a P) -> (r: QueryBuilder<'a, P>)
        ensures
            r.pool == pool,
            r.from@ == Seq::<char>::empty(),
            r.when@ == seq![When::<(&'a str, &'a str)>::Equal(("", ""))],
            r.minus is None,
            r.aggregate == Agg::Union,
            r.settings() == initial_settings(pool),
    {
        QueryBuilder::<'a, P>::new(pool)
    }

    /// The statement that [`Query::to`] runs for rows of type `T`: the first
    /// search of the query, its excluded ids and its aggregation.
    pub fn to_statement<T: MySqlMarshal>(&self) -> (r: Option<Statement>)
        requires
            self.when@.len() > 0,
            needle_piece_total(whens_needles(whens_view(seq![self.when@[0]]))) <= usize::MAX,
        ensures
            r is Some <==> select_sql(
                T::col_name_text(),
                T::table_name_text(),
                self.from@,
                whens_view(seq![self.when@[0]]),
                minus_view(self.minus),
                self.aggregate,
            ) is Some,
            r matches Some(st) ==> select_sql(
                T::col_name_text(),
                T::table_name_text(),
                self.from@,
                whens_view(seq![self.when@[0]]),
                minus_view(self.minus),
                self.aggregate,
            ) == Some(st.sql@) && crate::text::views(st.binds@) == whens_needles(
                whens_view(seq![self.when@[0]]),
            ),
        statement_view(r) == self.to_text::<T>(),
    {
        let mut first: Vec<When<(&'a str, &'a str)>> = Vec::new();
        first.push(self.when[0]);
        assert(first@ =~= seq![self.when@[0]]);
        assert(whens_view(first@) =~= seq![when_view(self.when@[0])]);
        self.results_statement::<T>(&first, self.minus)
    }

    /// The statement for rows of type `T` found by `when` (combined with
    /// AND) from this query's table, without the ids in `minus`.
    pub fn results_statement<T: MySqlMarshal>(
        &self,
        when: &Vec<When<(&str, &str)>>,
        minus: Option<&Vec<i32>>,
    ) -> (r: Option<Statement>)
        requires
            needle_piece_total(whens_needles(whens_view(when@))) <= usize::MAX,
        ensures
            r is Some <==> select_sql(
                T::col_name_text(),
                T::table_name_text(),
                self.from@,
                whens_view(when@),
                minus_view(minus),
                self.aggregate,
            ) is Some,
            r matches Some(st) ==> select_sql(
                T::col_name_text(),
                T::table_name_text(),
                self.from@,
                whens_view(when@),
                minus_view(minus),
                self.aggregate,
            ) == Some(st.sql@) && crate::text::views(st.binds@) == whens_needles(whens_view(when@)),
        statement_view(r) == self.results_text::<T>(whens_view(when@), minus_view(minus)),
    {
        let col = T::col_name();
        let to = T::table_name();
        select_statement(col.as_str(), to.as_str(), self.from, when, minus, self.aggregate)
    }
}

/// The settings of a builder or query: pool, table, searches, excluded ids
/// and aggregation.
pub type BuilderSettings<'a, P> = (
    &'a P,
    &'a str,
    Seq<When<(&'a str, &'a str)>>,
    Option<&'a Vec<i32>>,
    Agg,
);

/// A call of one of the builder's setters, with its argument.
pub enum BuilderCall<'a, P> {
    Pool(&'a P),
    From(&'a str),
    When(Vec<When<(&'a str, &'a str)>>),
    Minus(Option<&'a Vec<i32>>),
    Aggregate(Agg),
}

/// The settings of a new builder on `pool`.
pub open spec fn initial_settings<'a, P>(pool: &'a P) -> BuilderSettings<'a, P> {
    (pool, "", seq![When::<(&'a str, &'a str)>::Equal(("", ""))], None, Agg::Union)
}

/// The settings after one setter call: the setting it names is replaced,
/// the others are kept.
pub open spec fn after_call<'a, P>(s: BuilderSettings<'a, P>, c: BuilderCall<'a, P>) -> BuilderSettings<
    'a,
    P,
> {
    match c {
        BuilderCall::Pool(p) => (p, s.1, s.2, s.3, s.4),
        BuilderCall::From(f) => (s.0, f, s.2, s.3, s.4),
        BuilderCall::When(w) => (s.0, s.1, w@, s.3, s.4),
        BuilderCall::Minus(m) => (s.0, s.1, s.2, m, s.4),
        BuilderCall::Aggregate(a) => (s.0, s.1, s.2, s.3, a),
    }
}

/// The settings after a sequence of setter calls, in order.
pub open spec fn after_calls<'a, P>(s: BuilderSettings<'a, P>, calls: Seq<BuilderCall<'a, P>>) -> BuilderSettings<
    'a,
    P,
>
    decreases calls.len(),
{
    if calls.len() == 0 {
        s
    } else {
        after_call(after_calls(s, calls.drop_last()), calls.last())
    }
}

/// The pool of the last `pool` call, or `default` when there is none.
pub open spec fn last_pool<'a, P>(calls: Seq<BuilderCall<'a, P>>, default: &'a P) -> &'a P
    decreases calls.len(),
{
    if calls.len() == 0 {
        default
    } else {
        match calls.last() {
            BuilderCall::Pool(p) => p,
            _ => last_pool(calls.drop_last(), default),
        }
    }
}

/// The table of the last `from` call, or `default` when there is none.
pub open spec fn last_from<'a, P>(calls: Seq<BuilderCall<'a, P>>, default: &'a str) -> &'a str
    decreases calls.len(),
{
    if calls.len() == 0 {
        default
    } else {
        match calls.last() {
            BuilderCall::From(f) => f,
            _ => last_from(calls.drop_last(), default),
        }
    }
}

/// The searches of the last `when` call, or `default` when there is none.
pub open spec fn last_when<'a, P>(
    calls: Seq<BuilderCall<'a, P>>,
    default: Seq<When<(&'a str, &'a str)>>,
) -> Seq<When<(&'a str, &'a str)>>
    decreases calls.len(),
{
    if calls.len() == 0 {
        default
    } else {
        match calls.last() {
            BuilderCall::When(w) => w@,
            _ => last_when(calls.drop_last(), default),
        }
    }
}

/// The ids of the last `minus` call, or `default` when there is none.
pub open spec fn last_minus<'a, P>(
    calls: Seq<BuilderCall<'a, P>>,
    default: Option<&'a Vec<i32>>,
) -> Option<&'a Vec<i32>>
    decreases calls.len(),
{
    if calls.len() == 0 {
        default
    } else {
        match calls.last() {
            BuilderCall::Minus(m) => m,
            _ => last_minus(calls.drop_last(), default),
        }
    }
}

/// The aggregation of the last `aggregate` call, or `default` when there is
/// none.
pub open spec fn last_aggregate<'a, P>(calls: Seq<BuilderCall<'a, P>>, default: Agg) -> Agg
    decreases calls.len(),
{
    if calls.len() == 0 {
        default
    } else {
        match calls.last() {
            BuilderCall::Aggregate(a) => a,
            _ => last_aggregate(calls.drop_last(), default),
        }
    }
}

proof fn lemma_last_setting_wins<'a, P>(s: BuilderSettings<'a, P>, calls: Seq<BuilderCall<'a, P>>)
    ensures
        after_calls(s, calls) == (
            last_pool(calls, s.0),
            last_from(calls, s.1),
            last_when(calls, s.2),
            last_minus(calls, s.3),
            last_aggregate(calls, s.4),
        ),
    decreases calls.len(),
{
    if calls.len() > 0 {
        lemma_last_setting_wins(s, calls.drop_last());
    }
}

/// Whatever setter calls follow `QueryBuilder::new(pool)`, each setting of
/// the builder, and so of the query `build` makes, is the value of the last
/// call that sets it, and the default of `new` where no call sets it;
/// setting the searches replaces them.
pub proof fn law_builder_last_setting_wins<'a, P>(pool: &'a P, calls: Seq<BuilderCall<'a, P>>)
    ensures
        after_calls(initial_settings(pool), calls) == (
            last_pool(calls, pool),
            last_from(calls, ""),
            last_when(calls, seq![When::<(&'a str, &'a str)>::Equal(("", ""))]),
            last_minus(calls, None),
            last_aggregate(calls, Agg::Union),
        ),
{
    lemma_last_setting_wins(initial_settings(pool), calls);
}

/// [`Query::to`] runs the first search alone: its statement is the one
/// `results_statement` makes for that search and the query's excluded ids,
/// and two queries that differ only in the searches after the first make
/// the same statement.
pub proof fn law_to_uses_first_search<'a, 'b, P, T: MySqlMarshal>(
    q: Query<'a, P>,
    other: Query<'b, P>,
)
    requires
        q.when@.len() > 0,
        other.when@.len() > 0,
        when_view(other.when@[0]) == when_view(q.when@[0]),
        other.from@ == q.from@,
        minus_view(other.minus) == minus_view(q.minus),
        other.aggregate == q.aggregate,
    ensures
        q.to_text::<T>() == q.results_text::<T>(seq![when_view(q.when@[0])], minus_view(q.minus)),
        other.to_text::<T>() == q.to_text::<T>(),
{
}

impl<'a, P> QueryBuilder<'a, P> {
    pub const DEFAULT_STR: &'static str = "";

    /// The settings of the builder.
    pub open spec fn settings(&self) -> BuilderSettings<'a, P> {
        (self.pool, self.from, self.when@, self.minus, self.aggregate)
    }

    /// A builder for queries on `pool`: no table, one search that matches
    /// the empty text in the empty column, nothing excluded, union.
    pub fn new(pool: &'a P) -> (r: Self)
        ensures
            r.pool == pool,
            r.from@ == Seq::<char>::empty(),
            r.when@ == seq![When::<(&'a str, &'a str)>::Equal(("", ""))],
            r.minus is None,
            r.aggregate == Agg::Union,
            r.settings() == initial_settings(pool),
    {
        let mut when: Vec<When<(&'a str, &'a str)>> = Vec::new();
        when.push(When::<(&'a str, &'a str)>::default());
        proof { reveal_strlit(""); }
        QueryBuilder {
            pool: pool,
            from: "",
            when: when,
            minus: None,
            aggregate: Agg::Union,
        }
    }

    /// Sets the pool.
    pub fn pool(&mut self, pool: &'a P) -> (r: &mut Self)
        ensures
            r.pool == pool,
            r.from == old(self).from,
            r.when@ == old(self).when@,
            r.minus == old(self).minus,
            r.aggregate == old(self).aggregate,
            r.settings() == after_call(old(self).settings(), BuilderCall::Pool(pool)),
            *final(self) == *final(r),
    {
        self.pool = pool;
        self
    }

    /// Sets the table searched from.
    pub fn from(&mut self, from: &'a str) -> (r: &mut Self)
        ensures
            r.pool == old(self).pool,
            r.from == from,
            r.when@ == old(self).when@,
            r.minus == old(self).minus,
            r.aggregate == old(self).aggregate,
            r.settings() == after_call(old(self).settings(), BuilderCall::From(from)),
            *final(self) == *final(r),
    {
        self.from = from;
        self
    }

    /// Sets the searches to a copy of `when`.
    pub fn when(&mut self, when: &Vec<When<(&'a str, &'a str)>>) -> (r: &mut Self)
        ensures
            r.pool == old(self).pool,
            r.from == old(self).from,
            r.when@ == when@,
            r.minus == old(self).minus,
            r.aggregate == old(self).aggregate,
            r.settings() == after_call(old(self).settings(), BuilderCall::When(*when)),
            *final(self) == *final(r),
    {
        self.when = copy_whens(when);
        self
    }

    /// Sets the ids to exclude.
    pub fn minus(&mut self, minus: Option<&'a Vec<i32>>) -> (r: &mut Self)
        ensures
            r.pool == old(self).pool,
            r.from == old(self).from,
            r.when@ == old(self).when@,
            r.minus == minus,
            r.aggregate == old(self).aggregate,
            r.settings() == after_call(old(self).settings(), BuilderCall::Minus(minus)),
            *final(self) == *final(r),
    {
        self.minus = minus;
        self
    }

    /// Sets how needle pieces combine.
    pub fn aggregate(&mut self, aggregate: Agg) -> (r: &mut Self)
        ensures
            r.pool == old(self).pool,
            r.from == old(self).from,
            r.when@ == old(self).when@,
            r.minus == old(self).minus,
            r.aggregate == aggregate,
            r.settings() == after_call(old(self).settings(), BuilderCall::Aggregate(aggregate)),
            *final(self) == *final(r),
    {
        self.aggregate = aggregate;
        self
    }

    /// The query with the current settings.
    pub fn build(&self) -> (r: Query<'a, P>)
        ensures
            r.pool == self.pool,
            r.from == self.from,
            r.when@ == self.when@,
            r.minus == self.minus,
            r.aggregate == self.aggregate,
            r.settings() == self.settings(),
    {
        Query {
            pool: self.pool,
            from: self.from,
            when: copy_whens(&self.when),
            minus: self.minus,
            aggregate: self.aggregate,
        }
    }
}


/// The search by item id that completing an item uses.
pub open spec fn item_id_search(item_id: i32) -> When<(Seq<char>, Seq<char>)> {
    When::Equal(("id"@, int_text(item_id as int)))
}

/// The needle of the search by item id is one piece: ids hold no '|'.
proof fn lemma_item_id_needle(item_id: i32)
    ensures
        needle_piece_total(whens_needles(seq![item_id_search(item_id)])) == 1,
{
    let t = int_text(item_id as int);
    let ws = seq![item_id_search(item_id)];
    assert(whens_needles(ws) =~= seq![t]);
    assert(whens_needles(ws).drop_last() =~= Seq::<Seq<char>>::empty());
    lemma_split_on_len(t, '|');
    assert(needle_piece_total(Seq::<Seq<char>>::empty()) == 0);
    assert(needle_piece_total(whens_needles(ws)) == split_on(t, '|').len());
    if item_id < 0 {
        lemma_decimal_no_char((-item_id) as nat, '|');
        let d = decimal((-item_id) as nat);
        assert(count_char(seq!['-'] + d, '|') == count_char(d, '|')) by {
            lemma_count_prepend(d, '-', '|');
        }
    } else {
        lemma_decimal_no_char(item_id as nat, '|');
    }
}

proof fn lemma_count_prepend(d: Seq<char>, a: char, c: char)
    requires
        a != c,
    ensures
        count_char(seq![a] + d, c) == count_char(d, c),
    decreases d.len(),
{
    if d.len() > 0 {
        lemma_count_prepend(d.drop_last(), a, c);
        assert((seq![a] + d).drop_last() =~= seq![a] + d.drop_last());
        assert((seq![a] + d).last() == d.last());
    } else {
        assert((seq![a] + d).drop_last() =~= Seq::<char>::empty());
        assert((seq![a] + d).last() == a);
        assert(count_char(Seq::<char>::empty(), c) == 0);
        assert(d =~= Seq::<char>::empty());
    }
}

fn item_id_statement(item_id: i32, to: &str) -> (r: Statement)
    ensures
        select_sql("*"@, to@, "item"@, seq![item_id_search(item_id)], None, Agg::Union) == Some(
            r.sql@,
        ),
        views(r.binds@) == seq![int_text(item_id as int)],
{
    let id = i32_text(item_id);
    let mut when: Vec<When<(&str, &str)>> = Vec::new();
    when.push(When::Equal(("id", id.as_str())));
    assert(whens_view(when@) =~= seq![item_id_search(item_id)]);
    proof {
        lemma_item_id_needle(item_id);
        reveal_strlit("item");
        reveal_strlit("id");
    }
    let r = select_statement("*", to, "item", &when, None, Agg::Union);
    assert(whens_needles(whens_view(when@)) =~= seq![int_text(item_id as int)]);
    r.unwrap()
}

/// The statement that finds the tags of the item with id `item_id`.
pub fn item_tags_statement(item_id: i32) -> (r: Statement)
    ensures
        select_sql("*"@, "tag"@, "item"@, seq![item_id_search(item_id)], None, Agg::Union) == Some(
            r.sql@,
        ),
        views(r.binds@) == seq![int_text(item_id as int)],
{
    item_id_statement(item_id, "tag")
}

/// The statement that finds the dates of the item with id `item_id`.
pub fn item_dates_statement(item_id: i32) -> (r: Statement)
    ensures
        select_sql("*"@, "date"@, "item"@, seq![item_id_search(item_id)], None, Agg::Union) == Some(
            r.sql@,
        ),
        views(r.binds@) == seq![int_text(item_id as int)],
{
    item_id_statement(item_id, "date")
}

/// The names of the tags.
pub open spec fn tag_names(tags: Seq<Tag>) -> Seq<Seq<char>> {
    Seq::new(tags.len(), |i: int| tags[i].Name@)
}

/// The days of the date rows.
pub open spec fn date_days(dates: Seq<Date>) -> Seq<CalendarDate> {
    Seq::new(dates.len(), |i: int| dates[i].Date)
}

/// Completing an item lists the tags' names and the date rows' days one for
/// one, in the order given.
pub proof fn law_completion_lists_names_and_days(tags: Seq<Tag>, dates: Seq<Date>)
    ensures
        tag_names(tags).len() == tags.len(),
        forall|i: int| 0 <= i < tags.len() ==> #[trigger] tag_names(tags)[i] == tags[i].Name@,
        date_days(dates).len() == dates.len(),
        forall|i: int| 0 <= i < dates.len() ==> #[trigger] date_days(dates)[i] == dates[i].Date,
{
}

/// The item with its tags and dates set to the names of `tags` and the days
/// of `dates`, everything else kept.
pub fn complete_item(item: Item, tags: &Vec<Tag>, dates: &Vec<Date>) -> (r: Item)
    ensures
        r.Id == item.Id,
        r.Name == item.Name,
        r.Description == item.Description,
        r.Arrival == item.Arrival,
        r.Expiry == item.Expiry,
        r.Created == item.Created,
        views(r.Tags@) == tag_names(tags@),
        r.Dates@ == date_days(dates@),
{
    let mut names: Vec<String> = Vec::new();
    let mut i: usize = 0;
    while i < tags.len()
        invariant
            i <= tags@.len(),
            views(names@) == tag_names(tags@).take(i as int),
        decreases tags@.len() - i,
    {
        let ghost before = views(names@);
        let name = tags[i].Name.clone();
        names.push(name);
        assert(views(names@) =~= before.push(tags@[i as int].Name@));
        assert(views(names@) =~= tag_names(tags@).take(i + 1));
        i = i + 1;
    }
    assert(tag_names(tags@).take(tags@.len() as int) =~= tag_names(tags@));
    let mut days: Vec<CalendarDate> = Vec::new();
    let mut j: usize = 0;
    while j < dates.len()
        invariant
            j <= dates@.len(),
            days@ == date_days(dates@).take(j as int),
        decreases dates@.len() - j,
    {
        days.push(dates[j].Date);
        assert(days@ =~= date_days(dates@).take(j + 1));
        j = j + 1;
    }
    assert(date_days(dates@).take(dates@.len() as int) =~= date_days(dates@));
    Item { Tags: names, Dates: days, ..item }
}

/// The pairs of elements at the same positions, as long as the shorter list.
pub fn get_zip<T: std::clone::Clone>(first: Vec<T>, secnd: Vec<T>) -> (r: Vec<(T, T)>)
    ensures
        r@.len() == if first@.len() < secnd@.len() { first@.len() } else { secnd@.len() },
        forall|i: int| 0 <= i < r@.len() ==> #[trigger] r@[i] == (first@[i], secnd@[i]),
{
    let ghost f0 = first@;
    let ghost s0 = secnd@;
    let mut first = first;
    let mut secnd = secnd;
    let m = if first.len() < secnd.len() { first.len() } else { secnd.len() };
    let mut r: Vec<(T, T)> = Vec::new();
    let mut i: usize = 0;
    while i < m
        invariant
            m <= f0.len(),
            m <= s0.len(),
            m == f0.len() || m == s0.len(),
            i <= m,
            first@ == f0.skip(i as int),
            secnd@ == s0.skip(i as int),
            r@.len() == i,
            forall|k: int| 0 <= k < i ==> #[trigger] r@[k] == (f0[k], s0[k]),
        decreases m - i,
    {
        let a = first.remove(0);
        let b = secnd.remove(0);
        r.push((a, b));
        assert(first@ =~= f0.skip(i + 1));
        assert(secnd@ =~= s0.skip(i + 1));
        i = i + 1;
    }
    r
}


/// `DT_FORMAT` is the supported pattern with `-` between the parts.
proof fn lemma_dt_format()
    ensures
        supported_pattern(DT_FORMAT@),
        DT_FORMAT@[2] == '-',
{
    reveal_strlit("%Y-%m-%d");
    assert(DT_FORMAT@ =~= crate::calendar::date_pattern('-'));
}

/// The day a date text read with `DT_FORMAT` gives, if it gives one.
pub open spec fn parsed_day(text: Seq<char>) -> Option<(int, int, int)> {
    match parsed_date(text, DT_FORMAT@) {
        Some(t) => Some((t.0 as int, t.1 as int, t.2 as int)),
        None => None,
    }
}

/// The days of the texts that read as dates with `DT_FORMAT`, in order; the
/// others are left out.
pub open spec fn parsed_days(texts: Seq<Seq<char>>) -> Seq<(int, int, int)>
    decreases texts.len(),
{
    if texts.len() == 0 {
        Seq::empty()
    } else {
        let r = parsed_days(texts.drop_last());
        match parsed_day(texts.last()) {
            Some(t) => r.push(t),
            None => r,
        }
    }
}

/// The texts of string slices.
pub open spec fn slice_views(v: Seq<&str>) -> Seq<Seq<char>> {
    Seq::new(v.len(), |i: int| v[i]@)
}

/// The date of a required date field of a data file: a missing date is the
/// default date 1970-01-01; a present one must read with `DT_FORMAT`.
pub fn deserialize_naive_date(date_str: Option<&str>) -> (r: Result<CalendarDate, DateError>)
    ensures
        date_str is None ==> (r matches Ok(d) && d.ymd() == (1970int, 1int, 1int)),
        date_str matches Some(x) ==> (r is Ok <==> parsed_day(x@) is Some),
        date_str matches Some(x) ==> (r matches Ok(d) ==> parsed_day(x@) == Some(d.ymd())),
        date_str matches Some(x) ==> forall|y: i32, m: u32, d: u32|
            valid_ymd(y as int, m as int, d as int) && x@ == #[trigger] date_text(
                y as int,
                m as int,
                d as int,
                '-',
            ) ==> (r matches Ok(e)
                && e.ymd() == (y as int, m as int, d as int)),
{
    proof { lemma_dt_format(); }
    match date_str {
        Some(x) => CalendarDate::parse(x, DT_FORMAT),
        None => Ok(CalendarDate::default()),
    }
}

/// The date of an optional date field of a data file: missing stays
/// missing; a present one must read with `DT_FORMAT`.
pub fn deserialize_optional_naive_date(date_str: Option<&str>) -> (r: Result<
    Option<CalendarDate>,
    DateError,
>)
    ensures
        date_str is None ==> (r matches Ok(v) && v is None),
        date_str matches Some(x) ==> (r is Ok <==> parsed_day(x@) is Some),
        date_str matches Some(x) ==> (r matches Ok(v) ==> v matches Some(d) && parsed_day(x@)
            == Some(d.ymd())),
        date_str matches Some(x) ==> forall|y: i32, m: u32, d: u32|
            valid_ymd(y as int, m as int, d as int) && x@ == #[trigger] date_text(
                y as int,
                m as int,
                d as int,
                '-',
            ) ==> (r matches Ok(v)
                && v matches Some(e) && e.ymd() == (y as int, m as int, d as int)),
{
    proof { lemma_dt_format(); }
    match date_str {
        Some(x) => match CalendarDate::parse(x, DT_FORMAT) {
            Ok(d) => Ok(Some(d)),
            Err(e) => Err(e),
        },
        None => Ok(None),
    }
}

/// The dates of a list field of a data file: the texts that read with
/// `DT_FORMAT`, in order; the others are dropped, and a missing list is
/// empty.
pub fn deserialize_naive_date_vec(maybe_str_list: Option<Vec<&str>>) -> (r: Vec<CalendarDate>)
    ensures
        maybe_str_list is None ==> r@.len() == 0,
        maybe_str_list matches Some(l) ==> r@.len() == parsed_days(slice_views(l@)).len() && forall|
            i: int,
        |
            0 <= i < r@.len() ==> (#[trigger] r@[i]).ymd() == parsed_days(slice_views(l@))[i],
        maybe_str_list matches Some(l) ==> forall|k: int, y: i32, m: u32, d: u32|
            #![trigger l@[k], date_text(y as int, m as int, d as int, '-')]
            0 <= k < l@.len() && valid_ymd(y as int, m as int, d as int) && l@[k]@ == date_text(
                y as int,
                m as int,
                d as int,
                '-',
            ) ==> parsed_day(l@[k]@) == Some((y as int, m as int, d as int)),
{
    proof { lemma_dt_format(); }
    let mut list: Vec<CalendarDate> = Vec::new();
    match maybe_str_list {
        Some(str_list) => {
            let n = str_list.len();
            let mut i: usize = 0;
            let ghost texts = slice_views(str_list@);
            assert(texts.take(0) =~= Seq::<Seq<char>>::empty());
            while i < n
                invariant
                    n == str_list@.len(),
                    i <= n,
                    texts == slice_views(str_list@),
                    list@.len() == parsed_days(texts.take(i as int)).len(),
                    forall|k: int|
                        0 <= k < list@.len() ==> (#[trigger] list@[k]).ymd() == parsed_days(
                            texts.take(i as int),
                        )[k],
                    supported_pattern(DT_FORMAT@),
                    DT_FORMAT@[2] == '-',
                    forall|k: int, y: i32, m: u32, d: u32|
                        #![trigger str_list@[k], date_text(y as int, m as int, d as int, '-')]
                        0 <= k < i && valid_ymd(y as int, m as int, d as int) && str_list@[k]@
                            == date_text(y as int, m as int, d as int, '-') ==> parsed_day(
                            str_list@[k]@,
                        ) == Some((y as int, m as int, d as int)),
                decreases n - i,
            {
                assert(texts.take(i + 1).drop_last() =~= texts.take(i as int));
                assert(texts.take(i + 1).last() == str_list@[i as int]@);
                match CalendarDate::parse(str_list[i], DT_FORMAT) {
                    Ok(y) => list.push(y),
                    Err(_) => (),
                }
                i = i + 1;
            }
            assert(texts.take(n as int) =~= texts);
        },
        None => (),
    }
    list
}

} // verus!
