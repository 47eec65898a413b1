//! The first form of the queries: one search per query, a named schema, a
//! searched column and a sentinel value bound to the search.
use vstd::prelude::*;
use vstd::string::StringExecFns;
use crate::calendar::{date_text, parsed_date, supported_pattern, valid_ymd, CalendarDate, DateError};
use crate::myquery::select::{ids_join, ids_text, minus_view, Statement};
use crate::myquery::dbstring::{quoted, string_row, string_to_dbrow};
use crate::myquery::insert::{
    item_tag_entries, item_tag_pairs, itemhastag_pairs, itemhastag_text, lemma_name_less_strict_total,
    link_text, name_less,
    sorted_unique_tags, tag_entries, tag_pair_stream, tag_stream, unique_tags,
};
use crate::sorted::{first_value, key_sorted, lemma_sorted_first_entries, sorted_first_entries};
use crate::text::{int_text, i32_text, join, join_strings, str_eq, views};

pub mod get;

verus! {

/// The table every other table is linked to.
pub const MAIN_TABLE: &'static str = "item";

/// The schema the program works in.
pub const DB: &'static str = "mydb";

/// The format dates are written in.
pub const DT_FORMAT: &'static str = "%Y_%m_%d";

/// A kind of search together with what it searches for.
#[derive(Clone, Copy)]
pub enum When<T> {
    Equal(T),
    Like(T),
    Match(T),
    Approx(T),
    Other(T),
}

impl<'a> Default for When<&'a str> {
    fn default() -> (r: When<&'a str>)
        ensures
            r == When::<&'a str>::Equal("?"),
    {
        When::<&'a str>::Equal("?")
    }
}

/// The FROM and WHERE parts of a query.
#[derive(Debug, Default)]
pub struct QueryString {
    pub from: String,
    pub where_clause: String,
}

/// The FROM and WHERE parts written out.
pub open spec fn query_string_text(from: Seq<char>, where_clause: Seq<char>) -> Seq<char> {
    "\nFROM\n    "@ + from + "\nWHERE\n    "@ + where_clause + "\n;\n            "@
}

impl QueryString {
    /// The FROM and WHERE parts written out.
    pub fn to_string(&self) -> (r: String)
        ensures
            r@ == query_string_text(self.from@, self.where_clause@),
    {
        let mut r = String::from_str("\nFROM\n    ");
        r.append(self.from.as_str());
        r.append("\nWHERE\n    ");
        r.append(self.where_clause.as_str());
        r.append("\n;\n            ");
        r
    }
}

/// The comparison a search writes; `None` for fuzzy searches, which are not
/// supported.
pub open spec fn search_type(when: When<&str>) -> Option<Seq<char>> {
    match when {
        When::Equal(x) => Some("= "@ + x@),
        When::Like(x) => Some("LIKE "@ + x@ + "%"@),
        When::Match(x) => Some("RLIKE "@ + x@),
        When::Approx(_) => None,
        When::Other(x) => Some(x@),
    }
}

/// Equality compares with `=`, "like" matches the text as a prefix
/// pattern, "match" as a regular expression, "other" writes its text as the
/// whole comparison, and fuzzy searches have none.
pub proof fn law_schema_search_comparisons(x: &str)
    ensures
        search_type(When::Equal(x)) == Some("= "@ + x@),
        search_type(When::Like(x)) == Some("LIKE "@ + x@ + "%"@),
        search_type(When::Match(x)) == Some("RLIKE "@ + x@),
        search_type(When::Other(x)) == Some(x@),
        search_type(When::Approx(x)) is None,
{
}

/// The table a query reads: `to`, or `from` when `to` is empty.
pub open spec fn target_table(from: Seq<char>, to: Seq<char>) -> Seq<char> {
    if to.len() == 0 { from } else { to }
}

/// The FROM and WHERE parts of a query in schema `db` from table `from` for
/// rows of table `to`, searching column `by`; a non-empty list of ids to
/// exclude adds a `not in` condition. `None` for fuzzy searches and when
/// neither table is the main table.
pub open spec fn query_text(
    db: Seq<char>,
    from: Seq<char>,
    to: Seq<char>,
    by: Seq<char>,
    when: When<&str>,
    minus: Option<Seq<i32>>,
) -> Option<(Seq<char>, Seq<char>)> {
    let t = target_table(from, to);
    match search_type(when) {
        None => None,
        Some(st) => {
            let base = if t == from {
                Some(("`"@ + db + "`.`"@ + t + "`"@, "`"@ + db + "`."@ + by + "` "@ + st))
            } else if from == MAIN_TABLE@ || t == MAIN_TABLE@ {
                let other = if from == MAIN_TABLE@ { t } else { from };
                Some(
                    (
                        "`"@ + db + "`.`"@ + t + "` LEFT JOIN `"@ + db + "`.`item_has_"@ + other
                            + "` ON `id` = `"@ + t + "_id`"@,
                        "`"@ + from + "_id` = (SELECT `id` FROM `"@ + from + "` WHERE `"@ + by
                            + "` "@ + st + ")"@,
                    ),
                )
            } else {
                None
            };
            match base {
                None => None,
                Some(q) => match minus {
                    Some(ids) => if ids.len() > 0 {
                        Some((q.0, q.1 + " and `"@ + t + "_id` not in ("@ + ids_text(ids) + ")"@))
                    } else {
                        Some(q)
                    },
                    None => Some(q),
                },
            }
        },
    }
}

/// A search in the named schema that stays in one table (no target, or the
/// target is the table searched from) reads that table of the schema
/// directly, whatever its name.
pub proof fn law_schema_single_table_query(
    db: Seq<char>,
    from: Seq<char>,
    to: Seq<char>,
    by: Seq<char>,
    when: When<&str>,
)
    requires
        to.len() == 0 || to == from,
        !(when is Approx),
    ensures
        query_text(db, from, to, by, when, None) == Some(
            (
                "`"@ + db + "`.`"@ + from + "`"@,
                "`"@ + db + "`."@ + by + "` "@ + search_type(when).unwrap(),
            ),
        ),
{
}

/// A fuzzy search has no statement; any other search has one exactly when
/// it stays in one table or one of its two tables is `item`.
pub proof fn law_schema_query_exists(
    db: Seq<char>,
    from: Seq<char>,
    to: Seq<char>,
    by: Seq<char>,
    when: When<&str>,
    minus: Option<Seq<i32>>,
)
    ensures
        query_text(db, from, to, by, when, minus) is Some <==> (!(when is Approx) && (to.len()
            == 0 || to == from || from == "item"@ || to == "item"@)),
{
    reveal_strlit("item");
    assert(MAIN_TABLE@ == "item"@);
}

/// Excluding a non-empty list of ids in the named schema filters the table
/// whose rows are returned (the target, or the table searched from when
/// there is no target) and changes nothing else.
pub proof fn law_schema_exclusion_on_returned_table(
    db: Seq<char>,
    from: Seq<char>,
    to: Seq<char>,
    by: Seq<char>,
    when: When<&str>,
    ids: Seq<i32>,
)
    requires
        ids.len() > 0,
        query_text(db, from, to, by, when, None) is Some,
    ensures
        query_text(db, from, to, by, when, Some(ids)) == Some(
            (
                query_text(db, from, to, by, when, None).unwrap().0,
                query_text(db, from, to, by, when, None).unwrap().1 + " and `"@ + (if to.len() == 0 {
                    from
                } else {
                    to
                }) + "_id` not in ("@ + ids_text(ids) + ")"@,
            ),
        ),
        query_text(db, from, to, by, when, Some(Seq::<i32>::empty())) == query_text(
            db,
            from,
            to,
            by,
            when,
            None,
        ),
{
}

/// The FROM and WHERE parts of a query; `None` for fuzzy searches and when
/// neither table is the main table.
pub fn new_query_str(
    db: &str,
    from: &str,
    to: &str,
    by: &str,
    when: When<&str>,
    minus: Option<&Vec<i32>>,
) -> (r: Option<QueryString>)
    ensures
        r is Some <==> query_text(db@, from@, to@, by@, when, minus_view(minus)) is Some,
        r matches Some(q) ==> query_text(db@, from@, to@, by@, when, minus_view(minus)) == Some(
            (q.from@, q.where_clause@),
        ),
{
    let search_type = match when {
        When::Equal(x) => {
            let mut s = String::from_str("= ");
            s.append(x);
            s
        },
        When::Like(x) => {
            let mut s = String::from_str("LIKE ");
            s.append(x);
            s.append("%");
            s
        },
        When::Match(x) => {
            let mut s = String::from_str("RLIKE ");
            s.append(x);
            s
        },
        When::Approx(_) => {
            return None;
        },
        When::Other(x) => String::from_str(x),
    };
    let to = if to.is_empty() { from } else { to };
    let query = if str_eq(to, from) {
        let mut f = String::from_str("`");
        f.append(db);
        f.append("`.`");
        f.append(to);
        f.append("`");
        let mut w = String::from_str("`");
        w.append(db);
        w.append("`.");
        w.append(by);
        w.append("` ");
        w.append(search_type.as_str());
        QueryString { from: f, where_clause: w }
    } else {
        let other_table: &str = if str_eq(from, MAIN_TABLE) {
            to
        } else if str_eq(to, MAIN_TABLE) {
            from
        } else {
            return None;
        };
        let mut f = String::from_str("`");
        f.append(db);
        f.append("`.`");
        f.append(to);
        f.append("` LEFT JOIN `");
        f.append(db);
        f.append("`.`item_has_");
        f.append(other_table);
        f.append("` ON `id` = `");
        f.append(to);
        f.append("_id`");
        let mut w = String::from_str("`");
        w.append(from);
        w.append("_id` = (SELECT `id` FROM `");
        w.append(from);
        w.append("` WHERE `");
        w.append(by);
        w.append("` ");
        w.append(search_type.as_str());
        w.append(")");
        QueryString { from: f, where_clause: w }
    };
    match minus {
        Some(exclude_ids) => {
            if exclude_ids.len() > 0 {
                let ids = ids_join(exclude_ids);
                let mut w = query.where_clause;
                w.append(" and `");
                w.append(to);
                w.append("_id` not in (");
                w.append(ids.as_str());
                w.append(")");
                Some(QueryString { from: query.from, where_clause: w })
            } else {
                Some(query)
            }
        },
        None => Some(query),
    }
}

/// A record type stored in one table of the schema.
pub trait MySqlMarshal: Sized {
    /// The columns selected for this type.
    spec fn col_name_text() -> Seq<char>;

    /// The table this type is stored in.
    spec fn table_name_text() -> Seq<char>;

    fn col_name() -> (r: String)
        ensures
            r@ == Self::col_name_text(),
    ;

    fn table_name() -> (r: String)
        ensures
            r@ == Self::table_name_text(),
    ;
}

/// The id of a row of the table of `T`.
pub struct Id<T> {
    id: i32,
    phantom: std::marker::PhantomData<T>,
}

impl<T> Id<T> {
    /// The id held.
    pub closed spec fn value(&self) -> i32 {
        self.id
    }

    /// The id of the row with this id.
    pub fn new(id: i32) -> (r: Id<T>)
        ensures
            r.value() == id,
    {
        Id { id, phantom: std::marker::PhantomData }
    }

    /// The id held.
    pub fn get(&self) -> (r: i32)
        ensures
            r == self.value(),
    {
        self.id
    }
}

impl MySqlMarshal for i32 {
    open spec fn col_name_text() -> Seq<char> {
        "`Id`"@
    }

    open spec fn table_name_text() -> Seq<char> {
        Seq::empty()
    }

    fn col_name() -> (r: String) {
        String::from_str("`Id`")
    }

    fn table_name() -> (r: String) {
        String::new()
    }
}

impl<T: MySqlMarshal> MySqlMarshal for Id<T> {
    open spec fn col_name_text() -> Seq<char> {
        <i32 as MySqlMarshal>::col_name_text()
    }

    open spec fn table_name_text() -> Seq<char> {
        T::table_name_text()
    }

    fn col_name() -> (r: String) {
        <i32 as MySqlMarshal>::col_name()
    }

    fn table_name() -> (r: String) {
        T::table_name()
    }
}

/// An item: a named thing with an optional description, optional arrival,
/// expiry and creation dates, and tags.
#[allow(non_snake_case)]
#[derive(Debug, PartialEq, Eq, Clone)]
pub struct Item {
    pub Id: i32,
    pub Name: String,
    pub Description: Option<String>,
    pub Arrival: Option<CalendarDate>,
    pub Expiry: Option<CalendarDate>,
    pub Created: Option<CalendarDate>,
    pub Tags: Vec<String>,
}

/// A tag with its creation date.
#[allow(non_snake_case)]
#[derive(Debug, PartialEq, Eq, Clone)]
pub struct Tag {
    pub Id: i32,
    pub Name: String,
    pub Created: Option<CalendarDate>,
}

/// The items of a data file.
#[allow(non_snake_case)]
#[derive(Debug)]
pub struct DbRoot {
    pub Items: Vec<Item>,
}

impl MySqlMarshal for Item {
    open spec fn col_name_text() -> Seq<char> {
        "*"@
    }

    open spec fn table_name_text() -> Seq<char> {
        "item"@
    }

    fn col_name() -> (r: String) {
        String::from_str("*")
    }

    fn table_name() -> (r: String) {
        String::from_str("item")
    }
}

impl MySqlMarshal for Tag {
    open spec fn col_name_text() -> Seq<char> {
        "*"@
    }

    open spec fn table_name_text() -> Seq<char> {
        "tag"@
    }

    fn col_name() -> (r: String) {
        String::from_str("*")
    }

    fn table_name() -> (r: String) {
        String::from_str("tag")
    }
}


/// A query in a named schema: from which table, searching which column,
/// with which search, bound to which sentinel, without which ids. `pool` is
/// the connection it runs on.
pub struct Query<'a, P> {
    pub pool: &'a P,
    pub db_name: &'a str,
    pub from: &'a str,
    pub by: &'a str,
    pub when: Vec<When<&'a str>>,
    pub sentinel: String,
    pub minus: Option<&'a Vec<i32>>,
}

/// Builds a [`Query`] one setting at a time.
pub struct QueryBuilder<'a, P> {
    pub pool: &'a P,
    pub db_name: &'a str,
    pub from: &'a str,
    pub by: &'a str,
    pub when: Vec<When<&'a str>>,
    pub sentinel: String,
    pub minus: Option<&'a Vec<i32>>,
}

/// The SELECT statement for columns `col` over the FROM and WHERE parts.
pub open spec fn select_text(col: Seq<char>, q: (Seq<char>, Seq<char>)) -> Seq<char> {
    "SELECT "@ + col + " "@ + query_string_text(q.0, q.1)
}

/// A copy of a list of searches.
pub fn copy_whens<'a>(when: &Vec<When<&'a str>>) -> (r: Vec<When<&'a str>>)
    ensures
        r@ == when@,
{
    let mut r: Vec<When<&'a str>> = Vec::new();
    let n = when.len();
    let mut i: usize = 0;
    while i < n
        invariant
            n == when@.len(),
            i <= n,
            r@ == when@.take(i as int),
        decreases n - i,
    {
        r.push(when[i]);
        assert(r@ =~= when@.take(i + 1));
        i = i + 1;
    }
    assert(when@.take(n as int) =~= when@);
    r
}

fn select_statement(
    col: &str,
    db: &str,
    from: &str,
    to: &str,
    by: &str,
    when: When<&str>,
    minus: Option<&Vec<i32>>,
    sentinel: String,
) -> (r: Option<Statement>)
    ensures
        r is Some <==> query_text(db@, from@, to@, by@, when, minus_view(minus)) is Some,
        r matches Some(st) ==> query_text(db@, from@, to@, by@, when, minus_view(minus)) matches Some(
            q,
        ) && st.sql@ == select_text(col@, q) && views(st.binds@) == seq![sentinel@],
{
    match new_query_str(db, from, to, by, when, minus) {
        Some(q) => {
            let mut sql = String::from_str("SELECT ");
            sql.append(col);
            sql.append(" ");
            let rest = q.to_string();
            sql.append(rest.as_str());
            let mut binds: Vec<String> = Vec::new();
            binds.push(sentinel);
            assert(views(binds@) =~= seq![binds@[0]@]);
            Some(Statement { sql, binds })
        },
        None => None,
    }
}

impl<'a, P> Query<'a, P> {
    /// A builder with the default settings.
    pub fn builder(pool: &'a P) -> (r: QueryBuilder<'a, P>)
        ensures
            r.pool == pool,
            r.db_name@ == Seq::<char>::empty(),
            r.from@ == Seq::<char>::empty(),
            r.by@ == Seq::<char>::empty(),
            r.when@ == seq![When::<&'a str>::Equal("?")],
            r.sentinel@ == Seq::<char>::empty(),
            r.minus is None,
    {
        QueryBuilder::<'a, P>::new(pool)
    }

    /// The statement that [`Query::to`] runs for rows of type `T`: the first
    /// search of the query, with the sentinel bound to its placeholder.
    pub fn to_statement<T: MySqlMarshal>(&self) -> (r: Option<Statement>)
        requires
            self.when@.len() > 0,
        ensures
            r is Some <==> query_text(
                self.db_name@,
                self.from@,
                T::table_name_text(),
                self.by@,
                self.when@[0],
                minus_view(self.minus),
            ) is Some,
            r matches Some(st) ==> query_text(
                self.db_name@,
                self.from@,
                T::table_name_text(),
                self.by@,
                self.when@[0],
                minus_view(self.minus),
            ) matches Some(q) && st.sql@ == select_text(T::col_name_text(), q) && views(st.binds@)
                == seq![self.sentinel@],
    {
        let col = T::col_name();
        let to = T::table_name();
        select_statement(
            col.as_str(),
            self.db_name,
            self.from,
            to.as_str(),
            self.by,
            self.when[0],
            self.minus,
            self.sentinel.clone(),
        )
    }
}

impl<'a, P> QueryBuilder<'a, P> {
    pub const DEFAULT_STR: &'static str = "";

    /// A builder for queries on `pool`: no schema, table or column, one
    /// search for equality with the placeholder, an empty sentinel, nothing
    /// excluded.
    pub fn new(pool: &'a P) -> (r: Self)
        ensures
            r.pool == pool,
            r.db_name@ == Seq::<char>::empty(),
            r.from@ == Seq::<char>::empty(),
            r.by@ == Seq::<char>::empty(),
            r.when@ == seq![When::<&'a str>::Equal("?")],
            r.sentinel@ == Seq::<char>::empty(),
            r.minus is None,
    {
        let mut when: Vec<When<&'a str>> = Vec::new();
        when.push(When::<&'a str>::default());
        proof { reveal_strlit(""); }
        QueryBuilder {
            pool: pool,
            db_name: "",
            from: "",
            by: "",
            when: when,
            sentinel: String::new(),
            minus: None,
        }
    }

    /// Sets the pool.
    pub fn pool(&mut self, pool: &'a P) -> (r: &mut Self)
        ensures
            r.pool == pool,
            r.db_name == old(self).db_name,
            r.from == old(self).from,
            r.by == old(self).by,
            r.when@ == old(self).when@,
            r.sentinel@ == old(self).sentinel@,
            r.minus == old(self).minus,
            *final(self) == *final(r),
    {
        self.pool = pool;
        self
    }

    /// Sets the schema.
    pub fn db_name(&mut self, db_name: &'a str) -> (r: &mut Self)
        ensures
            r.pool == old(self).pool,
            r.db_name == db_name,
            r.from == old(self).from,
            r.by == old(self).by,
            r.when@ == old(self).when@,
            r.sentinel@ == old(self).sentinel@,
            r.minus == old(self).minus,
            *final(self) == *final(r),
    {
        self.db_name = db_name;
        self
    }

    /// Sets the table searched from.
    pub fn from(&mut self, from: &'a str) -> (r: &mut Self)
        ensures
            r.pool == old(self).pool,
            r.db_name == old(self).db_name,
            r.from == from,
            r.by == old(self).by,
            r.when@ == old(self).when@,
            r.sentinel@ == old(self).sentinel@,
            r.minus == old(self).minus,
            *final(self) == *final(r),
    {
        self.from = from;
        self
    }

    /// Sets the column searched.
    pub fn by(&mut self, by: &'a str) -> (r: &mut Self)
        ensures
            r.pool == old(self).pool,
            r.db_name == old(self).db_name,
            r.from == old(self).from,
            r.by == by,
            r.when@ == old(self).when@,
            r.sentinel@ == old(self).sentinel@,
            r.minus == old(self).minus,
            *final(self) == *final(r),
    {
        self.by = by;
        self
    }

    /// Sets the searches to a copy of `when`.
    pub fn when(&mut self, when: &Vec<When<&'a str>>) -> (r: &mut Self)
        ensures
            r.pool == old(self).pool,
            r.db_name == old(self).db_name,
            r.from == old(self).from,
            r.by == old(self).by,
            r.when@ == when@,
            r.sentinel@ == old(self).sentinel@,
            r.minus == old(self).minus,
            *final(self) == *final(r),
    {
        self.when = copy_whens(when);
        self
    }

    /// Sets the sentinel to the text of `sentinel`.
    pub fn sentinel<T: std::fmt::Display>(&mut self, sentinel: T) -> (r: &mut Self)
        ensures
            r.pool == old(self).pool,
            r.db_name == old(self).db_name,
            r.from == old(self).from,
            r.by == old(self).by,
            r.when@ == old(self).when@,
            vstd::string::to_string_from_display_ensures::<T>(&sentinel, r.sentinel),
            r.minus == old(self).minus,
            *final(self) == *final(r),
    {
        self.sentinel = sentinel.to_string();
        self
    }

    /// Sets the ids to exclude.
    pub fn minus(&mut self, minus: Option<&'a Vec<i32>>) -> (r: &mut Self)
        ensures
            r.pool == old(self).pool,
            r.db_name == old(self).db_name,
            r.from == old(self).from,
            r.by == old(self).by,
            r.when@ == old(self).when@,
            r.sentinel@ == old(self).sentinel@,
            r.minus == minus,
            *final(self) == *final(r),
    {
        self.minus = minus;
        self
    }

    /// The query with the current settings.
    pub fn build(&self) -> (r: Query<'a, P>)
        ensures
            r.pool == self.pool,
            r.db_name == self.db_name,
            r.from == self.from,
            r.by == self.by,
            r.when@ == self.when@,
            r.sentinel@ == self.sentinel@,
            r.minus == self.minus,
    {
        Query {
            pool: self.pool,
            db_name: self.db_name,
            from: self.from,
            by: self.by,
            when: copy_whens(&self.when),
            sentinel: self.sentinel.clone(),
            minus: self.minus,
        }
    }
}

/// The statement that finds the tags of the item with id `item_id` in
/// schema `db_name`: tags reached from items by column `id`, equal to the
/// placeholder, which is bound to the id.
pub fn item_tags_statement(db_name: &str, item_id: i32) -> (r: Statement)
    ensures
        query_text(db_name@, "item"@, "tag"@, "id"@, When::Equal("?"), None) matches Some(q)
            && r.sql@ == select_text("*"@, q),
        views(r.binds@) == seq![int_text(item_id as int)],
{
    proof {
        reveal_strlit("item");
        reveal_strlit("tag");
    }
    select_statement("*", db_name, "item", "tag", "id", When::Equal("?"), None, i32_text(item_id)).unwrap()
}

/// The names of the tags.
pub open spec fn tag_names(tags: Seq<Tag>) -> Seq<Seq<char>> {
    Seq::new(tags.len(), |i: int| tags[i].Name@)
}

/// Completing an item lists the tags' names one for one, in the order given.
pub proof fn law_completion_lists_tag_names(tags: Seq<Tag>)
    ensures
        tag_names(tags).len() == tags.len(),
        forall|i: int| 0 <= i < tags.len() ==> #[trigger] tag_names(tags)[i] == tags[i].Name@,
{
}

/// The item with its tags set to the names of `tags`, everything else kept.
pub fn complete_item(item: Item, tags: &Vec<Tag>) -> (r: Item)
    ensures
        r.Id == item.Id,
        r.Name == item.Name,
        r.Description == item.Description,
        r.Arrival == item.Arrival,
        r.Expiry == item.Expiry,
        r.Created == item.Created,
        views(r.Tags@) == tag_names(tags@),
{
    let mut names: Vec<String> = Vec::new();
    let mut i: usize = 0;
    while i < tags.len()
        invariant
            i <= tags@.len(),
            views(names@) == tag_names(tags@).take(i as int),
        decreases tags@.len() - i,
    {
        let ghost before = views(names@);
        let name = tags[i].Name.clone();
        names.push(name);
        assert(views(names@) =~= before.push(tags@[i as int].Name@));
        assert(views(names@) =~= tag_names(tags@).take(i + 1));
        i = i + 1;
    }
    assert(tag_names(tags@).take(tags@.len() as int) =~= tag_names(tags@));
    Item { Tags: names, ..item }
}


/// An optional date as `STR_TO_DATE` of its text in `fmt`, or NULL.
pub open spec fn date_row(date: Option<CalendarDate>, fmt: Seq<char>) -> Seq<char> {
    match date {
        Some(d) => "STR_TO_DATE('"@ + date_text(d.ymd().0, d.ymd().1, d.ymd().2, fmt[2]) + "', '"@
            + fmt + "')"@,
        None => "NULL"@,
    }
}

/// An optional date as a value: `STR_TO_DATE` of its text written with
/// `format` (`%Y-%m-%d` or `%Y_%m_%d`), or NULL.
pub fn date_to_dbrow(date: &Option<CalendarDate>, format: &str) -> (r: String)
    requires
        supported_pattern(format@),
    ensures
        r@ == date_row(*date, format@),
{
    match date {
        Some(s) => {
            let text = s.format(format);
            let mut r = String::from_str("STR_TO_DATE('");
            r.append(text.as_str());
            r.append("', '");
            r.append(format);
            r.append("')");
            r
        },
        None => String::from_str("NULL"),
    }
}

/// `DT_FORMAT` is a supported date pattern.
proof fn lemma_dt_format()
    ensures
        supported_pattern(DT_FORMAT@),
        DT_FORMAT@[2] == '_',
{
    reveal_strlit("%Y_%m_%d");
    assert(DT_FORMAT@ =~= crate::calendar::date_pattern('_'));
}

/// The values of an item in its row.
pub open spec fn item_row(item: Item) -> Seq<char> {
    join(
        seq![
            quoted(item.Name@),
            string_row(item.Description),
            date_row(item.Arrival, DT_FORMAT@),
            date_row(item.Expiry, DT_FORMAT@),
            date_row(item.Created, DT_FORMAT@),
        ],
        ",\n    "@,
    )
}

/// The values of a tag with this name and creation date in its row.
pub open spec fn tag_row(name: Seq<char>, created: Option<CalendarDate>) -> Seq<char> {
    join(seq![quoted(name), date_row(created, DT_FORMAT@)], ",\n    "@)
}

/// An optional date as the value an insert into the named schema writes:
/// `STR_TO_DATE` of its `%Y_%m_%d` text, or NULL when there is no date.
pub open spec fn stamp_value(date: Option<CalendarDate>) -> Seq<char> {
    match date {
        Some(d) => "STR_TO_DATE('"@ + date_text(d.ymd().0, d.ymd().1, d.ymd().2, '_')
            + "', '%Y_%m_%d')"@,
        None => "NULL"@,
    }
}

/// The row of an item holds, in this order and separated by ",\n    ", its
/// quoted name, its quoted description or NULL, and its arrival, expiry and
/// creation dates as `STR_TO_DATE` values or NULL; a tag's row holds its
/// quoted name and its creation date the same way.
pub proof fn law_schema_rows_hold_each_field(item: Item, tag: Tag)
    ensures
        item_row(item) == "'"@ + item.Name@ + "'"@ + ",\n    "@ + (match item.Description {
            Some(s) => "'"@ + s@ + "'"@,
            None => "NULL"@,
        }) + ",\n    "@ + stamp_value(item.Arrival) + ",\n    "@ + stamp_value(item.Expiry)
            + ",\n    "@ + stamp_value(item.Created),
        tag_row(tag.Name@, tag.Created) == "'"@ + tag.Name@ + "'"@ + ",\n    "@ + stamp_value(
            tag.Created,
        ),
{
    reveal_strlit("%Y_%m_%d");
    let sep = ",\n    "@;
    let fmt = DT_FORMAT@;
    assert(fmt[2] == '_');
    let p = seq![
        quoted(item.Name@),
        string_row(item.Description),
        date_row(item.Arrival, fmt),
        date_row(item.Expiry, fmt),
        date_row(item.Created, fmt),
    ];
    assert(p.drop_last() =~= seq![quoted(item.Name@), string_row(item.Description), date_row(item.Arrival, fmt), date_row(item.Expiry, fmt)]);
    assert(p.drop_last().drop_last() =~= seq![quoted(item.Name@), string_row(item.Description), date_row(item.Arrival, fmt)]);
    assert(p.drop_last().drop_last().drop_last() =~= seq![quoted(item.Name@), string_row(item.Description)]);
    assert(p.drop_last().drop_last().drop_last().drop_last() =~= seq![quoted(item.Name@)]);
    assert(join(seq![quoted(item.Name@)], sep) == quoted(item.Name@));
    let j2 = quoted(item.Name@) + sep + string_row(item.Description);
    assert(join(p.drop_last().drop_last().drop_last(), sep) == j2);
    let j3 = j2 + sep + date_row(item.Arrival, fmt);
    assert(join(p.drop_last().drop_last(), sep) == j3);
    let j4 = j3 + sep + date_row(item.Expiry, fmt);
    assert(join(p.drop_last(), sep) == j4);
    assert(join(p, sep) == j4 + sep + date_row(item.Created, fmt));
    assert(item_row(item) == join(p, sep));
    reveal_strlit("', '");
    reveal_strlit("')");
    reveal_strlit("', '%Y_%m_%d')");
    assert(fmt =~= "%Y_%m_%d"@);
    assert("', '"@ + fmt + "')"@ =~= "', '%Y_%m_%d')"@);
    assert forall|d: Option<CalendarDate>| #[trigger] date_row(d, fmt) == stamp_value(d) by {
        match d {
            Some(x) => {
                let t = date_text(x.ymd().0, x.ymd().1, x.ymd().2, '_');
                assert("STR_TO_DATE('"@ + t + "', '"@ + fmt + "')"@ =~= "STR_TO_DATE('"@ + t
                    + "', '%Y_%m_%d')"@);
            },
            None => {},
        }
    }
    assert(item_row(item) =~= "'"@ + item.Name@ + "'"@ + ",\n    "@ + (match item.Description {
        Some(s) => "'"@ + s@ + "'"@,
        None => "NULL"@,
    }) + ",\n    "@ + stamp_value(item.Arrival) + ",\n    "@ + stamp_value(item.Expiry)
        + ",\n    "@ + stamp_value(item.Created));
    let q = seq![quoted(tag.Name@), date_row(tag.Created, fmt)];
    assert(q.drop_last() =~= seq![quoted(tag.Name@)]);
    assert(join(seq![quoted(tag.Name@)], sep) == quoted(tag.Name@));
}

fn quote(s: &str) -> (r: String)
    ensures
        r@ == quoted(s@),
{
    let mut r = String::from_str("'");
    r.append(s);
    r.append("'");
    r
}

/// The values of an item's row.
pub fn myitem_to_dbrow(item: &Item) -> (r: String)
    ensures
        r@ == item_row(*item),
{
    proof { lemma_dt_format(); }
    let mut parts: Vec<String> = Vec::new();
    parts.push(quote(item.Name.as_str()));
    parts.push(string_to_dbrow(&item.Description));
    parts.push(date_to_dbrow(&item.Arrival, DT_FORMAT));
    parts.push(date_to_dbrow(&item.Expiry, DT_FORMAT));
    parts.push(date_to_dbrow(&item.Created, DT_FORMAT));
    let r = join_strings(&parts, ",\n    ");
    assert(views(parts@) =~= seq![
        quoted(item.Name@),
        string_row(item.Description),
        date_row(item.Arrival, DT_FORMAT@),
        date_row(item.Expiry, DT_FORMAT@),
        date_row(item.Created, DT_FORMAT@),
    ]);
    r
}

/// The values of a tag's row.
pub fn mytag_to_dbrow(tag: &Tag) -> (r: String)
    ensures
        r@ == tag_row(tag.Name@, tag.Created),
{
    proof { lemma_dt_format(); }
    let mut parts: Vec<String> = Vec::new();
    parts.push(quote(tag.Name.as_str()));
    parts.push(date_to_dbrow(&tag.Created, DT_FORMAT));
    let r = join_strings(&parts, ",\n    ");
    assert(views(parts@) =~= seq![quoted(tag.Name@), date_row(tag.Created, DT_FORMAT@)]);
    r
}

/// The rows of the items.
pub open spec fn item_rows(items: Seq<Item>) -> Seq<Seq<char>> {
    Seq::new(items.len(), |i: int| item_row(items[i]))
}

/// The statement inserting the items into schema `db_name`.
pub open spec fn items_insert_text(db_name: Seq<char>, items: Seq<Item>) -> Seq<char> {
    "\nINSERT INTO `"@ + db_name
        + "`.`Item` (\n    Name,\n    Description,\n    Arrival,\n    Expiry,\n    Created\n) VALUES (\n    "@
        + join(item_rows(items), "\n), (\n    "@) + "\n);\n        "@
}

/// Inserts the items into schema `db_name`.
pub fn myitems_to_dbinsert(db_name: &str, items: &Vec<Item>) -> (r: String)
    ensures
        r@ == items_insert_text(db_name@, items@),
{
    let mut values: Vec<String> = Vec::new();
    let n = items.len();
    let mut i: usize = 0;
    while i < n
        invariant
            n == items@.len(),
            i <= n,
            views(values@) == item_rows(items@).take(i as int),
        decreases n - i,
    {
        let ghost before = views(values@);
        let row = myitem_to_dbrow(&items[i]);
        values.push(row);
        assert(views(values@) =~= before.push(item_row(items@[i as int])));
        assert(views(values@) =~= item_rows(items@).take(i + 1));
        i = i + 1;
    }
    assert(item_rows(items@).take(n as int) =~= item_rows(items@));
    let mut r = String::from_str("\nINSERT INTO `");
    r.append(db_name);
    r.append(
        "`.`Item` (\n    Name,\n    Description,\n    Arrival,\n    Expiry,\n    Created\n) VALUES (\n    ",
    );
    let v = join_strings(&values, "\n), (\n    ");
    r.append(v.as_str());
    r.append("\n);\n        ");
    r
}

/// The tags of one item, each with the item's creation date.
pub open spec fn item_tag_stream(item: Item) -> Seq<(Seq<char>, Option<CalendarDate>)> {
    Seq::new(item.Tags@.len(), |j: int| (item.Tags@[j]@, item.Created))
}

/// The tags of the items in order, each with its item's creation date.
pub open spec fn mydb_tag_stream(items: Seq<Item>) -> Seq<(Seq<char>, Option<CalendarDate>)>
    decreases items.len(),
{
    if items.len() == 0 {
        Seq::empty()
    } else {
        mydb_tag_stream(items.drop_last()) + item_tag_stream(items.last())
    }
}

/// Item name and tag name of each tag of one item.
pub open spec fn item_pair_stream(item: Item) -> Seq<(Seq<char>, Seq<char>)> {
    Seq::new(item.Tags@.len(), |j: int| (item.Name@, item.Tags@[j]@))
}

/// Item name and tag name of each tag of the items, in order.
pub open spec fn mydb_pair_stream(items: Seq<Item>) -> Seq<(Seq<char>, Seq<char>)>
    decreases items.len(),
{
    if items.len() == 0 {
        Seq::empty()
    } else {
        mydb_pair_stream(items.drop_last()) + item_pair_stream(items.last())
    }
}

/// Each tag name of the items once, in name order, with the creation date
/// of the first item that has it.
pub open spec fn mydb_unique_tags(items: Seq<Item>) -> Seq<(Seq<char>, Option<CalendarDate>)> {
    sorted_first_entries(mydb_tag_stream(items), name_less())
}

/// An item of this module and an item of `myquery` with the same name,
/// creation date and tags.
pub open spec fn same_tagging(a: Item, b: crate::myquery::Item) -> bool {
    &&& a.Name@ == b.Name@
    &&& a.Created == b.Created
    &&& views(a.Tags@) == views(b.Tags@)
}

proof fn lemma_same_streams(a: Seq<Item>, b: Seq<crate::myquery::Item>)
    requires
        a.len() == b.len(),
        forall|i: int| 0 <= i < a.len() ==> same_tagging(#[trigger] a[i], b[i]),
    ensures
        tag_stream(b) == mydb_tag_stream(a),
        tag_pair_stream(b) == mydb_pair_stream(a),
    decreases a.len(),
{
    if a.len() > 0 {
        lemma_same_streams(a.drop_last(), b.drop_last());
        let x = a.last();
        let y = b.last();
        assert(same_tagging(a[a.len() - 1], b[a.len() - 1]));
        assert(views(x.Tags@).len() == x.Tags@.len());
        assert(views(y.Tags@).len() == y.Tags@.len());
        assert forall|j: int| 0 <= j < x.Tags@.len() implies #[trigger] x.Tags@[j]@ == y.Tags@[j]@ by {
            assert(views(x.Tags@)[j] == x.Tags@[j]@);
            assert(views(y.Tags@)[j] == y.Tags@[j]@);
        }
        assert(item_tag_entries(y) =~= item_tag_stream(x));
        assert(item_tag_pairs(y) =~= item_pair_stream(x));
    }
}

fn copy_strings(v: &Vec<String>) -> (r: Vec<String>)
    ensures
        views(r@) == views(v@),
{
    let mut r: Vec<String> = Vec::new();
    let mut i: usize = 0;
    while i < v.len()
        invariant
            i <= v@.len(),
            views(r@) == views(v@).take(i as int),
        decreases v@.len() - i,
    {
        let ghost before = views(r@);
        r.push(v[i].clone());
        assert(views(r@) =~= before.push(v@[i as int]@));
        assert(views(r@) =~= views(v@).take(i + 1));
        i = i + 1;
    }
    assert(views(v@).take(v@.len() as int) =~= views(v@));
    r
}

/// The items with the same names, creation dates and tags, as items of
/// `myquery`.
fn tagging_items(items: &Vec<Item>) -> (r: Vec<crate::myquery::Item>)
    ensures
        tag_stream(r@) == mydb_tag_stream(items@),
        tag_pair_stream(r@) == mydb_pair_stream(items@),
{
    let mut r: Vec<crate::myquery::Item> = Vec::new();
    let n = items.len();
    let mut i: usize = 0;
    while i < n
        invariant
            n == items@.len(),
            i <= n,
            r@.len() == i,
            forall|k: int| 0 <= k < i ==> same_tagging(#[trigger] items@[k], r@[k]),
        decreases n - i,
    {
        let item = &items[i];
        r.push(
            crate::myquery::Item {
                Id: item.Id,
                Name: item.Name.clone(),
                Description: None,
                Arrival: None,
                Expiry: None,
                Created: item.Created,
                Tags: copy_strings(&item.Tags),
                Dates: Vec::new(),
            },
        );
        i = i + 1;
    }
    proof {
        lemma_same_streams(items@, r@);
    }
    r
}

/// The statement inserting each tag of the items once, in name order, into
/// schema `db_name`.
pub open spec fn tags_insert_text(db_name: Seq<char>, items: Seq<Item>) -> Seq<char> {
    let u = mydb_unique_tags(items);
    let rows = Seq::new(u.len(), |i: int| tag_row(u[i].0, u[i].1));
    "\nINSERT IGNORE INTO `"@ + db_name + "`.`Tag` (\n    Name,\n    Created\n) VALUES (\n    "@
        + join(rows, "\n), (\n    "@) + "\n);\n        "@
}

/// Inserts each tag of the items once, in name order, with the creation
/// date of the first item that has it; tags that exist already are kept.
pub fn mytags_to_dbinsert(db_name: &str, items: &Vec<Item>) -> (r: String)
    ensures
        r@ == tags_insert_text(db_name@, items@),
{
    let converted = tagging_items(items);
    let tags = sorted_unique_tags(&converted);
    let ghost u = mydb_unique_tags(items@);
    let ghost rows_spec = Seq::new(u.len(), |i: int| tag_row(u[i].0, u[i].1));
    let mut rows: Vec<String> = Vec::new();
    let n = tags.len();
    let mut i: usize = 0;
    assert(tag_entries(tags@).len() == n);
    while i < n
        invariant
            n == tags@.len(),
            i <= n,
            u == mydb_unique_tags(items@),
            tag_entries(tags@) == u,
            rows_spec == Seq::new(u.len(), |i: int| tag_row(u[i].0, u[i].1)),
            rows_spec.len() == n,
            views(rows@) == rows_spec.take(i as int),
        decreases n - i,
    {
        let ghost before = views(rows@);
        let t = &tags[i];
        let row = mytag_to_dbrow(&Tag { Id: t.Id, Name: t.Name.clone(), Created: t.Created });
        assert(tag_entries(tags@)[i as int] == (tags@[i as int].Name@, tags@[i as int].Created));
        assert(rows_spec[i as int] == row@);
        rows.push(row);
        assert(views(rows@) =~= before.push(row@));
        assert(views(rows@) =~= rows_spec.take(i + 1));
        i = i + 1;
    }
    assert(rows_spec.take(n as int) =~= rows_spec);
    let mut r = String::from_str("\nINSERT IGNORE INTO `");
    r.append(db_name);
    r.append("`.`Tag` (\n    Name,\n    Created\n) VALUES (\n    ");
    let v = join_strings(&rows, "\n), (\n    ");
    r.append(v.as_str());
    r.append("\n);\n        ");
    r
}

/// The item name and tag name of each tag of the items, in order: the links
/// to make between items and tags.
pub fn itemhastag_pairs_of(items: &Vec<Item>) -> (r: Vec<(String, String)>)
    ensures
        r@.len() == mydb_pair_stream(items@).len(),
        forall|k: int|
            0 <= k < r@.len() ==> (#[trigger] r@[k]).0@ == mydb_pair_stream(items@)[k].0 && r@[k].1@
                == mydb_pair_stream(items@)[k].1,
{
    let converted = tagging_items(items);
    itemhastag_pairs(&converted)
}

/// The link statements for every tag of the items, in order, one after the
/// other.
pub open spec fn itemhastag_statements_text(db_name: Seq<char>, items: Seq<Item>) -> Seq<char> {
    let pairs = mydb_pair_stream(items);
    join(Seq::new(pairs.len(), |k: int| link_text(db_name, pairs[k].0, pairs[k].1)), "\n"@)
}

/// Writes one statement per tag of the items that links the item to the
/// tag, the names written into the statements.
pub fn itemhastag_to_dbinsert(db_name: &str, items: &Vec<Item>) -> (r: String)
    ensures
        r@ == itemhastag_statements_text(db_name@, items@),
{
    let converted = tagging_items(items);
    crate::myquery::insert::itemhastag_to_dbinsert(db_name, &converted)
}


/// The tags an insert statement writes hold each tag name of the items once,
/// in name order, each with the creation date of the first item that has
/// that tag.
pub proof fn law_tags_once_in_name_order(items: Seq<Item>)
    ensures
        key_sorted(mydb_unique_tags(items), name_less()),
        forall|x: (Seq<char>, Option<CalendarDate>)|
            #[trigger] mydb_unique_tags(items).contains(x) <==> first_value(
                mydb_tag_stream(items),
                x.0,
            ) == Some(x.1),
{
    lemma_name_less_strict_total();
    lemma_sorted_first_entries(mydb_tag_stream(items), name_less());
}


/// The date of an optional date field of a data file: missing stays
/// missing; a present one must read with this module's `DT_FORMAT`.
pub fn deserialize_optional_naive_date(date_str: Option<&str>) -> (r: Result<
    Option<CalendarDate>,
    DateError,
>)
    ensures
        date_str is None ==> (r matches Ok(v) && v is None),
        date_str matches Some(x) ==> (r is Ok <==> parsed_date(x@, DT_FORMAT@) is Some),
        date_str matches Some(x) ==> (r matches Ok(v) ==> v matches Some(d) && parsed_date(
            x@,
            DT_FORMAT@,
        ) matches Some(t) && d.ymd() == (t.0 as int, t.1 as int, t.2 as int)),
        date_str matches Some(x) ==> forall|y: i32, m: u32, d: u32|
            valid_ymd(y as int, m as int, d as int) && x@ == #[trigger] date_text(
                y as int,
                m as int,
                d as int,
                '_',
            ) ==> (r matches Ok(v) && v matches Some(e) && e.ymd() == (y as int, m as int, d as int)),
{
    proof { lemma_dt_format(); }
    match date_str {
        Some(x) => match CalendarDate::parse(x, DT_FORMAT) {
            Ok(d) => Ok(Some(d)),
            Err(e) => Err(e),
        },
        None => Ok(None),
    }
}

} // verus!
