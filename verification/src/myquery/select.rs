//! The SELECT statement a query stands for.
use vstd::prelude::*;
use vstd::string::StringExecFns;
use crate::text::{decimal, int_text, join, join_strings, piece_count, push_decimal, push_i32, split_on, str_eq, views};
use super::{When, Agg, MAIN_TABLE};

verus! {

/// A search whose column and needle are taken by their text.
pub open spec fn when_view(w: When<(&str, &str)>) -> When<(Seq<char>, Seq<char>)> {
    match w {
        When::Equal((x, y)) => When::Equal((x@, y@)),
        When::Like((x, y)) => When::Like((x@, y@)),
        When::Match((x, y)) => When::Match((x@, y@)),
        When::Approx((x, y)) => When::Approx((x@, y@)),
        When::Less((x, y)) => When::Less((x@, y@)),
        When::Greater((x, y)) => When::Greater((x@, y@)),
        When::AtMost((x, y)) => When::AtMost((x@, y@)),
        When::AtLeast((x, y)) => When::AtLeast((x@, y@)),
        When::Other((x, y)) => When::Other((x@, y@)),
    }
}

/// The searches of a list, taken by their text.
pub open spec fn whens_view(ws: Seq<When<(&str, &str)>>) -> Seq<When<(Seq<char>, Seq<char>)>> {
    Seq::new(ws.len(), |i: int| when_view(ws[i]))
}

/// The comparison a search kind writes after its column; `None` for the
/// kinds that are not supported (fuzzy and other searches).
pub open spec fn search_type(w: When<(Seq<char>, Seq<char>)>) -> Option<Seq<char>> {
    match w {
        When::Equal(_) => Some("REGEXP CONCAT('^', ?, '$')"@),
        When::Like(_) => Some("REGEXP CONCAT('^', ?)"@),
        When::Match(_) => Some("REGEXP (?)"@),
        When::Less(_) => Some("< (?)"@),
        When::Greater(_) => Some("> (?)"@),
        When::AtMost(_) => Some("<= (?)"@),
        When::AtLeast(_) => Some(">= (?)"@),
        When::Approx(_) => None,
        When::Other(_) => None,
    }
}

/// The condition a search writes (with a `?` placeholder) and the needle
/// bound to that placeholder; two empty texts for unsupported kinds.
pub open spec fn haystack_and_needle(w: When<(Seq<char>, Seq<char>)>) -> (Seq<char>, Seq<char>) {
    let (by, needle) = super::when_payload(w);
    match search_type(w) {
        Some(t) => ("`"@ + by + "` "@ + t, needle),
        None => (Seq::empty(), Seq::empty()),
    }
}

/// Each supported search compares the column named in it, with one `?`
/// placeholder, and binds its needle there: equality anchors the pattern at
/// both ends, "like" at the start only, "match" nowhere, and the four
/// orderings compare with `<`, `>`, `<=` and `>=`. Fuzzy and other
/// searches write and bind nothing.
pub proof fn law_search_conditions(c: Seq<char>, n: Seq<char>)
    ensures
        haystack_and_needle(When::Equal((c, n))) == ("`"@ + c + "` "@ + "REGEXP CONCAT('^', ?, '$')"@, n),
        haystack_and_needle(When::Like((c, n))) == ("`"@ + c + "` "@ + "REGEXP CONCAT('^', ?)"@, n),
        haystack_and_needle(When::Match((c, n))) == ("`"@ + c + "` "@ + "REGEXP (?)"@, n),
        haystack_and_needle(When::Less((c, n))) == ("`"@ + c + "` "@ + "< (?)"@, n),
        haystack_and_needle(When::Greater((c, n))) == ("`"@ + c + "` "@ + "> (?)"@, n),
        haystack_and_needle(When::AtMost((c, n))) == ("`"@ + c + "` "@ + "<= (?)"@, n),
        haystack_and_needle(When::AtLeast((c, n))) == ("`"@ + c + "` "@ + ">= (?)"@, n),
        haystack_and_needle(When::Approx((c, n))) == (Seq::<char>::empty(), Seq::<char>::empty()),
        haystack_and_needle(When::Other((c, n))) == (Seq::<char>::empty(), Seq::<char>::empty()),
{
}

fn haystack_text(by: &str, search: &str) -> (r: String)
    ensures
        r@ == "`"@ + by@ + "` "@ + search@,
{
    let mut h = String::from_str("`");
    h.append(by);
    h.append("` ");
    h.append(search);
    h
}

/// The condition and the needle of one search.
pub fn get_haystack_and_needle(when: When<(&str, &str)>) -> (r: (String, String))
    ensures
        r.0@ == haystack_and_needle(when_view(when)).0,
        r.1@ == haystack_and_needle(when_view(when)).1,
{
    match when {
        When::Equal((x, y)) => (haystack_text(x, "REGEXP CONCAT('^', ?, '$')"), String::from_str(y)),
        When::Like((x, y)) => (haystack_text(x, "REGEXP CONCAT('^', ?)"), String::from_str(y)),
        When::Match((x, y)) => (haystack_text(x, "REGEXP (?)"), String::from_str(y)),
        When::Less((x, y)) => (haystack_text(x, "< (?)"), String::from_str(y)),
        When::Greater((x, y)) => (haystack_text(x, "> (?)"), String::from_str(y)),
        When::AtMost((x, y)) => (haystack_text(x, "<= (?)"), String::from_str(y)),
        When::AtLeast((x, y)) => (haystack_text(x, ">= (?)"), String::from_str(y)),
        When::Approx(_) => (String::new(), String::new()),
        When::Other(_) => (String::new(), String::new()),
    }
}

/// The list of ids, written as `to_string` writes them and separated by ", ".
pub open spec fn ids_text(ids: Seq<i32>) -> Seq<char>
    decreases ids.len(),
{
    if ids.len() == 0 {
        Seq::empty()
    } else if ids.len() == 1 {
        int_text(ids[0] as int)
    } else {
        ids_text(ids.drop_last()) + ", "@ + int_text(ids.last() as int)
    }
}

/// Writes the ids separated by ", ".
pub fn ids_join(ids: &Vec<i32>) -> (r: String)
    ensures
        r@ == ids_text(ids@),
{
    let mut r = String::new();
    let n = ids.len();
    let mut i: usize = 0;
    while i < n
        invariant
            n == ids@.len(),
            i <= n,
            r@ == ids_text(ids@.take(i as int)),
        decreases n - i,
    {
        assert(ids@.take(i + 1).drop_last() =~= ids@.take(i as int));
        if i > 0 {
            r.append(", ");
        } else {
            assert(r@ =~= Seq::<char>::empty());
        }
        let ghost before = r@;
        push_i32(&mut r, ids[i]);
        assert(r@ =~= ids_text(ids@.take(i + 1)));
        i = i + 1;
    }
    assert(ids@.take(n as int) =~= ids@);
    r
}

/// The table a query reads: `to`, or `from` when `to` is empty.
pub open spec fn target_table(from: Seq<char>, to: Seq<char>) -> Seq<char> {
    if to.len() == 0 { from } else { to }
}

/// The FROM part, the WHERE part and the column counted for intersections,
/// before any ids are excluded; `None` when neither table is the main table.
pub open spec fn base_query(from: Seq<char>, to: Seq<char>, haystack: Seq<char>) -> Option<
    (Seq<char>, Seq<char>, Seq<char>),
> {
    let t = target_table(from, to);
    if t == from {
        Some(("`"@ + t + "`"@, haystack, "`id`"@))
    } else if from == MAIN_TABLE@ || t == MAIN_TABLE@ {
        let other = if from == MAIN_TABLE@ { t } else { from };
        Some(
            (
                "`"@ + t + "` LEFT JOIN `item_has_"@ + other + "` ON `Id` = `"@ + t + "_Id`"@,
                "`"@ + from + "_Id` in (SELECT `Id` FROM `"@ + from + "` WHERE "@ + haystack + ")"@,
                "`"@ + from + "_Id`"@,
            ),
        )
    } else {
        None
    }
}

/// The three parts of a query; a non-empty list of ids to exclude adds a
/// `not in` condition to the WHERE part, and its third part is then the
/// WHERE part as it was before.
pub open spec fn query_parts(
    from: Seq<char>,
    to: Seq<char>,
    haystack: Seq<char>,
    minus: Option<Seq<i32>>,
) -> Option<(Seq<char>, Seq<char>, Seq<char>)> {
    match base_query(from, to, haystack) {
        None => None,
        Some(q) => match minus {
            Some(ids) => if ids.len() > 0 {
                Some(
                    (
                        q.0,
                        q.1 + " and `"@ + target_table(from, to) + "_Id` not in ("@ + ids_text(ids)
                            + ")"@,
                        q.1,
                    ),
                )
            } else {
                Some(q)
            },
            None => Some(q),
        },
    }
}

/// The ids an optional list holds.
pub open spec fn minus_view(minus: Option<&Vec<i32>>) -> Option<Seq<i32>> {
    match minus {
        Some(v) => Some(v@),
        None => None,
    }
}


/// The FROM part, the WHERE part and the column counted for intersections
/// of a query from table `from` for rows of table `to`.
pub fn new_query_str(
    from: &str,
    to: &str,
    haystack: String,
    minus: Option<&Vec<i32>>,
) -> (r: Option<(String, String, String)>)
    ensures
        r is Some <==> query_parts(from@, to@, haystack@, minus_view(minus)) is Some,
        r matches Some(q) ==> query_parts(from@, to@, haystack@, minus_view(minus)) == Some(
            (q.0@, q.1@, q.2@),
        ),
{
    let to = if to.is_empty() { from } else { to };
    let query: (String, String, String) = if str_eq(to, from) {
        let mut f = String::from_str("`");
        f.append(to);
        f.append("`");
        (f, haystack, String::from_str("`id`"))
    } else {
        let from_is_main = str_eq(from, MAIN_TABLE);
        let other_table: &str = if from_is_main {
            to
        } else if str_eq(to, MAIN_TABLE) {
            from
        } else {
            return None;
        };
        let mut f = String::from_str("`");
        f.append(to);
        f.append("` LEFT JOIN `item_has_");
        f.append(other_table);
        f.append("` ON `Id` = `");
        f.append(to);
        f.append("_Id`");
        let mut w = String::from_str("`");
        w.append(from);
        w.append("_Id` in (SELECT `Id` FROM `");
        w.append(from);
        w.append("` WHERE ");
        w.append(haystack.as_str());
        w.append(")");
        let mut c = String::from_str("`");
        c.append(from);
        c.append("_Id`");
        (f, w, c)
    };
    match minus {
        Some(exclude_ids) => {
            if exclude_ids.len() > 0 {
                let ids = ids_join(exclude_ids);
                let mut w = query.1.clone();
                w.append(" and `");
                w.append(to);
                w.append("_Id` not in (");
                w.append(ids.as_str());
                w.append(")");
                Some((query.0, w, query.1))
            } else {
                Some(query)
            }
        },
        None => Some(query),
    }
}


/// A statement to run: its SQL text and the values bound, in order, to its
/// `?` placeholders.
pub struct Statement {
    pub sql: String,
    pub binds: Vec<String>,
}

/// The SQL text and the bound values of an optional statement.
pub open spec fn statement_view(r: Option<Statement>) -> Option<(Seq<char>, Seq<Seq<char>>)> {
    match r {
        Some(st) => Some((st.sql@, views(st.binds@))),
        None => None,
    }
}

/// The SQL text and the bound values of the statement that selects columns
/// `col` of table `to` through the searches `ws` from table `from`; `None`
/// when neither table is the main table.
pub open spec fn statement_text(
    col: Seq<char>,
    to: Seq<char>,
    from: Seq<char>,
    ws: Seq<When<(Seq<char>, Seq<char>)>>,
    minus: Option<Seq<i32>>,
    aggregate: Agg,
) -> Option<(Seq<char>, Seq<Seq<char>>)> {
    match select_sql(col, to, from, ws, minus, aggregate) {
        Some(sql) => Some((sql, whens_needles(ws))),
        None => None,
    }
}

/// The conditions of the searches.
pub open spec fn whens_haystacks(ws: Seq<When<(Seq<char>, Seq<char>)>>) -> Seq<Seq<char>> {
    Seq::new(ws.len(), |i: int| haystack_and_needle(ws[i]).0)
}

/// The needles of the searches.
pub open spec fn whens_needles(ws: Seq<When<(Seq<char>, Seq<char>)>>) -> Seq<Seq<char>> {
    Seq::new(ws.len(), |i: int| haystack_and_needle(ws[i]).1)
}

/// How many '|'-separated pieces the needles hold together.
pub open spec fn needle_piece_total(ns: Seq<Seq<char>>) -> nat
    decreases ns.len(),
{
    if ns.len() == 0 {
        0
    } else {
        needle_piece_total(ns.drop_last()) + split_on(ns.last(), '|').len()
    }
}

/// A prefix of the needles holds no more pieces than all of them.
pub proof fn lemma_needle_piece_total_prefix(ns: Seq<Seq<char>>, i: int)
    requires
        0 <= i <= ns.len(),
    ensures
        needle_piece_total(ns.take(i)) <= needle_piece_total(ns),
    decreases ns.len() - i,
{
    if i < ns.len() {
        lemma_needle_piece_total_prefix(ns, i + 1);
        assert(ns.take(i + 1).drop_last() =~= ns.take(i));
    } else {
        assert(ns.take(i) =~= ns);
    }
}

/// The grouping condition: none for a union; for an intersection, that the
/// counted column takes as many distinct values as there are needle pieces.
pub open spec fn having_text(aggregate: Agg, countby: Seq<char>, n: nat) -> Seq<char> {
    match aggregate {
        Agg::Union => Seq::empty(),
        Agg::Intersect => " HAVING COUNT(DISTINCT "@ + countby + ") = "@ + decimal(n),
    }
}

/// The SELECT statement for rows of table `to`, columns `col`, reached from
/// table `from` through the searches `ws` combined with AND.
pub open spec fn select_sql(
    col: Seq<char>,
    to: Seq<char>,
    from: Seq<char>,
    ws: Seq<When<(Seq<char>, Seq<char>)>>,
    minus: Option<Seq<i32>>,
    aggregate: Agg,
) -> Option<Seq<char>> {
    match query_parts(from, to, join(whens_haystacks(ws), " AND "@), minus) {
        None => None,
        Some(q) => Some(
            "SELECT "@ + col + " FROM `"@ + to + "` WHERE `Id` IN (\n    SELECT `Id`\n    FROM\n        "@
                + q.0 + "\n    WHERE\n        "@ + q.1 + "\n    GROUP BY\n        `Id`"@
                + having_text(aggregate, q.2, needle_piece_total(whens_needles(ws)))
                + "\n)\nORDER BY `Id`;"@,
        ),
    }
}

/// The statement that selects columns `col` of the rows of table `to` that
/// the searches find from table `from`, without the excluded ids; `None`
/// when neither table is the main table.
pub fn select_statement(
    col: &str,
    to: &str,
    from: &str,
    when: &Vec<When<(&str, &str)>>,
    minus: Option<&Vec<i32>>,
    aggregate: Agg,
) -> (r: Option<Statement>)
    requires
        needle_piece_total(whens_needles(whens_view(when@))) <= usize::MAX,
    ensures
        r is Some <==> select_sql(col@, to@, from@, whens_view(when@), minus_view(minus), aggregate) is Some,
        r matches Some(st) ==> select_sql(col@, to@, from@, whens_view(when@), minus_view(minus), aggregate)
            == Some(st.sql@) && views(st.binds@) == whens_needles(whens_view(when@)),
        statement_view(r) == statement_text(col@, to@, from@, whens_view(when@), minus_view(minus), aggregate),
{
    let n = when.len();
    let mut haystacks: Vec<String> = Vec::new();
    let mut needles: Vec<String> = Vec::new();
    let mut count: usize = 0;
    let mut i: usize = 0;
    while i < n
        invariant
            n == when@.len(),
            i <= n,
            needle_piece_total(whens_needles(whens_view(when@))) <= usize::MAX,
            views(haystacks@) == whens_haystacks(whens_view(when@).take(i as int)),
            views(needles@) == whens_needles(whens_view(when@).take(i as int)),
            count == needle_piece_total(whens_needles(whens_view(when@).take(i as int))),
        decreases n - i,
    {
        let (h, nd) = get_haystack_and_needle(when[i]);
        let k = piece_count(nd.as_str(), '|');
        proof {
            assert(whens_needles(whens_view(when@).take(i + 1)) =~= whens_needles(whens_view(when@)).take(i + 1));
            assert(whens_needles(whens_view(when@).take(i + 1)).drop_last() =~= whens_needles(
                whens_view(when@).take(i as int),
            ));
            lemma_needle_piece_total_prefix(whens_needles(whens_view(when@)), i + 1);
        }
        count = count + k;
        let ghost hb = views(haystacks@);
        let ghost nb = views(needles@);
        haystacks.push(h);
        needles.push(nd);
        assert(views(haystacks@) =~= hb.push(h@));
        assert(views(needles@) =~= nb.push(nd@));
        assert(whens_view(when@).take(i + 1)[i as int] == when_view(when@[i as int]));
        assert(views(haystacks@) =~= whens_haystacks(whens_view(when@).take(i + 1)));
        assert(views(needles@) =~= whens_needles(whens_view(when@).take(i + 1)));
        i = i + 1;
    }
    assert(whens_view(when@).take(n as int) =~= whens_view(when@));
    let haystack = join_strings(&haystacks, " AND ");
    match new_query_str(from, to, haystack, minus) {
        Some((from_clause, where_clause, countby_col)) => {
            let mut sql = String::from_str("SELECT ");
            sql.append(col);
            sql.append(" FROM `");
            sql.append(to);
            sql.append("` WHERE `Id` IN (\n    SELECT `Id`\n    FROM\n        ");
            sql.append(from_clause.as_str());
            sql.append("\n    WHERE\n        ");
            sql.append(where_clause.as_str());
            sql.append("\n    GROUP BY\n        `Id`");
            match aggregate {
                Agg::Union => {
                    assert(sql@ + having_text(aggregate, countby_col@, count as nat) =~= sql@);
                },
                Agg::Intersect => {
                    sql.append(" HAVING COUNT(DISTINCT ");
                    sql.append(countby_col.as_str());
                    sql.append(") = ");
                    push_decimal(&mut sql, count as u64);
                },
            }
            sql.append("\n)\nORDER BY `Id`;");
            Some(Statement { sql, binds: needles })
        },
        None => None,
    }
}


/// A query that stays in one table (no target, or the target is the table
/// searched from) reads that table directly, whatever its name: FROM the
/// table, WHERE the haystack, counting by `id`.
pub proof fn law_single_table_query(from: Seq<char>, to: Seq<char>, haystack: Seq<char>)
    requires
        to.len() == 0 || to == from,
    ensures
        query_parts(from, to, haystack, None) == Some(("`"@ + from + "`"@, haystack, "`id`"@)),
{
}

/// Only a query across two different tables, neither of them `item`, has
/// no statement.
pub proof fn law_no_query_only_between_two_side_tables(
    from: Seq<char>,
    to: Seq<char>,
    haystack: Seq<char>,
    minus: Option<Seq<i32>>,
)
    ensures
        query_parts(from, to, haystack, minus) is None <==> (to.len() > 0 && to != from && from
            != "item"@ && to != "item"@),
{
    reveal_strlit("item");
    assert(MAIN_TABLE@ == "item"@);
}

/// A query across two tables, one of them `item`, reads the target table
/// joined with the link table of the other one, and keeps the rows linked to
/// a row of the table searched from that meets the haystack, counting by
/// that row's id.
pub proof fn law_join_through_link_table(from: Seq<char>, to: Seq<char>, haystack: Seq<char>)
    requires
        to.len() > 0,
        to != from,
        from == "item"@ || to == "item"@,
    ensures
        query_parts(from, to, haystack, None) == Some(
            (
                "`"@ + to + "` LEFT JOIN `item_has_"@ + (if from == "item"@ { to } else { from })
                    + "` ON `Id` = `"@ + to + "_Id`"@,
                "`"@ + from + "_Id` in (SELECT `Id` FROM `"@ + from + "` WHERE "@ + haystack + ")"@,
                "`"@ + from + "_Id`"@,
            ),
        ),
{
    reveal_strlit("item");
    assert(MAIN_TABLE@ == "item"@);
}

/// Excluding a non-empty list of ids filters the table whose rows are
/// returned (the target, or the table searched from when there is no
/// target) and changes nothing else.
pub proof fn law_exclusion_on_returned_table(
    from: Seq<char>,
    to: Seq<char>,
    haystack: Seq<char>,
    ids: Seq<i32>,
)
    requires
        ids.len() > 0,
        query_parts(from, to, haystack, None) is Some,
    ensures
        query_parts(from, to, haystack, Some(ids)) == Some(
            (
                query_parts(from, to, haystack, None).unwrap().0,
                query_parts(from, to, haystack, None).unwrap().1 + " and `"@ + (if to.len() == 0 {
                    from
                } else {
                    to
                }) + "_Id` not in ("@ + ids_text(ids) + ")"@,
                query_parts(from, to, haystack, None).unwrap().1,
            ),
        ),
{
}

/// Excluding an empty list of ids is the same as excluding none.
pub proof fn law_empty_minus_excludes_nothing(
    from: Seq<char>,
    to: Seq<char>,
    haystack: Seq<char>,
)
    ensures
        query_parts(from, to, haystack, Some(Seq::<i32>::empty())) == query_parts(
            from,
            to,
            haystack,
            None,
        ),
{
}

/// Excluding ids keeps the tables and adds a `not in` condition to the
/// WHERE part; whether there is a query at all does not change.
pub proof fn law_minus_adds_condition(
    from: Seq<char>,
    to: Seq<char>,
    haystack: Seq<char>,
    ids: Seq<i32>,
)
    requires
        ids.len() > 0,
    ensures
        query_parts(from, to, haystack, Some(ids)) is Some <==> query_parts(
            from,
            to,
            haystack,
            None,
        ) is Some,
        query_parts(from, to, haystack, None) matches Some(q) ==> query_parts(
            from,
            to,
            haystack,
            Some(ids),
        ) == Some(
            (
                q.0,
                q.1 + " and `"@ + target_table(from, to) + "_Id` not in ("@ + ids_text(ids) + ")"@,
                q.1,
            ),
        ),
{
}

/// A union and an intersection over the same searches are both queries or
/// both not, and their statements differ only in the grouping condition.
pub proof fn law_union_and_intersection(
    col: Seq<char>,
    to: Seq<char>,
    from: Seq<char>,
    ws: Seq<When<(Seq<char>, Seq<char>)>>,
    minus: Option<Seq<i32>>,
)
    ensures
        select_sql(col, to, from, ws, minus, Agg::Union) is Some <==> select_sql(
            col,
            to,
            from,
            ws,
            minus,
            Agg::Intersect,
        ) is Some,
        query_parts(from, to, join(whens_haystacks(ws), " AND "@), minus) matches Some(q) ==> {
            let head = "SELECT "@ + col + " FROM `"@ + to
                + "` WHERE `Id` IN (\n    SELECT `Id`\n    FROM\n        "@ + q.0
                + "\n    WHERE\n        "@ + q.1 + "\n    GROUP BY\n        `Id`"@;
            let tail = "\n)\nORDER BY `Id`;"@;
            &&& select_sql(col, to, from, ws, minus, Agg::Union) == Some(head + tail)
            &&& select_sql(col, to, from, ws, minus, Agg::Intersect) == Some(
                head + " HAVING COUNT(DISTINCT "@ + q.2 + ") = "@ + decimal(
                    needle_piece_total(whens_needles(ws)),
                ) + tail,
            )
        },
{
    if query_parts(from, to, join(whens_haystacks(ws), " AND "@), minus) is Some {
        let q = query_parts(from, to, join(whens_haystacks(ws), " AND "@), minus).unwrap();
        let head = "SELECT "@ + col + " FROM `"@ + to
            + "` WHERE `Id` IN (\n    SELECT `Id`\n    FROM\n        "@ + q.0
            + "\n    WHERE\n        "@ + q.1 + "\n    GROUP BY\n        `Id`"@;
        assert(head + Seq::<char>::empty() =~= head);
    }
}

} // verus!
