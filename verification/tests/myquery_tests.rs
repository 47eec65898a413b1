use itemdb::calendar::CalendarDate;
use itemdb::myquery::{
    complete_item, copy_whens, deserialize_naive_date, deserialize_naive_date_vec,
    deserialize_optional_naive_date, get_haystack_and_needle, get_zip, item_dates_statement,
    item_tags_statement, needle_pieces_fit, new_query_str, select_statement, Agg, Date, Id, Item,
    MySqlMarshal, Query, QueryBuilder, Tag, When, DB, DT_FORMAT, MAIN_TABLE,
};

fn day(y: i32, m: u32, d: u32) -> CalendarDate {
    CalendarDate::new(y, m, d).unwrap()
}

fn select(from_clause: &str, where_clause: &str, having: &str, col: &str, to: &str) -> String {
    format!(
        "SELECT {col} FROM `{to}` WHERE `Id` IN (\n    SELECT `Id`\n    FROM\n        {from_clause}\n    WHERE\n        {where_clause}\n    GROUP BY\n        `Id`{having}\n)\nORDER BY `Id`;"
    )
}

fn item(name: &str, created: Option<CalendarDate>, tags: &[&str], dates: Vec<CalendarDate>) -> Item {
    Item {
        Id: 0,
        Name: name.to_string(),
        Description: None,
        Arrival: None,
        Expiry: None,
        Created: created,
        Tags: tags.iter().map(|t| t.to_string()).collect(),
        Dates: dates,
    }
}

#[test]
fn constants_name_the_schema() {
    assert_eq!(MAIN_TABLE, "item");
    assert_eq!(DB, "mydb");
    assert_eq!(DT_FORMAT, "%Y-%m-%d");
}

#[test]
fn haystack_and_needle_of_each_search_kind() {
    let cases = [
        (When::Equal(("name", "x")), "`name` REGEXP CONCAT('^', ?, '$')"),
        (When::Like(("name", "x")), "`name` REGEXP CONCAT('^', ?)"),
        (When::Match(("name", "x")), "`name` REGEXP (?)"),
        (When::Less(("date", "x")), "`date` < (?)"),
        (When::Greater(("date", "x")), "`date` > (?)"),
        (When::AtMost(("date", "x")), "`date` <= (?)"),
        (When::AtLeast(("date", "x")), "`date` >= (?)"),
    ];
    for (when, haystack) in cases {
        assert_eq!(get_haystack_and_needle(when), (haystack.to_string(), "x".to_string()));
    }
    assert_eq!(get_haystack_and_needle(When::Approx(("name", "x"))), (String::new(), String::new()));
    assert_eq!(get_haystack_and_needle(When::Other(("name", "x"))), (String::new(), String::new()));
}

#[test]
fn into_when_keeps_the_kind() {
    assert_eq!(When::Like(("name", "x")).into_when(5), When::Like(5));
    assert_eq!(When::Other(1).into_when("a"), When::Other("a"));
    assert_eq!(When::AtLeast(()).into_when(vec![1, 2]), When::AtLeast(vec![1, 2]));
}

#[test]
fn defaults_are_empty_equal_searches() {
    assert_eq!(When::<&str>::default(), When::Equal(""));
    assert_eq!(When::<(&str, &str)>::default(), When::Equal(("", "")));
}

#[test]
fn new_query_str_on_one_table() {
    let r = new_query_str("item", "", "`name` REGEXP (?)".to_string(), None);
    assert_eq!(
        r,
        Some(("`item`".to_string(), "`name` REGEXP (?)".to_string(), "`id`".to_string()))
    );
}

#[test]
fn new_query_str_through_the_link_table() {
    let r = new_query_str("tag", "item", "H".to_string(), None);
    assert_eq!(
        r,
        Some((
            "`item` LEFT JOIN `item_has_tag` ON `Id` = `item_Id`".to_string(),
            "`tag_Id` in (SELECT `Id` FROM `tag` WHERE H)".to_string(),
            "`tag_Id`".to_string(),
        ))
    );
    let r = new_query_str("item", "date", "H".to_string(), None);
    assert_eq!(
        r,
        Some((
            "`date` LEFT JOIN `item_has_date` ON `Id` = `date_Id`".to_string(),
            "`item_Id` in (SELECT `Id` FROM `item` WHERE H)".to_string(),
            "`item_Id`".to_string(),
        ))
    );
}

#[test]
fn new_query_str_without_the_main_table_fails() {
    assert_eq!(new_query_str("tag", "date", "H".to_string(), None), None);
}

#[test]
fn new_query_str_excludes_ids() {
    let minus = vec![2, -4];
    let r = new_query_str("item", "item", "H".to_string(), Some(&minus));
    assert_eq!(
        r,
        Some(("`item`".to_string(), "H and `item_Id` not in (2, -4)".to_string(), "H".to_string()))
    );
    let none: Vec<i32> = vec![];
    let r = new_query_str("item", "item", "H".to_string(), Some(&none));
    assert_eq!(r, Some(("`item`".to_string(), "H".to_string(), "`id`".to_string())));
}

#[test]
fn builder_starts_from_the_defaults() {
    let pool = ();
    let b = Query::builder(&pool);
    assert_eq!(b.from, "");
    assert_eq!(b.when, vec![When::Equal(("", ""))]);
    assert!(b.minus.is_none());
    assert_eq!(b.aggregate, Agg::Union);
    let b = QueryBuilder::new(&pool);
    assert_eq!(b.when, vec![When::Equal(("", ""))]);
    assert_eq!(QueryBuilder::<()>::DEFAULT_STR, "");
}

#[test]
fn builder_sets_each_setting() {
    let pool = ();
    let other = ();
    let when = vec![When::Match(("name", "a|b"))];
    let minus = vec![3];
    let mut b = Query::builder(&pool);
    b.pool(&other).from("tag").when(&when).minus(Some(&minus)).aggregate(Agg::Intersect);
    let q = b.build();
    assert!(std::ptr::eq(q.pool, &other));
    assert_eq!(q.from, "tag");
    assert_eq!(q.when, when);
    assert_eq!(q.minus, Some(&minus));
    assert_eq!(q.aggregate, Agg::Intersect);
    assert_eq!(copy_whens(&when), when);
}

/// Items by tag name, some ids left out: the statement and the value bound.
#[test]
fn test_000_items_by_tagname_succeeds() {
    let pool = ();
    let minus: Vec<i32> = vec![2, 4];
    let when = vec![When::Equal(("name", "finance"))];
    let mut b = Query::builder(&pool);
    b.from("tag").when(&when).minus(Some(&minus));
    let st = b.build().to_statement::<Item>().unwrap();
    assert_eq!(
        st.sql,
        select(
            "`item` LEFT JOIN `item_has_tag` ON `Id` = `item_Id`",
            "`tag_Id` in (SELECT `Id` FROM `tag` WHERE `name` REGEXP CONCAT('^', ?, '$')) and `item_Id` not in (2, 4)",
            "",
            "*",
            "item",
        )
    );
    assert_eq!(st.binds, vec!["finance".to_string()]);
}

/// Items with all the tags of a pattern: the statement counts the pattern's pieces.
#[test]
fn test_001_items_by_tagname_intersect_succeeds() {
    let pool = ();
    let when = vec![When::Match(("name", "auto|claim"))];
    let mut b = Query::builder(&pool);
    b.from("tag").when(&when).aggregate(Agg::Intersect);
    let st = b.build().to_statement::<Item>().unwrap();
    assert_eq!(
        st.sql,
        select(
            "`item` LEFT JOIN `item_has_tag` ON `Id` = `item_Id`",
            "`tag_Id` in (SELECT `Id` FROM `tag` WHERE `name` REGEXP (?))",
            " HAVING COUNT(DISTINCT `tag_Id`) = 2",
            "*",
            "item",
        )
    );
    assert_eq!(st.binds, vec!["auto|claim".to_string()]);
}

/// Items by name, in three steps: equal, starting with, matching.
#[test]
fn test_002_three_tiered_search_items_by_name_succeeds() {
    let pool = ();
    for needle in ["est uan sin ter", "uan sin ter ius"] {
        let when = vec![
            When::Equal(("name", needle)),
            When::Like(("name", needle)),
            When::Match(("name", needle)),
        ];
        let mut b = Query::builder(&pool);
        b.from("item").when(&when);
        let q = b.build();
        let searches = [
            "`name` REGEXP CONCAT('^', ?, '$')",
            "`name` REGEXP CONCAT('^', ?)",
            "`name` REGEXP (?)",
        ];
        for (tier, search) in when.iter().zip(searches) {
            let st = q.results_statement::<Item>(&vec![*tier], None).unwrap();
            assert_eq!(st.sql, select("`item`", search, "", "*", "item"));
            assert_eq!(st.binds, vec![needle.to_string()]);
        }
    }
}

/// Items with a date after a given day: the day reads as written, and the statement.
#[test]
fn test_003_date_lower_bound() {
    let lower = "2022-12-31";
    assert_eq!(deserialize_naive_date(Some(lower)).unwrap(), day(2022, 12, 31));
    let pool = ();
    let when = vec![When::Greater(("date", lower))];
    let mut b = Query::builder(&pool);
    b.from("date").when(&when);
    let st = b.build().to_statement::<Item>().unwrap();
    assert_eq!(
        st.sql,
        select(
            "`item` LEFT JOIN `item_has_date` ON `Id` = `item_Id`",
            "`date_Id` in (SELECT `Id` FROM `date` WHERE `date` > (?))",
            "",
            "*",
            "item",
        )
    );
    assert_eq!(st.binds, vec![lower.to_string()]);
}

#[test]
fn statement_joins_searches_with_and() {
    let when = vec![When::Match(("name", "a|b|c")), When::AtLeast(("name", "m"))];
    let st = select_statement("`Id`", "item", "item", &when, None, Agg::Intersect).unwrap();
    assert_eq!(
        st.sql,
        select("`item`", "`name` REGEXP (?) AND `name` >= (?)", " HAVING COUNT(DISTINCT `id`) = 4", "`Id`", "item")
    );
    assert_eq!(st.binds, vec!["a|b|c".to_string(), "m".to_string()]);
}

#[test]
fn statement_fails_without_the_main_table() {
    let when = vec![When::Equal(("name", "x"))];
    assert!(select_statement("*", "date", "tag", &when, None, Agg::Union).is_none());
}

#[test]
fn intersection_counts_against_the_old_where_part_after_excluding() {
    let pool = ();
    let when = vec![When::Match(("name", "x|y"))];
    let minus = vec![9];
    let mut b = Query::builder(&pool);
    b.from("item").when(&when).minus(Some(&minus)).aggregate(Agg::Intersect);
    let st = b.build().to_statement::<Tag>().unwrap();
    assert_eq!(
        st.sql,
        select(
            "`tag` LEFT JOIN `item_has_tag` ON `Id` = `tag_Id`",
            "`item_Id` in (SELECT `Id` FROM `item` WHERE `name` REGEXP (?)) and `tag_Id` not in (9)",
            " HAVING COUNT(DISTINCT `item_Id` in (SELECT `Id` FROM `item` WHERE `name` REGEXP (?))) = 2",
            "*",
            "tag",
        )
    );
}

#[test]
fn needle_pieces_fit_for_ordinary_needles() {
    assert!(needle_pieces_fit(&vec![When::Match(("name", "a|b")), When::Equal(("id", "3"))]));
    assert!(needle_pieces_fit(&vec![]));
}

#[test]
fn record_types_name_their_tables() {
    assert_eq!(<Item as MySqlMarshal>::table_name(), "item");
    assert_eq!(<Tag as MySqlMarshal>::table_name(), "tag");
    assert_eq!(<Date as MySqlMarshal>::table_name(), "date");
    assert_eq!(<i32 as MySqlMarshal>::table_name(), "");
    assert_eq!(<Id<Tag> as MySqlMarshal>::table_name(), "tag");
    assert_eq!(<Item as MySqlMarshal>::col_name(), "*");
    assert_eq!(<i32 as MySqlMarshal>::col_name(), "`Id`");
    assert_eq!(<Id<Item> as MySqlMarshal>::col_name(), "`Id`");
    assert_eq!(7i32.id(), 7);
    assert_eq!(Id::<Item>::new(12).get(), 12);
    assert_eq!(Id::<Date>::new(-3).id(), -3);
    let d = Date { Id: 4, Date: day(2023, 1, 5) };
    assert_eq!(d.id(), 4);
}

#[test]
fn item_statements_search_by_id() {
    let st = item_tags_statement(7);
    assert_eq!(
        st.sql,
        select(
            "`tag` LEFT JOIN `item_has_tag` ON `Id` = `tag_Id`",
            "`item_Id` in (SELECT `Id` FROM `item` WHERE `id` REGEXP CONCAT('^', ?, '$'))",
            "",
            "*",
            "tag",
        )
    );
    assert_eq!(st.binds, vec!["7".to_string()]);
    let st = item_dates_statement(-12);
    assert_eq!(
        st.sql,
        select(
            "`date` LEFT JOIN `item_has_date` ON `Id` = `date_Id`",
            "`item_Id` in (SELECT `Id` FROM `item` WHERE `id` REGEXP CONCAT('^', ?, '$'))",
            "",
            "*",
            "date",
        )
    );
    assert_eq!(st.binds, vec!["-12".to_string()]);
}

#[test]
fn complete_item_sets_tags_and_dates() {
    let mut base = item("Finance Statement 01", Some(day(2022, 12, 31)), &["old"], vec![day(2000, 1, 1)]);
    base.Id = 3;
    base.Description = Some("Bank".to_string());
    let tags = vec![
        Tag { Id: 1, Name: "finance".to_string(), Created: None },
        Tag { Id: 2, Name: "bank".to_string(), Created: None },
    ];
    let dates = vec![Date { Id: 5, Date: day(2023, 1, 5) }];
    let done = complete_item(base.clone(), &tags, &dates);
    let expected = Item {
        Tags: vec!["finance".to_string(), "bank".to_string()],
        Dates: vec![day(2023, 1, 5)],
        ..base
    };
    assert_eq!(done, expected);
}

#[test]
fn get_zip_pairs_up_to_the_shorter() {
    assert_eq!(get_zip(vec![1, 2, 3], vec![4, 5]), vec![(1, 4), (2, 5)]);
    assert_eq!(get_zip(vec![1], vec![4, 5]), vec![(1, 4)]);
    assert_eq!(get_zip(Vec::<i32>::new(), vec![4]), vec![]);
}

#[test]
fn deserialize_naive_date_cases() {
    assert_eq!(deserialize_naive_date(None).unwrap(), day(1970, 1, 1));
    assert_eq!(deserialize_naive_date(Some("2023-01-05")).unwrap(), day(2023, 1, 5));
    assert!(deserialize_naive_date(Some("2023_01_05")).is_err());
}

#[test]
fn deserialize_optional_naive_date_cases() {
    assert_eq!(deserialize_optional_naive_date(None).unwrap(), None);
    assert_eq!(deserialize_optional_naive_date(Some("2023-01-05")).unwrap(), Some(day(2023, 1, 5)));
    assert!(deserialize_optional_naive_date(Some("not a date")).is_err());
}

#[test]
fn deserialize_naive_date_vec_drops_bad_dates() {
    assert_eq!(deserialize_naive_date_vec(None), vec![]);
    assert_eq!(
        deserialize_naive_date_vec(Some(vec!["2023-01-05", "bad", "2022-02-30", "1999-12-31"])),
        vec![day(2023, 1, 5), day(1999, 12, 31)]
    );
}

#[test]
fn items_from_a_data_file_keep_their_order() {
    let root = itemdb::myquery::DbRoot {
        Items: vec![item("a", None, &[], vec![]), item("b", None, &[], vec![])],
    };
    assert_eq!(root.Items.len(), 2);
    assert_eq!(root.Items[1].Name, "b");
}

#[test]
fn builder_keeps_the_last_value_set() {
    let pool = ();
    let first = vec![When::Equal(("name", "a")), When::Like(("name", "b"))];
    let second = vec![When::Match(("name", "c"))];
    let minus = vec![1];
    let mut b = Query::builder(&pool);
    b.from("item").when(&first).aggregate(Agg::Intersect).from("tag").when(&second).minus(Some(&minus));
    b.minus(None).aggregate(Agg::Union);
    let q = b.build();
    assert_eq!(q.from, "tag");
    assert_eq!(q.when, second);
    assert!(q.minus.is_none());
    assert_eq!(q.aggregate, Agg::Union);
    assert_eq!(b.from, "tag");
}

#[test]
fn to_statement_uses_only_the_first_search() {
    let pool = ();
    let one = vec![When::Like(("name", "Fin"))];
    let more = vec![When::Like(("name", "Fin")), When::Equal(("name", "other"))];
    let mut a = Query::builder(&pool);
    a.from("item").when(&one);
    let mut b = Query::builder(&pool);
    b.from("item").when(&more);
    let (qa, qb) = (a.build(), b.build());
    let sa = qa.to_statement::<Item>().unwrap();
    let sb = qb.to_statement::<Item>().unwrap();
    assert_eq!(sa.sql, sb.sql);
    assert_eq!(sa.binds, sb.binds);
    let sr = qb.results_statement::<Item>(&vec![more[0]], None).unwrap();
    assert_eq!(sr.sql, sb.sql);
}

#[test]
fn data_file_dates_read_as_written() {
    assert_eq!(deserialize_naive_date(Some("2022-12-31")).unwrap(), day(2022, 12, 31));
    assert!(deserialize_naive_date(Some("bad")).is_err());
    assert_eq!(deserialize_optional_naive_date(Some("2022-12-31")).unwrap(), Some(day(2022, 12, 31)));
    assert!(deserialize_optional_naive_date(Some("2022/12/31")).is_err());
    assert_eq!(
        deserialize_naive_date_vec(Some(vec!["2022-12-31", "bad", "2023-01-02"])),
        vec![day(2022, 12, 31), day(2023, 1, 2)]
    );
}

#[test]
fn changing_the_payload_keeps_the_kind() {
    let w = When::Match(("name", "x"));
    assert_eq!(w.into_when(1).into_when("y"), w.into_when("y"));
    assert_eq!(w.into_when(("name", "x")), w);
}

#[test]
fn ids_compare_and_copy_by_value() {
    let a = Id::<Item>::new(5);
    let b = a.clone();
    assert!(a == b);
    assert!(Id::<Item>::new(6) != a);
    assert_eq!(b.get(), 5);
}
