use itemdb::calendar::CalendarDate;
use itemdb::mydb::get::{
    item_from_tagname_statement, item_statement, tag_from_itemid_statement, tag_statement,
};
use itemdb::mydb::{
    complete_item, date_to_dbrow, deserialize_optional_naive_date, item_tags_statement,
    itemhastag_pairs_of, itemhastag_to_dbinsert, myitem_to_dbrow, myitems_to_dbinsert,
    mytag_to_dbrow, mytags_to_dbinsert, new_query_str, Id, Item, MySqlMarshal, Query,
    QueryBuilder, QueryString, Tag, When, DB, DT_FORMAT, MAIN_TABLE,
};

fn day(y: i32, m: u32, d: u32) -> CalendarDate {
    CalendarDate::new(y, m, d).unwrap()
}

fn item(name: &str, created: Option<CalendarDate>, tags: &[&str]) -> Item {
    Item {
        Id: 0,
        Name: name.to_string(),
        Description: None,
        Arrival: None,
        Expiry: None,
        Created: created,
        Tags: tags.iter().map(|t| t.to_string()).collect(),
    }
}

fn select(from: &str, where_clause: &str) -> String {
    format!("SELECT * \nFROM\n    {from}\nWHERE\n    {where_clause}\n;\n            ")
}

#[test]
fn mydb_constants_name_the_schema() {
    assert_eq!(MAIN_TABLE, "item");
    assert_eq!(DB, "mydb");
    assert_eq!(DT_FORMAT, "%Y_%m_%d");
}

/// Items by tag name in a named schema, some ids left out: the statement
/// and the sentinel bound.
#[test]
fn it_works() {
    let pool = ();
    let minus: Vec<i32> = vec![2, 4];
    let mut b = Query::builder(&pool);
    b.db_name(&DB)
        .from("tag")
        .by("name")
        .when(&vec![When::Equal("?")])
        .sentinel("finance")
        .minus(Some(&minus));
    let st = b.build().to_statement::<Item>().unwrap();
    assert_eq!(
        st.sql,
        select(
            "`mydb`.`item` LEFT JOIN `mydb`.`item_has_tag` ON `id` = `item_id`",
            "`tag_id` = (SELECT `id` FROM `tag` WHERE `name` = ?) and `item_id` not in (2, 4)",
        )
    );
    assert_eq!(st.binds, vec!["finance".to_string()]);
}

#[test]
fn query_string_writes_from_and_where() {
    let q = QueryString { from: "F".to_string(), where_clause: "W".to_string() };
    assert_eq!(q.to_string(), "\nFROM\n    F\nWHERE\n    W\n;\n            ");
    let q = QueryString::default();
    assert_eq!(q.to_string(), "\nFROM\n    \nWHERE\n    \n;\n            ");
}

#[test]
fn search_kinds_write_their_comparison() {
    let cases = [
        (When::Equal("?"), "`db`.name` = ?"),
        (When::Like("?"), "`db`.name` LIKE ?%"),
        (When::Match("?"), "`db`.name` RLIKE ?"),
        (When::Other("IS NULL"), "`db`.name` IS NULL"),
    ];
    for (when, expected) in cases {
        let q = new_query_str("db", "item", "", "name", when, None).unwrap();
        assert_eq!(q.from, "`db`.`item`");
        assert_eq!(q.where_clause, expected);
    }
    assert!(new_query_str("db", "item", "", "name", When::Approx("?"), None).is_none());
}

#[test]
fn query_through_the_link_table() {
    let q = new_query_str("db", "item", "tag", "id", When::Equal("?"), None).unwrap();
    assert_eq!(q.from, "`db`.`tag` LEFT JOIN `db`.`item_has_tag` ON `id` = `tag_id`");
    assert_eq!(q.where_clause, "`item_id` = (SELECT `id` FROM `item` WHERE `id` = ?)");
    assert!(new_query_str("db", "tag", "date", "id", When::Equal("?"), None).is_none());
    let minus = vec![1];
    let q = new_query_str("db", "tag", "item", "name", When::Like("?"), Some(&minus)).unwrap();
    assert_eq!(
        q.where_clause,
        "`tag_id` = (SELECT `id` FROM `tag` WHERE `name` LIKE ?%) and `item_id` not in (1)"
    );
}

#[test]
fn builder_defaults_and_settings() {
    let pool = ();
    let b = QueryBuilder::new(&pool);
    assert_eq!((b.db_name, b.from, b.by, b.sentinel.as_str()), ("", "", "", ""));
    assert!(matches!(b.when[..], [When::Equal("?")]));
    assert!(b.minus.is_none());
    assert_eq!(QueryBuilder::<()>::DEFAULT_STR, "");
    assert!(matches!(When::<&str>::default(), When::Equal("?")));
    let mut b = Query::builder(&pool);
    b.sentinel(42);
    assert_eq!(b.sentinel, "42");
    let other = ();
    b.pool(&other);
    assert!(std::ptr::eq(b.build().pool, &other));
}

#[test]
fn tags_of_an_item_by_id() {
    let st = item_tags_statement("mydb", 17);
    assert_eq!(
        st.sql,
        select(
            "`mydb`.`tag` LEFT JOIN `mydb`.`item_has_tag` ON `id` = `tag_id`",
            "`item_id` = (SELECT `id` FROM `item` WHERE `id` = ?)",
        )
    );
    assert_eq!(st.binds, vec!["17".to_string()]);
}

#[test]
fn complete_item_sets_the_tags() {
    let base = item("A", Some(day(2022, 12, 31)), &["old"]);
    let tags = vec![Tag { Id: 1, Name: "new".to_string(), Created: None }];
    let done = complete_item(base.clone(), &tags);
    assert_eq!(done, Item { Tags: vec!["new".to_string()], ..base });
}

#[test]
fn dates_are_written_with_str_to_date() {
    assert_eq!(
        date_to_dbrow(&Some(day(2023, 1, 5)), "%Y_%m_%d"),
        "STR_TO_DATE('2023_01_05', '%Y_%m_%d')"
    );
    assert_eq!(
        date_to_dbrow(&Some(day(2023, 1, 5)), "%Y-%m-%d"),
        "STR_TO_DATE('2023-01-05', '%Y-%m-%d')"
    );
    assert_eq!(date_to_dbrow(&None, "%Y_%m_%d"), "NULL");
}

#[test]
fn rows_and_inserts() {
    let mut it = item("A", Some(day(2022, 12, 31)), &["x"]);
    it.Description = Some("d".to_string());
    let row = "'A',\n    'd',\n    NULL,\n    NULL,\n    STR_TO_DATE('2022_12_31', '%Y_%m_%d')";
    assert_eq!(myitem_to_dbrow(&it), row);
    assert_eq!(
        myitems_to_dbinsert("mydb", &vec![it.clone()]),
        format!("\nINSERT INTO `mydb`.`Item` (\n    Name,\n    Description,\n    Arrival,\n    Expiry,\n    Created\n) VALUES (\n    {row}\n);\n        ")
    );
    let tag = Tag { Id: -1, Name: "x".to_string(), Created: None };
    assert_eq!(mytag_to_dbrow(&tag), "'x',\n    NULL");
}

#[test]
fn tags_once_in_name_order() {
    let items = vec![
        item("A", Some(day(2022, 12, 31)), &["finance", "bank"]),
        item("B", None, &["Zeta", "finance"]),
    ];
    let expected = "\nINSERT IGNORE INTO `mydb`.`Tag` (\n    Name,\n    Created\n) VALUES (\n    'Zeta',\n    NULL\n), (\n    'bank',\n    STR_TO_DATE('2022_12_31', '%Y_%m_%d')\n), (\n    'finance',\n    STR_TO_DATE('2022_12_31', '%Y_%m_%d')\n);\n        ";
    assert_eq!(mytags_to_dbinsert("mydb", &items), expected);
}

#[test]
fn link_pairs_and_statements() {
    let items = vec![item("A", None, &["x", "y"])];
    assert_eq!(
        itemhastag_pairs_of(&items),
        vec![("A".to_string(), "x".to_string()), ("A".to_string(), "y".to_string())]
    );
    let text = itemhastag_to_dbinsert("db", &items);
    assert!(text.contains("a.`Name` = 'A'\n    AND\n    b.`Name` = 'x'"));
    assert!(text.contains("a.`Name` = 'A'\n    AND\n    b.`Name` = 'y'"));
}

#[test]
fn optional_dates_read_with_underscores() {
    assert_eq!(deserialize_optional_naive_date(None).unwrap(), None);
    assert_eq!(deserialize_optional_naive_date(Some("2023_01_05")).unwrap(), Some(day(2023, 1, 5)));
    assert!(deserialize_optional_naive_date(Some("2023-01-05")).is_err());
}

#[test]
fn record_types_and_ids() {
    assert_eq!(<Item as MySqlMarshal>::table_name(), "item");
    assert_eq!(<Tag as MySqlMarshal>::table_name(), "tag");
    assert_eq!(<i32 as MySqlMarshal>::col_name(), "`Id`");
    assert_eq!(<Id<Tag> as MySqlMarshal>::table_name(), "tag");
    assert_eq!(Id::<Item>::new(8).get(), 8);
}

#[test]
fn lookups_through_the_link_table() {
    let st = item_from_tagname_statement("mydb", "finance");
    assert_eq!(
        st.sql,
        "\nSELECT *\nFROM\n    `mydb`.`Item`\n    LEFT JOIN\n    `mydb`.`Item_has_Tag`\n    ON `Id` = `Item_Id`\nWHERE\n    `Tag_Id` = (SELECT `Id` FROM `Tag` WHERE `Name` = ?)\n;\n            "
    );
    assert_eq!(st.binds, vec!["finance".to_string()]);
    let st = tag_from_itemid_statement("mydb", 3);
    assert_eq!(
        st.sql,
        "\nSELECT *\nFROM\n    `mydb`.`Tag`\n    LEFT JOIN\n    `mydb`.`Item_has_Tag`\n    ON `Id` = `Tag_Id`\nWHERE\n    `Item_Id` = ?\n;\n            "
    );
    assert_eq!(st.binds, vec!["3".to_string()]);
    assert_eq!(item_statement("d", "W", "s").binds, vec!["s".to_string()]);
    assert!(tag_statement("d", "W", "s").sql.contains("WHERE\n    W\n"));
}
