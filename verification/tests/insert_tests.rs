use itemdb::calendar::CalendarDate;
use itemdb::myquery::dbstring::{date_to_dbrow, myitem_to_dbrow, mytag_to_dbrow, string_to_dbrow};
use itemdb::myquery::insert::{
    itemhasdate_insert_sql, itemhasdate_pairs, itemhastag_insert_sql, itemhastag_pairs,
    itemhastag_to_dbinsert, mydates_to_dbinsert, myitems_to_dbinsert, myrow_to_dbassociate,
    myrow_to_dbdissociate, myrow_to_dbremove, mytags_to_dbinsert, sorted_unique_dates,
    sorted_unique_tags, sql_statements,
};
use itemdb::myquery::{Item, Tag};

fn day(y: i32, m: u32, d: u32) -> CalendarDate {
    CalendarDate::new(y, m, d).unwrap()
}

fn item(name: &str, created: Option<CalendarDate>, tags: &[&str], dates: Vec<CalendarDate>) -> Item {
    Item {
        Id: 0,
        Name: name.to_string(),
        Description: None,
        Arrival: None,
        Expiry: None,
        Created: created,
        Tags: tags.iter().map(|t| t.to_string()).collect(),
        Dates: dates,
    }
}

fn sample() -> Vec<Item> {
    vec![
        item(
            "Finance Statement 01",
            Some(day(2022, 12, 31)),
            &["finance", "bank"],
            vec![day(2023, 1, 5), day(2022, 12, 31)],
        ),
        item("Zeta Report", None, &["Zeta", "finance"], vec![day(2023, 1, 5)]),
    ]
}

#[test]
fn string_and_date_values() {
    assert_eq!(string_to_dbrow(&Some("Bank".to_string())), "'Bank'");
    assert_eq!(string_to_dbrow(&None), "NULL");
    assert_eq!(date_to_dbrow(&Some(day(2023, 1, 5))), "'2023-01-05'");
    assert_eq!(date_to_dbrow(&None), "NULL");
}

#[test]
fn item_and_tag_rows() {
    let mut it = item("Finance Statement 01", Some(day(2022, 12, 31)), &[], vec![]);
    it.Description = Some("Bank".to_string());
    it.Arrival = Some(day(2023, 1, 5));
    assert_eq!(
        myitem_to_dbrow(&it),
        "'Finance Statement 01',\n    'Bank',\n    '2023-01-05',\n    NULL,\n    '2022-12-31'"
    );
    let tag = Tag { Id: 1, Name: "finance".to_string(), Created: None };
    assert_eq!(mytag_to_dbrow(&tag), "'finance',\n    NULL");
}

#[test]
fn remove_statement() {
    assert_eq!(myrow_to_dbremove("item", vec![2, 3, 5, 1]), "DELETE FROM `item` WHERE `Id` IN (2, 3, 5, 1);");
    assert_eq!(myrow_to_dbremove("tag", vec![]), "DELETE FROM `tag` WHERE `Id` IN ();");
}

#[test]
fn associate_statement() {
    assert_eq!(
        myrow_to_dbassociate("item", "tag", 5, 2),
        "INSERT IGNORE INTO `item_has_tag` (\n    `item_Id`, `tag_Id`\n) VALUES (\n    5, 2\n);"
    );
}

#[test]
fn dissociate_statement() {
    assert_eq!(
        myrow_to_dbdissociate("item", "tag", 5, 2),
        "DELETE FROM `item_has_tag`\nWHERE `item_Id` = 5\nAND `tag_Id` = 2;"
    );
}

#[test]
fn items_insert_statement() {
    let mut first = item("Finance Statement 01", Some(day(2022, 12, 31)), &[], vec![]);
    first.Description = Some("Bank".to_string());
    let second = item("Zeta Report", None, &[], vec![]);
    let expected = "INSERT INTO `Item` (\n    Name,\n    Description,\n    Arrival,\n    Expiry,\n    Created\n)\nVALUES (\n    'Finance Statement 01',\n    'Bank',\n    NULL,\n    NULL,\n    '2022-12-31'\n), (\n    'Zeta Report',\n    NULL,\n    NULL,\n    NULL,\n    NULL\n)\nAS new_rows\nON DUPLICATE KEY UPDATE\n    Name = new_rows.Name,\n    Description = new_rows.Description,\n    Arrival = new_rows.Arrival,\n    Expiry = new_rows.Expiry,\n    Created = new_rows.Created\n;";
    assert_eq!(myitems_to_dbinsert(&vec![first, second]), expected);
}

#[test]
fn tags_are_inserted_once_in_name_order() {
    let expected = "INSERT IGNORE INTO `mydb`.`Tag` (\n    Name,\n    Created\n) VALUES (\n    'Zeta',\n    NULL\n), (\n    'bank',\n    '2022-12-31'\n), (\n    'finance',\n    '2022-12-31'\n);";
    assert_eq!(mytags_to_dbinsert("mydb", &sample()), expected);
}

#[test]
fn first_item_with_a_tag_gives_its_creation_date() {
    let tags = sorted_unique_tags(&sample());
    let names: Vec<&str> = tags.iter().map(|t| t.Name.as_str()).collect();
    assert_eq!(names, vec!["Zeta", "bank", "finance"]);
    assert_eq!(tags[2].Created, Some(day(2022, 12, 31)));
    assert!(tags.iter().all(|t| t.Id == -1));
    let reversed: Vec<Item> = sample().into_iter().rev().collect();
    let tags = sorted_unique_tags(&reversed);
    assert_eq!(tags[2].Name, "finance");
    assert_eq!(tags[2].Created, None);
}

#[test]
fn dates_are_inserted_once_in_day_order() {
    let expected = "INSERT IGNORE INTO `mydb`.`Date` (\n    Date\n) VALUES (\n    '2022-12-31'\n), (\n    '2023-01-05'\n);";
    assert_eq!(mydates_to_dbinsert("mydb", &sample()), expected);
    let dates: Vec<CalendarDate> = sorted_unique_dates(&sample()).iter().map(|d| d.Date).collect();
    assert_eq!(dates, vec![day(2022, 12, 31), day(2023, 1, 5)]);
}

#[test]
fn nothing_to_insert_gives_an_empty_value_list() {
    assert_eq!(
        mydates_to_dbinsert("mydb", &vec![]),
        "INSERT IGNORE INTO `mydb`.`Date` (\n    Date\n) VALUES (\n    \n);"
    );
}

#[test]
fn link_pairs_follow_the_items() {
    let pairs = itemhastag_pairs(&sample());
    let expected: Vec<(String, String)> = vec![
        ("Finance Statement 01".into(), "finance".into()),
        ("Finance Statement 01".into(), "bank".into()),
        ("Zeta Report".into(), "Zeta".into()),
        ("Zeta Report".into(), "finance".into()),
    ];
    assert_eq!(pairs, expected);
    let pairs = itemhasdate_pairs(&sample());
    assert_eq!(
        pairs,
        vec![
            ("Finance Statement 01".to_string(), day(2023, 1, 5)),
            ("Finance Statement 01".to_string(), day(2022, 12, 31)),
            ("Zeta Report".to_string(), day(2023, 1, 5)),
        ]
    );
}

#[test]
fn link_statements_with_placeholders() {
    let tag_sql = "\nINSERT INTO `mydb`.`Item_has_Tag`\n    (`Item_Id`, `Tag_Id`)\nSELECT\n    a.`Id`, b.`Id`\nFROM\n    `mydb`.`Item` as a\n    JOIN\n    `mydb`.`Tag` as b\nWHERE\n    a.`Name` = ?\n    AND\n    b.`Name` = ?\nON DUPLICATE KEY UPDATE\n    `Item_Id` = a.`Id`,\n    `Tag_Id` = b.`Id`\n;\n            ";
    assert_eq!(itemhastag_insert_sql("mydb"), tag_sql);
    let date_sql = "\nINSERT INTO `mydb`.`Item_has_Date`\n    (`Item_Id`, `Date_Id`)\nSELECT\n    a.`Id`, b.`Id`\nFROM\n    `mydb`.`Item` as a\n    JOIN\n    `mydb`.`Date` as b\nWHERE\n    a.`Name` = ?\n    AND\n    b.`Date` = ?\nON DUPLICATE KEY UPDATE\n    `Item_Id` = a.`Id`,\n    `Date_Id` = b.`Id`\n;\n            ";
    assert_eq!(itemhasdate_insert_sql("mydb"), date_sql);
}

#[test]
fn link_statements_with_names_written_in() {
    let one = |i: &str, t: &str| {
        format!("\nINSERT INTO `db`.`Item_has_Tag`\n    (`Item_Id`, `Tag_Id`)\nSELECT\n    a.`Id`, b.`Id`\nFROM\n    `db`.`Item` as a\n    JOIN\n    `db`.`Tag` as b\nWHERE\n    a.`Name` = '{i}'\n    AND\n    b.`Name` = '{t}'\nON DUPLICATE KEY UPDATE\n    `Item_Id` = a.`Id`,\n    `Tag_Id` = b.`Id`\n;\n                        ")
    };
    let items = vec![item("A", None, &["x", "y"], vec![]), item("B", None, &["z"], vec![])];
    let expected = [one("A", "x"), one("A", "y"), one("B", "z")].join("\n");
    assert_eq!(itemhastag_to_dbinsert("db", &items), expected);
    assert_eq!(itemhastag_to_dbinsert("db", &vec![]), "");
}

#[test]
fn script_statements_are_trimmed_and_ended() {
    let script = "CREATE TABLE a (x INT);\n\n  DROP TABLE b ;  ;\n";
    assert_eq!(
        sql_statements(script),
        vec!["CREATE TABLE a (x INT);".to_string(), "DROP TABLE b;".to_string()]
    );
    assert_eq!(sql_statements(""), Vec::<String>::new());
    assert_eq!(sql_statements("SELECT 1"), vec!["SELECT 1;".to_string()]);
}
