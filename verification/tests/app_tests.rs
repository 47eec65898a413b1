use itemdb::app::{exclude_found, matching_tags, search_needle, search_statement, tags_contain, GetItem, SearchTier};

fn strings(v: &[&str]) -> Vec<String> {
    v.iter().map(|s| s.to_string()).collect()
}

#[test]
fn needle_joins_the_search_strings() {
    assert_eq!(search_needle(&strings(&["Finance", "Claim"])), "Finance|Claim");
    assert_eq!(search_needle(&strings(&["one"])), "one");
    assert_eq!(search_needle(&vec![]), "");
}

#[test]
fn matching_tags_are_the_lowercased_strings_an_item_has() {
    let tags = strings(&["finance", "bank"]);
    assert_eq!(
        matching_tags(&tags, &strings(&["Finance", "Auto", "BANK"])),
        strings(&["finance", "bank"])
    );
    assert_eq!(matching_tags(&tags, &strings(&["claim"])), Vec::<String>::new());
    assert_eq!(matching_tags(&vec![], &strings(&["finance"])), Vec::<String>::new());
}

#[test]
fn get_item_holds_id_or_name() {
    let by_id = GetItem::Id { id: 4 };
    let by_name = GetItem::Name { name: "Finance".to_string() };
    assert!(matches!(by_id, GetItem::Id { id: 4 }));
    assert!(matches!(by_name, GetItem::Name { ref name } if name == "Finance"));
}

#[test]
fn tags_contain_exact_text() {
    let tags = strings(&["finance", "bank"]);
    assert!(tags_contain(&tags, "bank"));
    assert!(!tags_contain(&tags, "Bank"));
    assert!(!tags_contain(&vec![], ""));
}

fn select(from_clause: &str, where_clause: &str) -> String {
    format!(
        "SELECT * FROM `item` WHERE `Id` IN (\n    SELECT `Id`\n    FROM\n        {from_clause}\n    WHERE\n        {where_clause}\n    GROUP BY\n        `Id`\n)\nORDER BY `Id`;"
    )
}

#[test]
fn search_steps_by_name_then_by_tag() {
    let none: Vec<i32> = vec![];
    let st = search_statement(SearchTier::NameLike, "Finance|Claim", &none).unwrap();
    assert_eq!(st.sql, select("`item`", "`name` REGEXP CONCAT('^', ?)"));
    assert_eq!(st.binds, vec!["Finance|Claim".to_string()]);
    let found = vec![1, 3];
    let st = search_statement(SearchTier::NameMatch, "Finance|Claim", &found).unwrap();
    assert_eq!(st.sql, select("`item`", "`name` REGEXP (?) and `item_Id` not in (1, 3)"));
    assert_eq!(st.binds, vec!["Finance|Claim".to_string()]);
    let st = search_statement(SearchTier::TagEqual, "Finance|Claim", &found).unwrap();
    assert_eq!(
        st.sql,
        select(
            "`item` LEFT JOIN `item_has_tag` ON `Id` = `item_Id`",
            "`tag_Id` in (SELECT `Id` FROM `tag` WHERE `name` REGEXP CONCAT('^', ?, '$')) and `item_Id` not in (1, 3)",
        )
    );
    assert_eq!(st.binds, vec!["finance|claim".to_string()]);
}

#[test]
fn found_ids_are_left_out_of_later_steps() {
    let found = vec![
        itemdb::myquery::Item {
            Id: 7,
            Name: "a".to_string(),
            Description: None,
            Arrival: None,
            Expiry: None,
            Created: None,
            Tags: vec![],
            Dates: vec![],
        },
        itemdb::myquery::Item {
            Id: 3,
            Name: "b".to_string(),
            Description: None,
            Arrival: None,
            Expiry: None,
            Created: None,
            Tags: vec![],
            Dates: vec![],
        },
    ];
    let mut minus = vec![1];
    exclude_found(&mut minus, &found);
    assert_eq!(minus, vec![1, 7, 3]);
    exclude_found(&mut minus, &vec![]);
    assert_eq!(minus, vec![1, 7, 3]);
}
