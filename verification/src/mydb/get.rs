//! Lookups of items and tags through the link table between them.
use vstd::prelude::*;
use vstd::string::StringExecFns;
use crate::myquery::select::Statement;
use crate::text::{i32_text, int_text, views};

verus! {

/// The statement selecting the items, joined with their tag links, that
/// meet `where_clause`.
pub open spec fn item_select_text(db_name: Seq<char>, where_clause: Seq<char>) -> Seq<char> {
    "\nSELECT *\nFROM\n    `"@ + db_name + "`.`Item`\n    LEFT JOIN\n    `"@ + db_name
        + "`.`Item_has_Tag`\n    ON `Id` = `Item_Id`\nWHERE\n    "@ + where_clause
        + "\n;\n            "@
}

/// The statement selecting the tags, joined with their item links, that
/// meet `where_clause`.
pub open spec fn tag_select_text(db_name: Seq<char>, where_clause: Seq<char>) -> Seq<char> {
    "\nSELECT *\nFROM\n    `"@ + db_name + "`.`Tag`\n    LEFT JOIN\n    `"@ + db_name
        + "`.`Item_has_Tag`\n    ON `Id` = `Tag_Id`\nWHERE\n    "@ + where_clause
        + "\n;\n            "@
}

/// The statement of an item lookup: the items meeting `where_clause`, with
/// `sentinel` bound to its placeholder.
pub fn item_statement(db_name: &str, where_clause: &str, sentinel: &str) -> (r: Statement)
    ensures
        r.sql@ == item_select_text(db_name@, where_clause@),
        views(r.binds@) == seq![sentinel@],
{
    let mut sql = String::from_str("\nSELECT *\nFROM\n    `");
    sql.append(db_name);
    sql.append("`.`Item`\n    LEFT JOIN\n    `");
    sql.append(db_name);
    sql.append("`.`Item_has_Tag`\n    ON `Id` = `Item_Id`\nWHERE\n    ");
    sql.append(where_clause);
    sql.append("\n;\n            ");
    let mut binds: Vec<String> = Vec::new();
    binds.push(String::from_str(sentinel));
    assert(views(binds@) =~= seq![sentinel@]);
    Statement { sql, binds }
}

/// The statement of a tag lookup: the tags meeting `where_clause`, with
/// `sentinel` bound to its placeholder.
pub fn tag_statement(db_name: &str, where_clause: &str, sentinel: &str) -> (r: Statement)
    ensures
        r.sql@ == tag_select_text(db_name@, where_clause@),
        views(r.binds@) == seq![sentinel@],
{
    let mut sql = String::from_str("\nSELECT *\nFROM\n    `");
    sql.append(db_name);
    sql.append("`.`Tag`\n    LEFT JOIN\n    `");
    sql.append(db_name);
    sql.append("`.`Item_has_Tag`\n    ON `Id` = `Tag_Id`\nWHERE\n    ");
    sql.append(where_clause);
    sql.append("\n;\n            ");
    let mut binds: Vec<String> = Vec::new();
    binds.push(String::from_str(sentinel));
    assert(views(binds@) =~= seq![sentinel@]);
    Statement { sql, binds }
}

/// The condition that selects the items linked to the tag named by the
/// placeholder.
pub open spec fn tagname_condition() -> Seq<char> {
    "`Tag_Id` = (SELECT `Id` FROM `Tag` WHERE `Name` = ?)"@
}

/// The condition that selects the tags linked to the item whose id is the
/// placeholder.
pub open spec fn itemid_condition() -> Seq<char> {
    "`Item_Id` = ?"@
}

/// The statement of the lookup of items by tag name: the items linked to the tag
/// named `tag_name`.
pub fn item_from_tagname_statement(db_name: &str, tag_name: &str) -> (r: Statement)
    ensures
        r.sql@ == item_select_text(db_name@, tagname_condition()),
        views(r.binds@) == seq![tag_name@],
{
    item_statement(db_name, "`Tag_Id` = (SELECT `Id` FROM `Tag` WHERE `Name` = ?)", tag_name)
}

/// The statement of the lookup of tags by item id: the tags linked to the item with
/// id `item_id`.
pub fn tag_from_itemid_statement(db_name: &str, item_id: i32) -> (r: Statement)
    ensures
        r.sql@ == tag_select_text(db_name@, itemid_condition()),
        views(r.binds@) == seq![int_text(item_id as int)],
{
    let id = i32_text(item_id);
    tag_statement(db_name, "`Item_Id` = ?", id.as_str())
}

} // verus!
