//! The statements that write rows: inserting items, tags and dates, linking
//! and unlinking rows, deleting rows, and the schema script's statements.
use vstd::prelude::*;
use vstd::string::StringExecFns;
use crate::calendar::{ymd_less, CalendarDate};
use crate::sorted::{
    first_entries, first_value, key_sorted, lemma_first_entries_are_sorted_first_entries,
    lemma_first_entries_insert, lemma_first_entries_skip, lemma_sorted_first_entries,
    sorted_first_entries, strict_total,
};
use crate::text::{
    int_text, join, join_strings, lemma_seq_less_irreflexive, lemma_seq_less_total,
    lemma_seq_less_transitive, push_i32, seq_less, split_on, split_pieces, str_eq, str_less,
    str_views, trim, trim_str, views,
};
use super::dbstring::{date_row, day_value, item_row, myitem_to_dbrow, mytag_to_dbrow, quoted, tag_row};
use super::select::{ids_join, ids_text};
use super::{Date, Item, Tag};

verus! {

/// The statement deleting the rows of `table` with the given ids.
pub open spec fn remove_text(table: Seq<char>, ids: Seq<i32>) -> Seq<char> {
    "DELETE FROM `"@ + table + "` WHERE `Id` IN ("@ + ids_text(ids) + ");"@
}

/// Deletes the rows of `table` with the given ids.
pub fn myrow_to_dbremove(table: &str, ids: Vec<i32>) -> (r: String)
    ensures
        r@ == remove_text(table@, ids@),
{
    let mut r = String::from_str("DELETE FROM `");
    r.append(table);
    r.append("` WHERE `Id` IN (");
    let list = ids_join(&ids);
    r.append(list.as_str());
    r.append(");");
    r
}

/// The statement linking row `main_id` of `main_table` to row
/// `property_id` of `property_table`, unless they are linked already.
pub open spec fn associate_text(
    main_table: Seq<char>,
    property_table: Seq<char>,
    main_id: i32,
    property_id: i32,
) -> Seq<char> {
    "INSERT IGNORE INTO `"@ + main_table + "_has_"@ + property_table + "` (\n    `"@ + main_table
        + "_Id`, `"@ + property_table + "_Id`\n) VALUES (\n    "@ + int_text(main_id as int)
        + ", "@ + int_text(property_id as int) + "\n);"@
}

/// Links row `main_id` of `main_table` to row `property_id` of
/// `property_table`.
pub fn myrow_to_dbassociate(
    main_table: &str,
    property_table: &str,
    main_id: i32,
    property_id: i32,
) -> (r: String)
    ensures
        r@ == associate_text(main_table@, property_table@, main_id, property_id),
{
    let mut r = String::from_str("INSERT IGNORE INTO `");
    r.append(main_table);
    r.append("_has_");
    r.append(property_table);
    r.append("` (\n    `");
    r.append(main_table);
    r.append("_Id`, `");
    r.append(property_table);
    r.append("_Id`\n) VALUES (\n    ");
    push_i32(&mut r, main_id);
    r.append(", ");
    push_i32(&mut r, property_id);
    r.append("\n);");
    r
}

/// The statement removing the link between row `main_id` of `main_table`
/// and row `property_id` of `property_table`.
pub open spec fn dissociate_text(
    main_table: Seq<char>,
    property_table: Seq<char>,
    main_id: i32,
    property_id: i32,
) -> Seq<char> {
    "DELETE FROM `"@ + main_table + "_has_"@ + property_table + "`\nWHERE `"@ + main_table
        + "_Id` = "@ + int_text(main_id as int) + "\nAND `"@ + property_table + "_Id` = "@
        + int_text(property_id as int) + ";"@
}

/// Removes the link between row `main_id` of `main_table` and row
/// `property_id` of `property_table`.
pub fn myrow_to_dbdissociate(
    main_table: &str,
    property_table: &str,
    main_id: i32,
    property_id: i32,
) -> (r: String)
    ensures
        r@ == dissociate_text(main_table@, property_table@, main_id, property_id),
{
    let mut r = String::from_str("DELETE FROM `");
    r.append(main_table);
    r.append("_has_");
    r.append(property_table);
    r.append("`\nWHERE `");
    r.append(main_table);
    r.append("_Id` = ");
    push_i32(&mut r, main_id);
    r.append("\nAND `");
    r.append(property_table);
    r.append("_Id` = ");
    push_i32(&mut r, property_id);
    r.append(";");
    r
}

/// A link statement and the matching unlink statement both name the table
/// `<main>_has_<property>` of the two tables given, with the columns
/// `<main>_Id` and `<property>_Id` and the two ids in that order; a delete
/// names its table and lists exactly the ids given.
pub proof fn law_link_statements_name_both_tables(
    main_table: Seq<char>,
    property_table: Seq<char>,
    main_id: i32,
    property_id: i32,
    table: Seq<char>,
    ids: Seq<i32>,
)
    ensures
        ("INSERT IGNORE INTO `"@ + main_table + "_has_"@ + property_table + "` (\n    `"@ + main_table
            + "_Id`, `"@ + property_table + "_Id`"@).is_prefix_of(
            associate_text(main_table, property_table, main_id, property_id),
        ),
        ("VALUES (\n    "@ + int_text(main_id as int) + ", "@ + int_text(property_id as int)
            + "\n);"@).is_suffix_of(associate_text(main_table, property_table, main_id, property_id)),
        ("DELETE FROM `"@ + main_table + "_has_"@ + property_table + "`\nWHERE `"@ + main_table
            + "_Id` = "@ + int_text(main_id as int)).is_prefix_of(
            dissociate_text(main_table, property_table, main_id, property_id),
        ),
        ("\nAND `"@ + property_table + "_Id` = "@ + int_text(property_id as int) + ";"@).is_suffix_of(
            dissociate_text(main_table, property_table, main_id, property_id),
        ),
        ("DELETE FROM `"@ + table + "` WHERE `Id` IN ("@).is_prefix_of(remove_text(table, ids)),
        (ids_text(ids) + ");"@).is_suffix_of(remove_text(table, ids)),
{
    let a = int_text(main_id as int);
    let b = int_text(property_id as int);
    let t = associate_text(main_table, property_table, main_id, property_id);
    let p1 = "INSERT IGNORE INTO `"@ + main_table + "_has_"@ + property_table + "` (\n    `"@ + main_table
        + "_Id`, `"@ + property_table + "_Id`"@;
    let s1 = "VALUES (\n    "@ + a + ", "@ + b + "\n);"@;
    reveal_strlit("_Id`\n) VALUES (\n    ");
    reveal_strlit("_Id`");
    reveal_strlit("\n) ");
    reveal_strlit("VALUES (\n    ");
    assert("_Id`\n) VALUES (\n    "@ =~= "_Id`"@ + "\n) "@ + "VALUES (\n    "@);
    assert(t =~= p1 + "\n) "@ + s1);
    assert(t.subrange(0, p1.len() as int) =~= p1);
    assert(t.subrange(t.len() - s1.len(), t.len() as int) =~= s1);
    let d = dissociate_text(main_table, property_table, main_id, property_id);
    let p2 = "DELETE FROM `"@ + main_table + "_has_"@ + property_table + "`\nWHERE `"@ + main_table
        + "_Id` = "@ + a;
    let s2 = "\nAND `"@ + property_table + "_Id` = "@ + b + ";"@;
    assert(d =~= p2 + s2);
    assert(d.subrange(0, p2.len() as int) =~= p2);
    assert(d.subrange(d.len() - s2.len(), d.len() as int) =~= s2);
    let r = remove_text(table, ids);
    let p3 = "DELETE FROM `"@ + table + "` WHERE `Id` IN ("@;
    let s3 = ids_text(ids) + ");"@;
    assert(r =~= p3 + s3);
    assert(r.subrange(0, p3.len() as int) =~= p3);
    assert(r.subrange(r.len() - s3.len(), r.len() as int) =~= s3);
}

/// The columns an item row fills.
pub open spec fn item_columns() -> Seq<Seq<char>> {
    seq!["Name"@, "Description"@, "Arrival"@, "Expiry"@, "Created"@]
}

/// `column = new_rows.column` for each item column.
pub open spec fn item_updates() -> Seq<Seq<char>> {
    Seq::new(5, |i: int| item_columns()[i] + " = new_rows."@ + item_columns()[i])
}

/// The rows of the items.
pub open spec fn item_rows(items: Seq<Item>) -> Seq<Seq<char>> {
    Seq::new(items.len(), |i: int| item_row(items[i]))
}

/// The statement inserting the items, or updating the rows that hold them
/// already.
pub open spec fn items_insert_text(items: Seq<Item>) -> Seq<char> {
    "INSERT INTO `Item` (\n    "@ + join(item_columns(), ",\n    "@) + "\n)\nVALUES (\n    "@ + join(
        item_rows(items),
        "\n), (\n    "@,
    ) + "\n)\nAS new_rows\nON DUPLICATE KEY UPDATE\n    "@ + join(item_updates(), ",\n    "@)
        + "\n;"@
}

/// Inserts the items, or updates the rows that hold them already.
pub fn myitems_to_dbinsert(items: &Vec<Item>) -> (r: String)
    ensures
        r@ == items_insert_text(items@),
{
    let mut values: Vec<String> = Vec::new();
    let n = items.len();
    let mut i: usize = 0;
    while i < n
        invariant
            n == items@.len(),
            i <= n,
            views(values@) == item_rows(items@).take(i as int),
        decreases n - i,
    {
        let ghost before = views(values@);
        let row = myitem_to_dbrow(&items[i]);
        values.push(row);
        assert(views(values@) =~= before.push(item_row(items@[i as int])));
        assert(views(values@) =~= item_rows(items@).take(i + 1));
        i = i + 1;
    }
    assert(item_rows(items@).take(n as int) =~= item_rows(items@));
    let mut columns: Vec<String> = Vec::new();
    columns.push(String::from_str("Name"));
    columns.push(String::from_str("Description"));
    columns.push(String::from_str("Arrival"));
    columns.push(String::from_str("Expiry"));
    columns.push(String::from_str("Created"));
    assert(views(columns@) =~= item_columns());
    let mut updates: Vec<String> = Vec::new();
    let mut j: usize = 0;
    while j < 5
        invariant
            j <= 5,
            columns@.len() == 5,
            views(columns@) == item_columns(),
            views(updates@) == item_updates().take(j as int),
        decreases 5 - j,
    {
        let mut u = columns[j].clone();
        u.append(" = new_rows.");
        u.append(columns[j].as_str());
        let ghost before = views(updates@);
        assert(views(columns@)[j as int] == columns@[j as int]@);
        assert(u@ == item_updates()[j as int]);
        updates.push(u);
        assert(views(updates@) =~= before.push(u@));
        assert(views(updates@) =~= item_updates().take(j + 1));
        j = j + 1;
    }
    assert(item_updates().take(5) =~= item_updates());
    let mut r = String::from_str("INSERT INTO `Item` (\n    ");
    let c = join_strings(&columns, ",\n    ");
    r.append(c.as_str());
    r.append("\n)\nVALUES (\n    ");
    let v = join_strings(&values, "\n), (\n    ");
    r.append(v.as_str());
    r.append("\n)\nAS new_rows\nON DUPLICATE KEY UPDATE\n    ");
    let u = join_strings(&updates, ",\n    ");
    r.append(u.as_str());
    r.append("\n;");
    r
}

/// Name order of tags, the order of `str`.
pub open spec fn name_less() -> spec_fn(Seq<char>, Seq<char>) -> bool {
    |a: Seq<char>, b: Seq<char>| seq_less(a, b)
}

/// Day order of dates.
pub open spec fn day_less() -> spec_fn(CalendarDate, CalendarDate) -> bool {
    |a: CalendarDate, b: CalendarDate| ymd_less(a.ymd(), b.ymd())
}

/// Name order is a strict total order.
pub proof fn lemma_name_less_strict_total()
    ensures
        strict_total(name_less()),
{
    assert forall|x: Seq<char>| !#[trigger] name_less()(x, x) by {
        lemma_seq_less_irreflexive(x);
    }
    assert forall|x: Seq<char>, y: Seq<char>, z: Seq<char>|
        #[trigger] name_less()(x, y) && #[trigger] name_less()(y, z) implies name_less()(x, z) by {
        lemma_seq_less_transitive(x, y, z);
    }
    assert forall|x: Seq<char>, y: Seq<char>|
        x != y implies #[trigger] name_less()(x, y) || #[trigger] name_less()(y, x) by {
        lemma_seq_less_total(x, y);
    }
}

/// Day order is a strict total order.
pub proof fn lemma_day_less_strict_total()
    ensures
        strict_total(day_less()),
{
    assert forall|x: CalendarDate, y: CalendarDate|
        x != y implies #[trigger] day_less()(x, y) || #[trigger] day_less()(y, x) by {
        CalendarDate::lemma_ymd_injective(x, y);
    }
}

/// The tags of one item, each with the item's creation date.
pub open spec fn item_tag_entries(item: Item) -> Seq<(Seq<char>, Option<CalendarDate>)> {
    Seq::new(item.Tags@.len(), |j: int| (item.Tags@[j]@, item.Created))
}

/// The tags of the items in order, each with its item's creation date.
pub open spec fn tag_stream(items: Seq<Item>) -> Seq<(Seq<char>, Option<CalendarDate>)>
    decreases items.len(),
{
    if items.len() == 0 {
        Seq::empty()
    } else {
        tag_stream(items.drop_last()) + item_tag_entries(items.last())
    }
}

/// Each tag name of the items once, in name order, with the creation date
/// of the first item that has it.
pub open spec fn unique_tags(items: Seq<Item>) -> Seq<(Seq<char>, Option<CalendarDate>)> {
    sorted_first_entries(tag_stream(items), name_less())
}

/// The name and creation date of a tag.
pub open spec fn tag_entry(t: Tag) -> (Seq<char>, Option<CalendarDate>) {
    (t.Name@, t.Created)
}

/// The names and creation dates of tags.
pub open spec fn tag_entries(ts: Seq<Tag>) -> Seq<(Seq<char>, Option<CalendarDate>)> {
    Seq::new(ts.len(), |i: int| tag_entry(ts[i]))
}

/// The row of a tag with this name and creation date.
pub open spec fn entry_tag_row(x: (Seq<char>, Option<CalendarDate>)) -> Seq<char> {
    join(seq![quoted(x.0), date_row(x.1)], ",\n    "@)
}

/// The row of a tag to insert holds its quoted name and its creation date as
/// quoted `%Y-%m-%d` text or NULL; the row of a date to insert holds the
/// quoted `%Y-%m-%d` text of the date.
pub proof fn law_insert_rows_hold_each_field(x: (Seq<char>, Option<CalendarDate>), d: CalendarDate)
    ensures
        entry_tag_row(x) == "'"@ + x.0 + "'"@ + ",\n    "@ + day_value(x.1),
        date_row(Some(d)) == day_value(Some(d)),
{
    let q = seq![quoted(x.0), date_row(x.1)];
    assert(q.drop_last() =~= seq![quoted(x.0)]);
    assert(join(seq![quoted(x.0)], ",\n    "@) == quoted(x.0));
}

/// The statement inserting each tag of the items once, in name order.
pub open spec fn tags_insert_text(db_name: Seq<char>, items: Seq<Item>) -> Seq<char> {
    let rows = Seq::new(unique_tags(items).len(), |i: int| entry_tag_row(unique_tags(items)[i]));
    "INSERT IGNORE INTO `"@ + db_name + "`.`Tag` (\n    Name,\n    Created\n) VALUES (\n    "@ + join(
        rows,
        "\n), (\n    "@,
    ) + "\n);"@
}

/// Each tag of the items once, in name order, created when the first item
/// with that tag was created.
pub fn sorted_unique_tags(items: &Vec<Item>) -> (r: Vec<Tag>)
    ensures
        tag_entries(r@) == unique_tags(items@),
        forall|i: int| 0 <= i < r@.len() ==> #[trigger] r@[i].Id == -1,
{
    let mut tags: Vec<Tag> = Vec::new();
    let n = items.len();
    let mut i: usize = 0;
    proof {
        lemma_name_less_strict_total();
        assert(tag_entries(tags@) =~= Seq::<(Seq<char>, Option<CalendarDate>)>::empty());
        assert(tag_stream(items@.take(0)) =~= Seq::<(Seq<char>, Option<CalendarDate>)>::empty());
    }
    while i < n
        invariant
            n == items@.len(),
            i <= n,
            strict_total(name_less()),
            first_entries(tag_stream(items@.take(i as int)), tag_entries(tags@), name_less()),
            forall|k: int| 0 <= k < tags@.len() ==> #[trigger] tags@[k].Id == -1,
        decreases n - i,
    {
        let item = &items[i];
        let ghost prefix = tag_stream(items@.take(i as int));
        let m = item.Tags.len();
        let mut j: usize = 0;
        assert(item_tag_entries(*item).take(0) =~= Seq::<(Seq<char>, Option<CalendarDate>)>::empty());
        assert(prefix + item_tag_entries(*item).take(0) =~= prefix);
        while j < m
            invariant
                n == items@.len(),
                i < n,
                item == &items@[i as int],
                m == item.Tags@.len(),
                j <= m,
                strict_total(name_less()),
                prefix == tag_stream(items@.take(i as int)),
                first_entries(
                    prefix + item_tag_entries(*item).take(j as int),
                    tag_entries(tags@),
                    name_less(),
                ),
                forall|k: int| 0 <= k < tags@.len() ==> #[trigger] tags@[k].Id == -1,
            decreases m - j,
        {
            let name = &item.Tags[j];
            let ghost stream = prefix + item_tag_entries(*item).take(j as int);
            let ghost x = (name@, item.Created);
            assert(prefix + item_tag_entries(*item).take(j + 1) =~= stream.push(x));
            let len = tags.len();
            let mut k: usize = 0;
            while k < len && str_less(tags[k].Name.as_str(), name.as_str())
                invariant
                    len == tags@.len(),
                    k <= len,
                    forall|q: int| 0 <= q < k ==> seq_less(#[trigger] tags@[q].Name@, name@),
                decreases len - k,
            {
                k = k + 1;
            }
            if k < len && str_eq(tags[k].Name.as_str(), name.as_str()) {
                proof {
                    lemma_first_entries_skip(stream, tag_entries(tags@), name_less(), x, k as int);
                }
            } else {
                let ghost old_entries = tag_entries(tags@);
                proof {
                    assert forall|q: int| 0 <= q < k implies name_less()(
                        #[trigger] old_entries[q].0,
                        x.0,
                    ) by {
                        assert(seq_less(tags@[q].Name@, name@));
                    }
                    lemma_first_entries_insert(stream, old_entries, name_less(), x, k as int);
                }
                let tag = Tag { Id: -1, Name: name.clone(), Created: item.Created };
                tags.insert(k, tag);
                assert(tag_entries(tags@) =~= old_entries.insert(k as int, x));
            }
            j = j + 1;
        }
        assert(item_tag_entries(*item).take(m as int) =~= item_tag_entries(*item));
        assert(items@.take(i + 1).drop_last() =~= items@.take(i as int));
        assert(items@.take(i + 1).last() == items@[i as int]);
        i = i + 1;
    }
    assert(items@.take(n as int) =~= items@);
    proof {
        lemma_first_entries_are_sorted_first_entries(
            tag_stream(items@),
            tag_entries(tags@),
            name_less(),
        );
    }
    tags
}

/// Inserts each tag of the items once, in name order, with the creation
/// date of the first item that has it; tags that exist already are kept.
pub fn mytags_to_dbinsert(db_name: &str, items: &Vec<Item>) -> (r: String)
    ensures
        r@ == tags_insert_text(db_name@, items@),
{
    let tags = sorted_unique_tags(items);
    let ghost rows_spec = Seq::new(
        unique_tags(items@).len(),
        |i: int| entry_tag_row(unique_tags(items@)[i]),
    );
    let mut rows: Vec<String> = Vec::new();
    let n = tags.len();
    let mut i: usize = 0;
    assert(tag_entries(tags@).len() == n);
    while i < n
        invariant
            n == tags@.len(),
            i <= n,
            tag_entries(tags@) == unique_tags(items@),
            rows_spec == Seq::new(
                unique_tags(items@).len(),
                |i: int| entry_tag_row(unique_tags(items@)[i]),
            ),
            rows_spec.len() == n,
            views(rows@) == rows_spec.take(i as int),
        decreases n - i,
    {
        let ghost before = views(rows@);
        let row = mytag_to_dbrow(&tags[i]);
        assert(tag_entries(tags@)[i as int] == tag_entry(tags@[i as int]));
        assert(row@ == entry_tag_row(unique_tags(items@)[i as int]));
        assert(rows_spec[i as int] == row@);
        rows.push(row);
        assert(views(rows@) =~= before.push(row@));
        assert(views(rows@) =~= rows_spec.take(i + 1));
        i = i + 1;
    }
    assert(rows_spec.take(n as int) =~= rows_spec);
    let mut r = String::from_str("INSERT IGNORE INTO `");
    r.append(db_name);
    r.append("`.`Tag` (\n    Name,\n    Created\n) VALUES (\n    ");
    let v = join_strings(&rows, "\n), (\n    ");
    r.append(v.as_str());
    r.append("\n);");
    r
}

/// The dates of one item.
pub open spec fn item_date_entries(item: Item) -> Seq<(CalendarDate, ())> {
    Seq::new(item.Dates@.len(), |j: int| (item.Dates@[j], ()))
}

/// The dates of the items in order.
pub open spec fn date_stream(items: Seq<Item>) -> Seq<(CalendarDate, ())>
    decreases items.len(),
{
    if items.len() == 0 {
        Seq::empty()
    } else {
        date_stream(items.drop_last()) + item_date_entries(items.last())
    }
}

/// Each date of the items once, in day order.
pub open spec fn unique_dates(items: Seq<Item>) -> Seq<(CalendarDate, ())> {
    sorted_first_entries(date_stream(items), day_less())
}

/// The days of date rows.
pub open spec fn date_entries(ds: Seq<Date>) -> Seq<(CalendarDate, ())> {
    Seq::new(ds.len(), |i: int| (ds[i].Date, ()))
}

/// The statement inserting each date of the items once, in day order.
pub open spec fn dates_insert_text(db_name: Seq<char>, items: Seq<Item>) -> Seq<char> {
    let rows = Seq::new(
        unique_dates(items).len(),
        |i: int| date_row(Some(unique_dates(items)[i].0)),
    );
    "INSERT IGNORE INTO `"@ + db_name + "`.`Date` (\n    Date\n) VALUES (\n    "@ + join(
        rows,
        "\n), (\n    "@,
    ) + "\n);"@
}

/// Each date of the items once, in day order.
pub fn sorted_unique_dates(items: &Vec<Item>) -> (r: Vec<Date>)
    ensures
        date_entries(r@) == unique_dates(items@),
        forall|i: int| 0 <= i < r@.len() ==> #[trigger] r@[i].Id == -1,
{
    let mut dates: Vec<Date> = Vec::new();
    let n = items.len();
    let mut i: usize = 0;
    proof {
        lemma_day_less_strict_total();
        assert(date_entries(dates@) =~= Seq::<(CalendarDate, ())>::empty());
        assert(date_stream(items@.take(0)) =~= Seq::<(CalendarDate, ())>::empty());
    }
    while i < n
        invariant
            n == items@.len(),
            i <= n,
            strict_total(day_less()),
            first_entries(date_stream(items@.take(i as int)), date_entries(dates@), day_less()),
            forall|k: int| 0 <= k < dates@.len() ==> #[trigger] dates@[k].Id == -1,
        decreases n - i,
    {
        let item = &items[i];
        let ghost prefix = date_stream(items@.take(i as int));
        let m = item.Dates.len();
        let mut j: usize = 0;
        assert(item_date_entries(*item).take(0) =~= Seq::<(CalendarDate, ())>::empty());
        assert(prefix + item_date_entries(*item).take(0) =~= prefix);
        while j < m
            invariant
                n == items@.len(),
                i < n,
                item == &items@[i as int],
                m == item.Dates@.len(),
                j <= m,
                strict_total(day_less()),
                prefix == date_stream(items@.take(i as int)),
                first_entries(
                    prefix + item_date_entries(*item).take(j as int),
                    date_entries(dates@),
                    day_less(),
                ),
                forall|k: int| 0 <= k < dates@.len() ==> #[trigger] dates@[k].Id == -1,
            decreases m - j,
        {
            let day = item.Dates[j];
            let ghost stream = prefix + item_date_entries(*item).take(j as int);
            let ghost x = (day, ());
            assert(prefix + item_date_entries(*item).take(j + 1) =~= stream.push(x));
            let len = dates.len();
            let mut k: usize = 0;
            while k < len && dates[k].Date.is_before(&day)
                invariant
                    len == dates@.len(),
                    k <= len,
                    forall|q: int| 0 <= q < k ==> ymd_less(#[trigger] dates@[q].Date.ymd(), day.ymd()),
                decreases len - k,
            {
                k = k + 1;
            }
            if k < len && !day.is_before(&dates[k].Date) {
                proof {
                    CalendarDate::lemma_ymd_injective(dates@[k as int].Date, day);
                    lemma_first_entries_skip(stream, date_entries(dates@), day_less(), x, k as int);
                }
            } else {
                let ghost old_entries = date_entries(dates@);
                proof {
                    assert forall|q: int| 0 <= q < k implies day_less()(
                        #[trigger] old_entries[q].0,
                        x.0,
                    ) by {
                        assert(ymd_less(dates@[q].Date.ymd(), day.ymd()));
                    }
                    lemma_first_entries_insert(stream, old_entries, day_less(), x, k as int);
                }
                dates.insert(k, Date { Id: -1, Date: day });
                assert(date_entries(dates@) =~= old_entries.insert(k as int, x));
            }
            j = j + 1;
        }
        assert(item_date_entries(*item).take(m as int) =~= item_date_entries(*item));
        assert(items@.take(i + 1).drop_last() =~= items@.take(i as int));
        assert(items@.take(i + 1).last() == items@[i as int]);
        i = i + 1;
    }
    assert(items@.take(n as int) =~= items@);
    proof {
        lemma_first_entries_are_sorted_first_entries(
            date_stream(items@),
            date_entries(dates@),
            day_less(),
        );
    }
    dates
}

/// Inserts each date of the items once, in day order; dates that exist
/// already are kept.
pub fn mydates_to_dbinsert(db_name: &str, items: &Vec<Item>) -> (r: String)
    ensures
        r@ == dates_insert_text(db_name@, items@),
{
    let dates = sorted_unique_dates(items);
    let ghost rows_spec = Seq::new(
        unique_dates(items@).len(),
        |i: int| date_row(Some(unique_dates(items@)[i].0)),
    );
    let mut rows: Vec<String> = Vec::new();
    let n = dates.len();
    let mut i: usize = 0;
    assert(date_entries(dates@).len() == n);
    while i < n
        invariant
            n == dates@.len(),
            i <= n,
            date_entries(dates@) == unique_dates(items@),
            rows_spec == Seq::new(
                unique_dates(items@).len(),
                |i: int| date_row(Some(unique_dates(items@)[i].0)),
            ),
            rows_spec.len() == n,
            views(rows@) == rows_spec.take(i as int),
        decreases n - i,
    {
        let ghost before = views(rows@);
        let row = super::dbstring::date_to_dbrow(&Some(dates[i].Date));
        assert(date_entries(dates@)[i as int] == (dates@[i as int].Date, ()));
        assert(rows_spec[i as int] == row@);
        rows.push(row);
        assert(views(rows@) =~= before.push(row@));
        assert(views(rows@) =~= rows_spec.take(i + 1));
        i = i + 1;
    }
    assert(rows_spec.take(n as int) =~= rows_spec);
    let mut r = String::from_str("INSERT IGNORE INTO `");
    r.append(db_name);
    r.append("`.`Date` (\n    Date\n) VALUES (\n    ");
    let v = join_strings(&rows, "\n), (\n    ");
    r.append(v.as_str());
    r.append("\n);");
    r
}


/// The item name and tag name of each tag of one item.
pub open spec fn item_tag_pairs(item: Item) -> Seq<(Seq<char>, Seq<char>)> {
    Seq::new(item.Tags@.len(), |j: int| (item.Name@, item.Tags@[j]@))
}

/// Item name and tag name of each tag of the items, in order.
pub open spec fn tag_pair_stream(items: Seq<Item>) -> Seq<(Seq<char>, Seq<char>)>
    decreases items.len(),
{
    if items.len() == 0 {
        Seq::empty()
    } else {
        tag_pair_stream(items.drop_last()) + item_tag_pairs(items.last())
    }
}

/// The item name and date of each date of one item.
pub open spec fn item_date_pairs(item: Item) -> Seq<(Seq<char>, CalendarDate)> {
    Seq::new(item.Dates@.len(), |j: int| (item.Name@, item.Dates@[j]))
}

/// Item name and date of each date of the items, in order.
pub open spec fn date_pair_stream(items: Seq<Item>) -> Seq<(Seq<char>, CalendarDate)>
    decreases items.len(),
{
    if items.len() == 0 {
        Seq::empty()
    } else {
        date_pair_stream(items.drop_last()) + item_date_pairs(items.last())
    }
}

/// The item name and tag name of each tag of the items, in order: the links
/// to make between items and tags.
pub fn itemhastag_pairs(items: &Vec<Item>) -> (r: Vec<(String, String)>)
    ensures
        r@.len() == tag_pair_stream(items@).len(),
        forall|k: int|
            0 <= k < r@.len() ==> (#[trigger] r@[k]).0@ == tag_pair_stream(items@)[k].0 && r@[k].1@
                == tag_pair_stream(items@)[k].1,
{
    let mut r: Vec<(String, String)> = Vec::new();
    let n = items.len();
    let mut i: usize = 0;
    assert(tag_pair_stream(items@.take(0)) =~= Seq::<(Seq<char>, Seq<char>)>::empty());
    while i < n
        invariant
            n == items@.len(),
            i <= n,
            r@.len() == tag_pair_stream(items@.take(i as int)).len(),
            forall|k: int|
                0 <= k < r@.len() ==> (#[trigger] r@[k]).0@ == tag_pair_stream(items@.take(i as int))[k].0
                    && r@[k].1@ == tag_pair_stream(items@.take(i as int))[k].1,
        decreases n - i,
    {
        let item = &items[i];
        let ghost prefix = tag_pair_stream(items@.take(i as int));
        let m = item.Tags.len();
        let mut j: usize = 0;
        while j < m
            invariant
                i < n,
                n == items@.len(),
                item == &items@[i as int],
                m == item.Tags@.len(),
                j <= m,
                prefix == tag_pair_stream(items@.take(i as int)),
                r@.len() == prefix.len() + j,
                forall|k: int|
                    0 <= k < r@.len() ==> (#[trigger] r@[k]).0@ == (prefix + item_tag_pairs(
                        *item,
                    ))[k].0 && r@[k].1@ == (prefix + item_tag_pairs(*item))[k].1,
            decreases m - j,
        {
            r.push((item.Name.clone(), item.Tags[j].clone()));
            j = j + 1;
        }
        assert(items@.take(i + 1).drop_last() =~= items@.take(i as int));
        assert(items@.take(i + 1).last() == items@[i as int]);
        assert(tag_pair_stream(items@.take(i + 1)) =~= prefix + item_tag_pairs(*item));
        i = i + 1;
    }
    assert(items@.take(n as int) =~= items@);
    r
}

/// The item name and date of each date of the items, in order: the links
/// to make between items and dates.
pub fn itemhasdate_pairs(items: &Vec<Item>) -> (r: Vec<(String, CalendarDate)>)
    ensures
        r@.len() == date_pair_stream(items@).len(),
        forall|k: int|
            0 <= k < r@.len() ==> (#[trigger] r@[k]).0@ == date_pair_stream(items@)[k].0 && r@[k].1
                == date_pair_stream(items@)[k].1,
{
    let mut r: Vec<(String, CalendarDate)> = Vec::new();
    let n = items.len();
    let mut i: usize = 0;
    assert(date_pair_stream(items@.take(0)) =~= Seq::<(Seq<char>, CalendarDate)>::empty());
    while i < n
        invariant
            n == items@.len(),
            i <= n,
            r@.len() == date_pair_stream(items@.take(i as int)).len(),
            forall|k: int|
                0 <= k < r@.len() ==> (#[trigger] r@[k]).0@ == date_pair_stream(items@.take(i as int))[k].0
                    && r@[k].1 == date_pair_stream(items@.take(i as int))[k].1,
        decreases n - i,
    {
        let item = &items[i];
        let ghost prefix = date_pair_stream(items@.take(i as int));
        let m = item.Dates.len();
        let mut j: usize = 0;
        while j < m
            invariant
                i < n,
                n == items@.len(),
                item == &items@[i as int],
                m == item.Dates@.len(),
                j <= m,
                prefix == date_pair_stream(items@.take(i as int)),
                r@.len() == prefix.len() + j,
                forall|k: int|
                    0 <= k < r@.len() ==> (#[trigger] r@[k]).0@ == (prefix + item_date_pairs(
                        *item,
                    ))[k].0 && r@[k].1 == (prefix + item_date_pairs(*item))[k].1,
            decreases m - j,
        {
            r.push((item.Name.clone(), item.Dates[j]));
            j = j + 1;
        }
        assert(items@.take(i + 1).drop_last() =~= items@.take(i as int));
        assert(items@.take(i + 1).last() == items@[i as int]);
        assert(date_pair_stream(items@.take(i + 1)) =~= prefix + item_date_pairs(*item));
        i = i + 1;
    }
    assert(items@.take(n as int) =~= items@);
    r
}

/// The statement that links the item named by the first placeholder to the
/// tag named by the second.
pub open spec fn itemhastag_insert_text(db_name: Seq<char>) -> Seq<char> {
    "\nINSERT INTO `"@ + db_name + "`.`Item_has_Tag`\n    (`Item_Id`, `Tag_Id`)\nSELECT\n    a.`Id`, b.`Id`\nFROM\n    `"@
        + db_name + "`.`Item` as a\n    JOIN\n    `"@ + db_name
        + "`.`Tag` as b\nWHERE\n    a.`Name` = ?\n    AND\n    b.`Name` = ?\nON DUPLICATE KEY UPDATE\n    `Item_Id` = a.`Id`,\n    `Tag_Id` = b.`Id`\n;\n            "@
}

/// Links the item named by the first placeholder to the tag named by the
/// second.
pub fn itemhastag_insert_sql(db_name: &str) -> (r: String)
    ensures
        r@ == itemhastag_insert_text(db_name@),
{
    let mut r = String::from_str("\nINSERT INTO `");
    r.append(db_name);
    r.append("`.`Item_has_Tag`\n    (`Item_Id`, `Tag_Id`)\nSELECT\n    a.`Id`, b.`Id`\nFROM\n    `");
    r.append(db_name);
    r.append("`.`Item` as a\n    JOIN\n    `");
    r.append(db_name);
    r.append(
        "`.`Tag` as b\nWHERE\n    a.`Name` = ?\n    AND\n    b.`Name` = ?\nON DUPLICATE KEY UPDATE\n    `Item_Id` = a.`Id`,\n    `Tag_Id` = b.`Id`\n;\n            ",
    );
    r
}

/// The statement that links the item named by the first placeholder to the
/// date given by the second.
pub open spec fn itemhasdate_insert_text(db_name: Seq<char>) -> Seq<char> {
    "\nINSERT INTO `"@ + db_name + "`.`Item_has_Date`\n    (`Item_Id`, `Date_Id`)\nSELECT\n    a.`Id`, b.`Id`\nFROM\n    `"@
        + db_name + "`.`Item` as a\n    JOIN\n    `"@ + db_name
        + "`.`Date` as b\nWHERE\n    a.`Name` = ?\n    AND\n    b.`Date` = ?\nON DUPLICATE KEY UPDATE\n    `Item_Id` = a.`Id`,\n    `Date_Id` = b.`Id`\n;\n            "@
}

/// Links the item named by the first placeholder to the date given by the
/// second.
pub fn itemhasdate_insert_sql(db_name: &str) -> (r: String)
    ensures
        r@ == itemhasdate_insert_text(db_name@),
{
    let mut r = String::from_str("\nINSERT INTO `");
    r.append(db_name);
    r.append("`.`Item_has_Date`\n    (`Item_Id`, `Date_Id`)\nSELECT\n    a.`Id`, b.`Id`\nFROM\n    `");
    r.append(db_name);
    r.append("`.`Item` as a\n    JOIN\n    `");
    r.append(db_name);
    r.append(
        "`.`Date` as b\nWHERE\n    a.`Name` = ?\n    AND\n    b.`Date` = ?\nON DUPLICATE KEY UPDATE\n    `Item_Id` = a.`Id`,\n    `Date_Id` = b.`Id`\n;\n            ",
    );
    r
}

/// The statement linking the item named `item` to the tag named `tag`,
/// with the names written into it.
pub open spec fn link_text(db_name: Seq<char>, item: Seq<char>, tag: Seq<char>) -> Seq<char> {
    "\nINSERT INTO `"@ + db_name + "`.`Item_has_Tag`\n    (`Item_Id`, `Tag_Id`)\nSELECT\n    a.`Id`, b.`Id`\nFROM\n    `"@
        + db_name + "`.`Item` as a\n    JOIN\n    `"@ + db_name
        + "`.`Tag` as b\nWHERE\n    a.`Name` = '"@ + item + "'\n    AND\n    b.`Name` = '"@ + tag
        + "'\nON DUPLICATE KEY UPDATE\n    `Item_Id` = a.`Id`,\n    `Tag_Id` = b.`Id`\n;\n                        "@
}

/// The link statements for every tag of the items, in order, one after the
/// other.
pub open spec fn itemhastag_text(db_name: Seq<char>, items: Seq<Item>) -> Seq<char> {
    let pairs = tag_pair_stream(items);
    join(Seq::new(pairs.len(), |k: int| link_text(db_name, pairs[k].0, pairs[k].1)), "\n"@)
}

/// Writes one statement per tag of the items that links the item to the
/// tag, the names written into the statements.
pub fn itemhastag_to_dbinsert(db_name: &str, items: &Vec<Item>) -> (r: String)
    ensures
        r@ == itemhastag_text(db_name@, items@),
{
    let pairs = itemhastag_pairs(items);
    let ghost ps = tag_pair_stream(items@);
    let ghost texts = Seq::new(ps.len(), |k: int| link_text(db_name@, ps[k].0, ps[k].1));
    let mut item_has_tag: Vec<String> = Vec::new();
    let n = pairs.len();
    let mut k: usize = 0;
    while k < n
        invariant
            n == pairs@.len(),
            n == ps.len(),
            k <= n,
            ps == tag_pair_stream(items@),
            texts == Seq::new(ps.len(), |k: int| link_text(db_name@, ps[k].0, ps[k].1)),
            forall|q: int|
                0 <= q < pairs@.len() ==> (#[trigger] pairs@[q]).0@ == ps[q].0 && pairs@[q].1@
                    == ps[q].1,
            views(item_has_tag@) == texts.take(k as int),
        decreases n - k,
    {
        let mut t = String::from_str("\nINSERT INTO `");
        t.append(db_name);
        t.append("`.`Item_has_Tag`\n    (`Item_Id`, `Tag_Id`)\nSELECT\n    a.`Id`, b.`Id`\nFROM\n    `");
        t.append(db_name);
        t.append("`.`Item` as a\n    JOIN\n    `");
        t.append(db_name);
        t.append("`.`Tag` as b\nWHERE\n    a.`Name` = '");
        t.append(pairs[k].0.as_str());
        t.append("'\n    AND\n    b.`Name` = '");
        t.append(pairs[k].1.as_str());
        t.append(
            "'\nON DUPLICATE KEY UPDATE\n    `Item_Id` = a.`Id`,\n    `Tag_Id` = b.`Id`\n;\n                        ",
        );
        let ghost before = views(item_has_tag@);
        assert(t@ == texts[k as int]);
        item_has_tag.push(t);
        assert(views(item_has_tag@) =~= before.push(t@));
        assert(views(item_has_tag@) =~= texts.take(k + 1));
        k = k + 1;
    }
    assert(texts.take(n as int) =~= texts);
    join_strings(&item_has_tag, "\n")
}

/// The statements of a script: the trimmed, non-empty pieces between the
/// `;`s, each ended with `;` again.
pub open spec fn statements_of(pieces: Seq<Seq<char>>) -> Seq<Seq<char>>
    decreases pieces.len(),
{
    if pieces.len() == 0 {
        Seq::empty()
    } else {
        let r = statements_of(pieces.drop_last());
        let t = trim(pieces.last());
        if t.len() > 0 {
            r.push(t + ";"@)
        } else {
            r
        }
    }
}

/// The statements of an SQL script, in order, as the schema reset runs them.
pub fn sql_statements(sql: &str) -> (r: Vec<String>)
    ensures
        views(r@) == statements_of(split_on(sql@, ';')),
{
    let pieces = split_pieces(sql, ';');
    let ghost ps = split_on(sql@, ';');
    let mut r: Vec<String> = Vec::new();
    let n = pieces.len();
    let mut i: usize = 0;
    assert(ps.take(0) =~= Seq::<Seq<char>>::empty());
    while i < n
        invariant
            n == pieces@.len(),
            i <= n,
            ps == split_on(sql@, ';'),
            str_views(pieces@) == ps,
            views(r@) == statements_of(ps.take(i as int)),
        decreases n - i,
    {
        let t = trim_str(pieces[i]);
        assert(ps.take(i + 1).drop_last() =~= ps.take(i as int));
        assert(ps.take(i + 1).last() == pieces@[i as int]@);
        if !t.is_empty() {
            let mut st = String::from_str(t);
            st.append(";");
            let ghost before = views(r@);
            r.push(st);
            assert(views(r@) =~= before.push(st@));
        }
        i = i + 1;
    }
    assert(ps.take(n as int) =~= ps);
    r
}


/// Statements made from pieces that hold no `;`: each ends with its one
/// `;`, and the text before it is non-empty and trimmed.
proof fn lemma_statements_end_once(pieces: Seq<Seq<char>>)
    requires
        forall|i: int| 0 <= i < pieces.len() ==> !(#[trigger] pieces[i]).contains(';'),
    ensures
        forall|i: int|
            0 <= i < statements_of(pieces).len() ==> statement_settled(
                #[trigger] statements_of(pieces)[i],
            ),
    decreases pieces.len(),
{
    if pieces.len() > 0 {
        let rest = pieces.drop_last();
        assert forall|i: int| 0 <= i < rest.len() implies !(#[trigger] rest[i]).contains(';') by {
            assert(rest[i] == pieces[i]);
        }
        lemma_statements_end_once(rest);
        let t = trim(pieces.last());
        crate::text::lemma_trim_settled(pieces.last(), ';');
        assert(!pieces.last().contains(';')) by {
            assert(pieces.last() == pieces[pieces.len() - 1]);
        }
        let r = statements_of(rest);
        if t.len() > 0 {
            reveal_strlit(";");
            let st = t + ";"@;
            assert(st.drop_last() =~= t);
            assert(st.last() == ';');
            assert(statement_settled(st));
            assert(statements_of(pieces) == r.push(st));
            assert forall|i: int| 0 <= i < r.push(st).len() implies statement_settled(
                #[trigger] r.push(st)[i],
            ) by {
                if i < r.len() {
                    assert(r.push(st)[i] == r[i]);
                }
            }
        } else {
            assert(statements_of(pieces) == r);
        }
    }
}

proof fn lemma_statements_are_nonblank_pieces(pieces: Seq<Seq<char>>)
    ensures
        statements_of(pieces) == pieces.filter(|p: Seq<char>| trim(p).len() > 0).map_values(
            |p: Seq<char>| trim(p) + ";"@,
        ),
    decreases pieces.len(),
{
    let f = |p: Seq<char>| trim(p).len() > 0;
    let g = |p: Seq<char>| trim(p) + ";"@;
    reveal(Seq::filter);
    if pieces.len() > 0 {
        lemma_statements_are_nonblank_pieces(pieces.drop_last());
        let sub = pieces.drop_last().filter(f);
        assert(pieces.filter(f) == if f(pieces.last()) { sub.push(pieces.last()) } else { sub });
        if f(pieces.last()) {
            assert(sub.push(pieces.last()).map_values(g) =~= sub.map_values(g).push(g(pieces.last())));
        }
    } else {
        assert(pieces.filter(f) =~= Seq::<Seq<char>>::empty());
        assert(pieces.filter(f).map_values(g) =~= Seq::<Seq<char>>::empty());
    }
}

/// The statements of a script are its non-blank pieces between `;`s, in
/// order, each trimmed and ended with `;`: no piece with text is dropped,
/// and a blank one gives no statement.
pub proof fn law_statements_are_nonblank_pieces(sql: Seq<char>)
    ensures
        statements_of(split_on(sql, ';')) == split_on(sql, ';').filter(
            |p: Seq<char>| trim(p).len() > 0,
        ).map_values(|p: Seq<char>| trim(p) + ";"@),
{
    lemma_statements_are_nonblank_pieces(split_on(sql, ';'));
}

/// A statement of a script: non-empty trimmed text without `;`, then `;`.
pub open spec fn statement_settled(st: Seq<char>) -> bool {
    &&& st.len() >= 2
    &&& st.last() == ';'
    &&& !st.drop_last().contains(';')
    &&& trim(st.drop_last()) == st.drop_last()
}

/// Each statement a script is split into is non-empty trimmed text that
/// holds no `;`, followed by the one `;` that ends it.
pub proof fn law_statements_end_once(sql: Seq<char>)
    ensures
        forall|i: int|
            0 <= i < statements_of(split_on(sql, ';')).len() ==> statement_settled(
                #[trigger] statements_of(split_on(sql, ';'))[i],
            ),
{
    crate::text::law_split_pieces_lack_separator(sql, ';');
    lemma_statements_end_once(split_on(sql, ';'));
}

/// The tags an insert statement writes hold each tag name of the items once,
/// in name order, each with the creation date of the first item that has
/// that tag.
pub proof fn law_tags_once_in_name_order(items: Seq<Item>)
    ensures
        key_sorted(unique_tags(items), name_less()),
        forall|x: (Seq<char>, Option<CalendarDate>)|
            #[trigger] unique_tags(items).contains(x) <==> first_value(tag_stream(items), x.0)
                == Some(x.1),
{
    lemma_name_less_strict_total();
    lemma_sorted_first_entries(tag_stream(items), name_less());
}

/// The dates an insert statement writes hold each date of the items once,
/// in day order.
pub proof fn law_dates_once_in_day_order(items: Seq<Item>)
    ensures
        key_sorted(unique_dates(items), day_less()),
        forall|x: (CalendarDate, ())|
            #[trigger] unique_dates(items).contains(x) <==> first_value(date_stream(items), x.0)
                == Some(x.1),
{
    lemma_day_less_strict_total();
    lemma_sorted_first_entries(date_stream(items), day_less());
}

} // verus!
