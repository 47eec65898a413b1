//! The texts values take in INSERT statements.
use vstd::prelude::*;
use vstd::string::StringExecFns;
use crate::calendar::{date_text, CalendarDate};
use crate::text::{join, join_strings, views};
use super::{Item, Tag, DT_FORMAT};

verus! {

/// `s` between single quotes.
pub open spec fn quoted(s: Seq<char>) -> Seq<char> {
    "'"@ + s + "'"@
}

/// An optional text: quoted, or NULL.
pub open spec fn string_row(input: Option<String>) -> Seq<char> {
    match input {
        Some(s) => quoted(s@),
        None => "NULL"@,
    }
}

/// A date written with `DT_FORMAT`.
pub open spec fn date_dash_text(d: CalendarDate) -> Seq<char> {
    date_text(d.ymd().0, d.ymd().1, d.ymd().2, '-')
}

/// An optional date: written with `DT_FORMAT` and quoted, or NULL.
pub open spec fn date_row(date: Option<CalendarDate>) -> Seq<char> {
    match date {
        Some(d) => quoted(date_dash_text(d)),
        None => "NULL"@,
    }
}

/// The values of an item in its row: name, description, arrival, expiry
/// and creation date, separated by ",\n    ".
pub open spec fn item_row(item: Item) -> Seq<char> {
    join(
        seq![
            quoted(item.Name@),
            string_row(item.Description),
            date_row(item.Arrival),
            date_row(item.Expiry),
            date_row(item.Created),
        ],
        ",\n    "@,
    )
}

/// The values of a tag in its row: name and creation date.
pub open spec fn tag_row(tag: Tag) -> Seq<char> {
    join(seq![quoted(tag.Name@), date_row(tag.Created)], ",\n    "@)
}

/// An optional date as the value an insert writes: its `%Y-%m-%d` text
/// between single quotes, or NULL when there is no date.
pub open spec fn day_value(date: Option<CalendarDate>) -> Seq<char> {
    match date {
        Some(d) => "'"@ + date_text(d.ymd().0, d.ymd().1, d.ymd().2, '-') + "'"@,
        None => "NULL"@,
    }
}

/// The row of an item holds, in this order and separated by ",\n    ", its
/// quoted name, its quoted description or NULL, and its arrival, expiry and
/// creation dates as `%Y-%m-%d` text in quotes or NULL; a tag's row holds its
/// quoted name and its creation date the same way.
pub proof fn law_rows_hold_each_field(item: Item, tag: Tag)
    ensures
        item_row(item) == "'"@ + item.Name@ + "'"@ + ",\n    "@ + (match item.Description {
            Some(s) => "'"@ + s@ + "'"@,
            None => "NULL"@,
        }) + ",\n    "@ + day_value(item.Arrival) + ",\n    "@ + day_value(item.Expiry) + ",\n    "@
            + day_value(item.Created),
        tag_row(tag) == "'"@ + tag.Name@ + "'"@ + ",\n    "@ + day_value(tag.Created),
{
    let sep = ",\n    "@;
    let p = seq![
        quoted(item.Name@),
        string_row(item.Description),
        date_row(item.Arrival),
        date_row(item.Expiry),
        date_row(item.Created),
    ];
    assert(p.drop_last() =~= seq![quoted(item.Name@), string_row(item.Description), date_row(item.Arrival), date_row(item.Expiry)]);
    assert(p.drop_last().drop_last() =~= seq![quoted(item.Name@), string_row(item.Description), date_row(item.Arrival)]);
    assert(p.drop_last().drop_last().drop_last() =~= seq![quoted(item.Name@), string_row(item.Description)]);
    assert(p.drop_last().drop_last().drop_last().drop_last() =~= seq![quoted(item.Name@)]);
    assert(join(seq![quoted(item.Name@)], sep) == quoted(item.Name@));
    let j2 = quoted(item.Name@) + sep + string_row(item.Description);
    assert(join(p.drop_last().drop_last().drop_last(), sep) == j2);
    let j3 = j2 + sep + date_row(item.Arrival);
    assert(join(p.drop_last().drop_last(), sep) == j3);
    let j4 = j3 + sep + date_row(item.Expiry);
    assert(join(p.drop_last(), sep) == j4);
    assert(join(p, sep) == j4 + sep + date_row(item.Created));
    assert(item_row(item) == join(p, sep));
    assert(string_row(item.Description) == (match item.Description {
        Some(s) => "'"@ + s@ + "'"@,
        None => "NULL"@,
    }));
    assert(item_row(item) =~= "'"@ + item.Name@ + "'"@ + ",\n    "@ + (match item.Description {
        Some(s) => "'"@ + s@ + "'"@,
        None => "NULL"@,
    }) + ",\n    "@ + day_value(item.Arrival) + ",\n    "@ + day_value(item.Expiry) + ",\n    "@
        + day_value(item.Created));
    let q = seq![quoted(tag.Name@), date_row(tag.Created)];
    assert(q.drop_last() =~= seq![quoted(tag.Name@)]);
    assert(join(seq![quoted(tag.Name@)], sep) == quoted(tag.Name@));
}

fn quote(s: &str) -> (r: String)
    ensures
        r@ == quoted(s@),
{
    let mut r = String::from_str("'");
    r.append(s);
    r.append("'");
    r
}

/// An optional text as a value: quoted, or NULL.
pub fn string_to_dbrow(input: &Option<String>) -> (r: String)
    ensures
        r@ == string_row(*input),
{
    match input {
        Some(s) => quote(s.as_str()),
        None => String::from_str("NULL"),
    }
}

/// An optional date as a value: written with `DT_FORMAT` and quoted, or NULL.
pub fn date_to_dbrow(date: &Option<CalendarDate>) -> (r: String)
    ensures
        r@ == date_row(*date),
{
    match date {
        Some(s) => {
            proof {
                reveal_strlit("%Y-%m-%d");
                assert(DT_FORMAT@ == "%Y-%m-%d"@);
                assert("%Y-%m-%d"@ =~= crate::calendar::date_pattern('-'));
            }
            let text = s.format(DT_FORMAT);
            quote(text.as_str())
        },
        None => String::from_str("NULL"),
    }
}

/// The values of an item's row.
pub fn myitem_to_dbrow(item: &Item) -> (r: String)
    ensures
        r@ == item_row(*item),
{
    let mut parts: Vec<String> = Vec::new();
    parts.push(quote(item.Name.as_str()));
    parts.push(string_to_dbrow(&item.Description));
    parts.push(date_to_dbrow(&item.Arrival));
    parts.push(date_to_dbrow(&item.Expiry));
    parts.push(date_to_dbrow(&item.Created));
    let r = join_strings(&parts, ",\n    ");
    assert(views(parts@) =~= seq![
        quoted(item.Name@),
        string_row(item.Description),
        date_row(item.Arrival),
        date_row(item.Expiry),
        date_row(item.Created),
    ]);
    r
}

/// The values of a tag's row.
pub fn mytag_to_dbrow(tag: &Tag) -> (r: String)
    ensures
        r@ == tag_row(*tag),
{
    let mut parts: Vec<String> = Vec::new();
    parts.push(quote(tag.Name.as_str()));
    parts.push(date_to_dbrow(&tag.Created));
    let r = join_strings(&parts, ",\n    ");
    assert(views(parts@) =~= seq![quoted(tag.Name@), date_row(tag.Created)]);
    r
}

} // verus!
