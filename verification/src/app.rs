//! Decisions of the command line program that do not touch the database.
use vstd::prelude::*;
use crate::myquery::select::{
    needle_piece_total, select_sql, select_statement, whens_needles, whens_view, Statement,
};
use crate::myquery::{needle_pieces_fit, Agg, Item, When, MAIN_TABLE};
use crate::text::{join, join_strings, str_eq, views};

verus! {

/// How an item is asked for: by id or by name.
pub enum GetItem {
    Id { id: i32 },
    Name { name: String },
}

/// What `str::to_lowercase` gives for a text.
pub uninterp spec fn lowercase(s: Seq<char>) -> Seq<char>;

/// Calls `str::to_lowercase`. Claimed: the result is `lowercase` of the
/// text (a function of the text alone). Not said: what the lowercase
/// mapping is.
#[verifier::external_body]
fn to_lowercase(s: &str) -> (r: String)
    ensures
        r@ == lowercase(s@),
{
    s.to_lowercase()
}

/// The needle of a search for any of the strings: the strings joined with
/// `|`.
pub fn search_needle(strings: &Vec<String>) -> (r: String)
    ensures
        r@ == join(views(strings@), "|"@),
{
    join_strings(strings, "|")
}

/// Whether the tags hold the text.
pub open spec fn has_tag(tags: Seq<String>, t: Seq<char>) -> bool {
    exists|i: int| 0 <= i < tags.len() && tags[i]@ == t
}

/// A text is a tag exactly when some tag equals it character for character;
/// a text that only starts a tag, or that a tag only starts, is none.
pub proof fn law_tag_is_an_equal_text(tags: Seq<String>, t: Seq<char>)
    ensures
        has_tag(tags, t) <==> views(tags).contains(t),
{
    if has_tag(tags, t) {
        let i = choose|i: int| 0 <= i < tags.len() && tags[i]@ == t;
        assert(views(tags)[i] == t);
    }
    if views(tags).contains(t) {
        let i = choose|i: int| 0 <= i < views(tags).len() && views(tags)[i] == t;
        assert(tags[i]@ == t);
    }
}

/// The tags a search reports for an item are tags of the item, each the
/// lowercase of one of the search strings; and the lowercase of every search
/// string that is a tag of the item is reported.
pub proof fn law_reported_tags_are_equal_tags(tags: Seq<String>, strings: Seq<Seq<char>>)
    ensures
        matching_tag_texts(tags, strings).len() <= strings.len(),
        forall|k: int|
            0 <= k < matching_tag_texts(tags, strings).len() ==> views(tags).contains(
                #[trigger] matching_tag_texts(tags, strings)[k],
            ) && exists|j: int| 0 <= j < strings.len() && lowercase(strings[j]) == matching_tag_texts(tags, strings)[k],
        forall|j: int|
            0 <= j < strings.len() && views(tags).contains(#[trigger] lowercase(strings[j])) ==> matching_tag_texts(
                tags,
                strings,
            ).contains(lowercase(strings[j])),
    decreases strings.len(),
{
    if strings.len() > 0 {
        let rest = strings.drop_last();
        law_reported_tags_are_equal_tags(tags, rest);
        let r = matching_tag_texts(tags, rest);
        let l = lowercase(strings.last());
        law_tag_is_an_equal_text(tags, l);
        let m = matching_tag_texts(tags, strings);
        assert forall|k: int| 0 <= k < m.len() implies views(tags).contains(#[trigger] m[k]) && exists|j: int|
            0 <= j < strings.len() && lowercase(strings[j]) == m[k] by {
            if k < r.len() {
                assert(m[k] == r[k]);
                let j = choose|j: int| 0 <= j < rest.len() && lowercase(rest[j]) == r[k];
                assert(strings[j] == rest[j]);
            } else {
                assert(m[k] == l);
                assert(strings[strings.len() - 1] == strings.last());
            }
        }
        assert forall|j: int| 0 <= j < strings.len() && views(tags).contains(#[trigger] lowercase(strings[j])) implies m.contains(
            lowercase(strings[j]),
        ) by {
            if j < rest.len() {
                assert(strings[j] == rest[j]);
                assert(r.contains(lowercase(rest[j])));
                let k = choose|k: int| 0 <= k < r.len() && r[k] == lowercase(rest[j]);
                assert(m[k] == r[k]);
            } else {
                assert(strings[j] == strings.last());
                assert(m[m.len() - 1] == l);
            }
        }
    }
}

/// The lowercased search strings that are tags of an item, in the order of
/// the strings.
pub open spec fn matching_tag_texts(tags: Seq<String>, strings: Seq<Seq<char>>) -> Seq<Seq<char>>
    decreases strings.len(),
{
    if strings.len() == 0 {
        Seq::empty()
    } else {
        let r = matching_tag_texts(tags, strings.drop_last());
        let l = lowercase(strings.last());
        if has_tag(tags, l) {
            r.push(l)
        } else {
            r
        }
    }
}

/// Whether the tags hold the text `t`.
pub fn tags_contain(tags: &Vec<String>, t: &str) -> (r: bool)
    ensures
        r == has_tag(tags@, t@),
        r == views(tags@).contains(t@),
{
    proof { law_tag_is_an_equal_text(tags@, t@); }
    let mut i: usize = 0;
    while i < tags.len()
        invariant
            i <= tags@.len(),
            forall|k: int| 0 <= k < i ==> tags@[k]@ != t@,
        decreases tags@.len() - i,
    {
        if str_eq(tags[i].as_str(), t) {
            assert(views(tags@)[i as int] == t@);
            return true;
        }
        i = i + 1;
    }
    false
}

/// The search strings, lowercased, that are tags of an item: the tags a
/// search reports for that item.
pub fn matching_tags(tags: &Vec<String>, strings: &Vec<String>) -> (r: Vec<String>)
    ensures
        views(r@) == matching_tag_texts(tags@, views(strings@)),
{
    let mut r: Vec<String> = Vec::new();
    let n = strings.len();
    let mut i: usize = 0;
    assert(views(strings@).take(0) =~= Seq::<Seq<char>>::empty());
    while i < n
        invariant
            n == strings@.len(),
            i <= n,
            views(r@) == matching_tag_texts(tags@, views(strings@).take(i as int)),
        decreases n - i,
    {
        let l = to_lowercase(strings[i].as_str());
        assert(views(strings@).take(i + 1).drop_last() =~= views(strings@).take(i as int));
        assert(views(strings@).take(i + 1).last() == strings@[i as int]@);
        if tags_contain(tags, l.as_str()) {
            let ghost before = views(r@);
            r.push(l);
            assert(views(r@) =~= before.push(l@));
        }
        i = i + 1;
    }
    assert(views(strings@).take(n as int) =~= views(strings@));
    r
}

/// The steps of a search by name, in the order they run: items whose names
/// start with the needle, items whose names match it as a pattern, and
/// items with a tag equal to it in lowercase.
#[derive(Clone, Copy, Debug, PartialEq, Eq)]
pub enum SearchTier {
    NameLike,
    NameMatch,
    TagEqual,
}

/// The table a step searches from, and its search.
pub open spec fn tier_query(tier: SearchTier, needle: Seq<char>) -> (
    Seq<char>,
    When<(Seq<char>, Seq<char>)>,
) {
    match tier {
        SearchTier::NameLike => ("item"@, When::Like(("name"@, needle))),
        SearchTier::NameMatch => ("item"@, When::Match(("name"@, needle))),
        SearchTier::TagEqual => ("tag"@, When::Equal(("name"@, lowercase(needle)))),
    }
}

/// The statement of one step of a search for `needle`: the items it finds,
/// without the ids in `minus`. `None` only when the needle holds too many
/// '|'-separated pieces to count in a `usize`.
pub fn search_statement(tier: SearchTier, needle: &str, minus: &Vec<i32>) -> (r: Option<Statement>)
    ensures
        r is Some <==> needle_piece_total(whens_needles(seq![tier_query(tier, needle@).1]))
            <= usize::MAX,
        r matches Some(st) ==> select_sql(
            "*"@,
            "item"@,
            tier_query(tier, needle@).0,
            seq![tier_query(tier, needle@).1],
            Some(minus@),
            Agg::Union,
        ) == Some(st.sql@) && views(st.binds@) == whens_needles(seq![tier_query(tier, needle@).1]),
{
    let lower = to_lowercase(needle);
    let mut when: Vec<When<(&str, &str)>> = Vec::new();
    let from = match tier {
        SearchTier::NameLike => {
            when.push(When::Like(("name", needle)));
            "item"
        },
        SearchTier::NameMatch => {
            when.push(When::Match(("name", needle)));
            "item"
        },
        SearchTier::TagEqual => {
            when.push(When::Equal(("name", lower.as_str())));
            "tag"
        },
    };
    assert(whens_view(when@) =~= seq![tier_query(tier, needle@).1]);
    assert(from@ == tier_query(tier, needle@).0);
    if !needle_pieces_fit(&when) {
        return None;
    }
    proof {
        reveal_strlit("item");
        reveal_strlit("tag");
        reveal_strlit("*");
        assert(MAIN_TABLE@ == "item"@);
    }
    let st = select_statement("*", "item", from, &when, Some(minus), Agg::Union);
    st
}

/// The ids of the items.
pub open spec fn item_ids(items: Seq<Item>) -> Seq<i32> {
    Seq::new(items.len(), |i: int| items[i].Id)
}

/// The ids found by a step are the items' ids one for one, in order.
pub proof fn law_found_ids_follow_the_items(items: Seq<Item>)
    ensures
        item_ids(items).len() == items.len(),
        forall|i: int| 0 <= i < items.len() ==> #[trigger] item_ids(items)[i] == items[i].Id,
{
}

/// A search looks for names starting with the needle in the item table,
/// then for names matching it as a pattern, then for tags equal to its
/// lowercase.
pub proof fn law_search_steps(needle: Seq<char>)
    ensures
        tier_query(SearchTier::NameLike, needle) == ("item"@, When::Like(("name"@, needle))),
        tier_query(SearchTier::NameMatch, needle) == ("item"@, When::Match(("name"@, needle))),
        tier_query(SearchTier::TagEqual, needle) == ("tag"@, When::Equal(("name"@, lowercase(needle)))),
{
}

/// Adds the ids of the items a search step found to the ids the later
/// steps leave out, after those already there.
pub fn exclude_found(minus: &mut Vec<i32>, items: &Vec<Item>)
    ensures
        final(minus)@ == old(minus)@ + item_ids(items@),
{
    let ghost start = minus@;
    let n = items.len();
    let mut i: usize = 0;
    while i < n
        invariant
            n == items@.len(),
            i <= n,
            minus@ == start + item_ids(items@).take(i as int),
        decreases n - i,
    {
        minus.push(items[i].Id);
        assert(item_ids(items@).take(i + 1) =~= item_ids(items@).take(i as int).push(items@[i as int].Id));
        i = i + 1;
    }
    assert(item_ids(items@).take(n as int) =~= item_ids(items@));
}

} // verus!
