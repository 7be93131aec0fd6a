//! The items of a dictionary that came from outside, whose keys and values need not be
//! texts.
use vstd::prelude::*;

use crate::dict::{entries, Entry};

verus! {

/// Key and value of an item, each `None` where it is not a text.
pub type Item = (Option<String>, Option<String>);

/// An item with its texts as sequences of characters.
pub type ItemView = (Option<Seq<char>>, Option<Seq<char>>);

/// A part of an item.
#[derive(Clone, Copy, Debug, PartialEq, Eq, Structural)]
pub enum Part {
    Key,
    Value,
}

/// The place of a key or value that is not a text.
#[derive(Clone, Copy, Debug, PartialEq, Eq, Structural)]
pub struct NotText {
    pub index: usize,
    pub part: Part,
}

/// A text that may be missing.
pub open spec fn text_view(text: Option<String>) -> Option<Seq<char>> {
    match text {
        Some(text) => Some(text@),
        None => None,
    }
}

/// The views of the items.
pub open spec fn item_views(items: Seq<Item>) -> Seq<ItemView> {
    items.map_values(|item: Item| (text_view(item.0), text_view(item.1)))
}

/// The items of a dictionary that may be missing.
pub open spec fn items_in(dict: Option<&Vec<Item>>) -> Seq<ItemView> {
    match dict {
        Some(items) => item_views(items@),
        None => Seq::empty(),
    }
}

/// Whether key and value are texts.
pub open spec fn is_text(item: ItemView) -> bool {
    item.0 is Some && item.1 is Some
}

/// Whether every key and value is a text.
pub open spec fn all_text(items: Seq<ItemView>) -> bool {
    forall|i: int| 0 <= i < items.len() ==> is_text(#[trigger] items[i])
}

/// The items, all of which are texts, as pairs.
pub open spec fn pairs_of(items: Seq<ItemView>) -> Seq<Entry> {
    items.map_values(|item: ItemView| (item.0->0, item.1->0))
}

/// Whether `place` is the first that does not hold a text; of one item, the key comes
/// first.
pub open spec fn is_first_not_text(items: Seq<ItemView>, place: NotText) -> bool {
    let i = place.index as int;
    &&& 0 <= i < items.len()
    &&& forall|j: int| 0 <= j < i ==> is_text(#[trigger] items[j])
    &&& match place.part {
        Part::Key => items[i].0 is None,
        Part::Value => items[i].0 is Some && items[i].1 is None,
    }
}

/// The pairs of the items that are texts, in their order.
pub open spec fn text_items(items: Seq<ItemView>) -> Seq<Entry>
    decreases items.len(),
{
    if items.len() == 0 {
        Seq::empty()
    } else {
        let pairs = text_items(items.drop_last());
        let last = items.last();
        if is_text(last) {
            pairs.push((last.0->0, last.1->0))
        } else {
            pairs
        }
    }
}

/// The items as pairs of texts, or the first place that is not one.
pub fn text_pairs(items: &Vec<Item>) -> (pairs: Result<Vec<(String, String)>, NotText>)
    ensures
        match pairs {
            Ok(pairs) => all_text(item_views(items@)) && entries(pairs@) == pairs_of(
                item_views(items@),
            ),
            Err(place) => is_first_not_text(item_views(items@), place),
        },
{
    let ghost views = item_views(items@);
    let mut pairs: Vec<(String, String)> = Vec::new();
    let mut i: usize = 0;
    assert(entries(pairs@) =~= pairs_of(views).take(0));
    while i < items.len()
        invariant
            i <= items@.len(),
            views == item_views(items@),
            forall|j: int| 0 <= j < i ==> is_text(#[trigger] views[j]),
            entries(pairs@) == pairs_of(views).take(i as int),
        decreases items@.len() - i,
    {
        let ghost before = entries(pairs@);
        match (&items[i].0, &items[i].1) {
            (Some(key), Some(value)) => {
                pairs.push((key.clone(), value.clone()));
                assert(entries(pairs@) =~= before.push(pairs_of(views)[i as int]));
            },
            (None, _) => {
                return Err(NotText { index: i, part: Part::Key });
            },
            (Some(_), None) => {
                return Err(NotText { index: i, part: Part::Value });
            },
        }
        i = i + 1;
        assert(entries(pairs@) =~= pairs_of(views).take(i as int));
    }
    assert(pairs_of(views).take(i as int) =~= pairs_of(views));
    Ok(pairs)
}

/// The pairs of the items that are texts; the others are left out.
pub fn kept_pairs(items: &Vec<Item>) -> (pairs: Vec<(String, String)>)
    ensures
        entries(pairs@) == text_items(item_views(items@)),
{
    let ghost views = item_views(items@);
    let mut pairs: Vec<(String, String)> = Vec::new();
    let mut i: usize = 0;
    assert(entries(pairs@) =~= text_items(views.take(0)));
    while i < items.len()
        invariant
            i <= items@.len(),
            views == item_views(items@),
            entries(pairs@) == text_items(views.take(i as int)),
        decreases items@.len() - i,
    {
        let ghost before = entries(pairs@);
        assert(views.take(i + 1).drop_last() =~= views.take(i as int));
        if let (Some(key), Some(value)) = (&items[i].0, &items[i].1) {
            pairs.push((key.clone(), value.clone()));
            assert(entries(pairs@) =~= before.push((key@, value@)));
        }
        i = i + 1;
    }
    assert(views.take(i as int) =~= views);
    pairs
}

/// Where every item is a text, leaving out the others leaves out nothing.
pub proof fn law_texts_are_all_kept(items: Seq<ItemView>)
    requires
        all_text(items),
    ensures
        text_items(items) == pairs_of(items),
    decreases items.len(),
{
    if items.len() > 0 {
        let rest = items.drop_last();
        assert forall|i: int| 0 <= i < rest.len() implies is_text(#[trigger] rest[i]) by {
            assert(rest[i] == items[i]);
        }
        law_texts_are_all_kept(rest);
        assert(is_text(items[items.len() - 1]));
    }
    assert(text_items(items) =~= pairs_of(items));
}

/// Whether key and value of each item are there.
pub open spec fn are_texts(items: Seq<Item>) -> bool {
    forall|i: int| 0 <= i < items.len() ==> (#[trigger] items[i]).0 is Some && items[i].1 is Some
}

/// Whether something is missing at `place` and nothing in front of it.
pub open spec fn is_first_gap(items: Seq<Item>, place: NotText) -> bool {
    let i = place.index as int;
    &&& i < items.len()
    &&& place.part is Key ==> items[i].0 is None
    &&& place.part is Value ==> items[i].0 is Some && items[i].1 is None
    &&& are_texts(items.take(i))
}

/// What the views of items say, in terms of the items.
pub proof fn lemma_items(items: Seq<Item>)
    ensures
        all_text(item_views(items)) <==> are_texts(items),
        forall|place: NotText| #[trigger]
            is_first_not_text(item_views(items), place) ==> is_first_gap(items, place)
                && !are_texts(items),
        are_texts(items) ==> pairs_of(item_views(items)) == Seq::new(
            items.len(),
            |i: int| (items[i].0->0@, items[i].1->0@),
        ),
{
    let views = item_views(items);
    assert forall|i: int| 0 <= i < items.len() implies views[i] == (
        text_view((#[trigger] items[i]).0),
        text_view(items[i].1),
    ) by {}
    if all_text(views) {
        assert forall|i: int| 0 <= i < items.len() implies (#[trigger] items[i]).0 is Some
            && items[i].1 is Some by {
            assert(is_text(views[i]));
        }
    }
    if are_texts(items) {
        assert forall|i: int| 0 <= i < views.len() implies is_text(#[trigger] views[i]) by {
            assert(items[i].0 is Some);
        }
        let pairs = Seq::new(items.len(), |i: int| (items[i].0->0@, items[i].1->0@));
        assert forall|i: int| 0 <= i < pairs.len() implies pairs_of(views)[i] == pairs[i] by {
            assert(items[i].0 is Some && items[i].1 is Some);
        }
        assert(pairs_of(views) =~= pairs);
    }
    assert forall|place: NotText| #[trigger] is_first_not_text(views, place) implies is_first_gap(
        items,
        place,
    ) && !are_texts(items) by {
        let i = place.index as int;
        assert(views[i] == (text_view(items[i].0), text_view(items[i].1)));
        assert forall|j: int| 0 <= j < i implies (#[trigger] items.take(i)[j]).0 is Some
            && items.take(i)[j].1 is Some by {
            assert(is_text(views[j]));
            assert(items.take(i)[j] == items[j]);
        }
    }
}

/// Pairs are made of all items or of none. If they are made, there are as many as items,
/// each with the key and the value of the item in its place. If not, some key or value is
/// not a text, and the place that is given is the first such.
pub proof fn law_pairs_are_the_items(
    items: &Vec<Item>,
    pairs: Result<Vec<(String, String)>, NotText>,
)
    requires
        call_ensures(text_pairs, (items,), pairs),
    ensures
        pairs is Ok <==> are_texts(items@),
        pairs matches Ok(pairs) ==> {
            &&& pairs@.len() == items@.len()
            &&& forall|i: int|
                0 <= i < items@.len() ==> (#[trigger] pairs@[i]).0@ == items@[i].0->0@ && pairs@[i].1@
                    == items@[i].1->0@
        },
        pairs matches Err(place) ==> is_first_gap(items@, place),
{
    lemma_items(items@);
    if let Ok(pairs) = pairs {
        let views = item_views(items@);
        assert(entries(pairs@).len() == pairs_of(views).len());
        assert forall|i: int| 0 <= i < items@.len() implies (#[trigger] pairs@[i]).0@
            == items@[i].0->0@ && pairs@[i].1@ == items@[i].1->0@ by {
            assert(entries(pairs@)[i] == pairs_of(views)[i]);
        }
    }
}

/// One more item at the end adds one pair at the end, with its key and its value, if both
/// are texts, and nothing otherwise; no items give no pairs.
pub proof fn law_kept_pairs_grow_by_an_item(
    items: &Vec<Item>,
    more: &Vec<Item>,
    pairs: Vec<(String, String)>,
    longer: Vec<(String, String)>,
)
    requires
        more@.len() == items@.len() + 1,
        more@.drop_last() == items@,
        call_ensures(kept_pairs, (items,), pairs),
        call_ensures(kept_pairs, (more,), longer),
    ensures
        items@.len() == 0 ==> pairs@.len() == 0,
        ({
            let (key, value) = more@.last();
            longer@.len() == pairs@.len() + (if key is Some && value is Some {
                1int
            } else {
                0
            })
        }),
        forall|i: int|
            0 <= i < pairs@.len() ==> (#[trigger] longer@[i]).0@ == pairs@[i].0@ && longer@[i].1@
                == pairs@[i].1@,
        longer@.len() > pairs@.len() ==> longer@.last().0@ == more@.last().0->0@ && longer@.last().1@
            == more@.last().1->0@,
{
    let views = item_views(more@);
    assert(views.drop_last() =~= item_views(items@));
    assert(views.last() == (text_view(more@.last().0), text_view(more@.last().1)));
    let (a, b) = (entries(pairs@), entries(longer@));
    assert(a == text_items(item_views(items@)));
    assert(b == text_items(views));
    assert(a.len() == pairs@.len() && b.len() == longer@.len());
    assert forall|i: int| 0 <= i < pairs@.len() implies (#[trigger] longer@[i]).0@ == pairs@[i].0@
        && longer@[i].1@ == pairs@[i].1@ by {
        assert(a[i] == b[i]);
    }
    if longer@.len() > pairs@.len() {
        assert(b.last() == (longer@.last().0@, longer@.last().1@));
    }
}

} // verus!
