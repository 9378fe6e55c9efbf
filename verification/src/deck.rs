//! The lessons, and the deck of flashcards drawn from them.
//!
//! Each day of lessons holds sentences and words, each a Tamil phrase (in
//! English transliteration) with its English meaning. A card shows the English
//! side first and the Tamil side as the answer.

use vstd::prelude::*;
use vstd::string::*;
use crate::number::{decimal, push_decimal};

verus! {

/// One phrase of a lesson: the Tamil text and its English meaning.
#[derive(Clone, Debug)]
pub struct Item {
    pub tamil: String,
    pub english: String,
}

/// One day of lessons.
#[derive(Clone, Debug)]
pub struct DayData {
    pub day: usize,
    pub focus: String,
    pub sentences: Vec<Item>,
    pub words: Vec<Item>,
}

/// A flashcard: the day it belongs to, its kind (`"Sentence"` or `"Word"`),
/// the English prompt on the front and the Tamil answer on the back.
#[derive(Clone, Debug)]
pub struct Card {
    pub day: usize,
    pub kind: &'static str,
    pub front: String,
    pub back: String,
}

/// What a card shows, as character sequences.
pub struct CardView {
    pub day: usize,
    pub kind: Seq<char>,
    pub front: Seq<char>,
    pub back: Seq<char>,
}

impl View for Card {
    type V = CardView;

    open spec fn view(&self) -> CardView {
        CardView { day: self.day, kind: self.kind@, front: self.front@, back: self.back@ }
    }
}

/// The card of kind `kind` for `item` on day `day`.
pub open spec fn item_card(day: usize, kind: Seq<char>, item: Item) -> CardView {
    CardView { day, kind, front: item.english@, back: item.tamil@ }
}

/// The cards of kind `kind` for `items`, in order.
pub open spec fn item_cards(day: usize, kind: Seq<char>, items: Seq<Item>) -> Seq<CardView> {
    items.map_values(|item: Item| item_card(day, kind, item))
}

/// The cards of one day: its sentences, then its words.
pub open spec fn day_cards(d: DayData) -> Seq<CardView> {
    item_cards(d.day, "Sentence"@, d.sentences@) + item_cards(d.day, "Word"@, d.words@)
}

/// The cards of every day numbered at most `max_day`, day by day in the order
/// the days are given.
pub open spec fn cards_through(days: Seq<DayData>, max_day: usize) -> Seq<CardView>
    decreases days.len(),
{
    if days.len() == 0 {
        Seq::empty()
    } else {
        let earlier = cards_through(days.drop_last(), max_day);
        if days.last().day <= max_day {
            earlier + day_cards(days.last())
        } else {
            earlier
        }
    }
}

/// The days numbered at most `max_day`, in the order given.
pub open spec fn days_through(days: Seq<DayData>, max_day: usize) -> Seq<DayData>
    decreases days.len(),
{
    if days.len() == 0 {
        Seq::empty()
    } else {
        let earlier = days_through(days.drop_last(), max_day);
        if days.last().day <= max_day {
            earlier.push(days.last())
        } else {
            earlier
        }
    }
}

/// What a sequence of cards shows.
pub open spec fn card_views(cards: Seq<Card>) -> Seq<CardView> {
    cards.map_values(|c: Card| c@)
}

/// The index of the card on show for `index` in a deck of `len` cards: the
/// index itself, or the last card where the index is past the end.
pub open spec fn shown_index(index: usize, len: nat) -> int {
    if index < len {
        index as int
    } else {
        len - 1
    }
}

/// A copy of `card`.
fn copy_card(card: &Card) -> (c: Card)
    ensures
        c@ == card@,
{
    Card { day: card.day, kind: card.kind, front: card.front.clone(), back: card.back.clone() }
}

/// Appends to `cards` one card of kind `kind` for each of `items`.
fn push_item_cards(cards: &mut Vec<Card>, day: usize, kind: &'static str, items: &Vec<Item>)
    ensures
        card_views(final(cards)@) == card_views(old(cards)@) + item_cards(day, kind@, items@),
{
    let ghost start = card_views(cards@);
    let n = items.len();
    for j in 0..n
        invariant
            n == items@.len(),
            card_views(cards@) == start + item_cards(day, kind@, items@.take(j as int)),
    {
        let item = &items[j];
        let ghost before = cards@;
        cards.push(
            Card { day, kind, front: item.english.clone(), back: item.tamil.clone() },
        );
        assert(card_views(cards@) =~= card_views(before).push(item_card(day, kind@, items@[j as int])));
        assert(items@.take(j + 1) =~= items@.take(j as int).push(items@[j as int]));
        assert(item_cards(day, kind@, items@.take(j + 1)) =~= item_cards(
            day,
            kind@,
            items@.take(j as int),
        ).push(item_card(day, kind@, items@[j as int])));
    }
    assert(items@.take(n as int) =~= items@);
}

/// The deck for studying through day `max_day`: for each day numbered at most
/// `max_day`, in the order given, a `"Sentence"` card for each of its sentences
/// and then a `"Word"` card for each of its words. A card's front is the
/// English text and its back the Tamil text.
pub fn cards_until(data: &[DayData], max_day: usize) -> (cards: Vec<Card>)
    ensures
        card_views(cards@) == cards_through(data@, max_day),
        cards@.len() == item_count(data@, max_day),
{
    proof {
        lemma_cards_through_len(data@, max_day);
    }
    let mut cards: Vec<Card> = Vec::new();
    let n = data.len();
    for i in 0..n
        invariant
            n == data@.len(),
            card_views(cards@) == cards_through(data@.take(i as int), max_day),
    {
        let d = &data[i];
        if d.day <= max_day {
            push_item_cards(&mut cards, d.day, "Sentence", &d.sentences);
            push_item_cards(&mut cards, d.day, "Word", &d.words);
        }
        assert(data@.take(i + 1).drop_last() =~= data@.take(i as int));
        assert(data@.take(i + 1).last() == data@[i as int]);
        assert(card_views(cards@) =~= cards_through(data@.take(i + 1), max_day));
    }
    assert(data@.take(n as int) =~= data@);
    cards
}

/// The days numbered at most `max_day`, in the order given.
pub fn days_until<'a>(data: &'a [DayData], max_day: usize) -> (days: Vec<&'a DayData>)
    ensures
        days@.map_values(|d: &DayData| *d) == days_through(data@, max_day),
        forall|i: int|
            0 <= i < data@.len() && #[trigger] data@[i].day <= max_day ==> days@.map_values(
                |d: &DayData| *d,
            ).contains(data@[i]),
        forall|k: int|
            0 <= k < days@.len() ==> (#[trigger] days@[k]).day <= max_day && data@.contains(
                *days@[k],
            ),
{
    proof {
        lemma_days_through_members(data@, max_day);
    }
    let mut days: Vec<&'a DayData> = Vec::new();
    let n = data.len();
    for i in 0..n
        invariant
            n == data@.len(),
            days@.map_values(|d: &DayData| *d) == days_through(data@.take(i as int), max_day),
    {
        let d = &data[i];
        let ghost before = days@;
        if d.day <= max_day {
            days.push(d);
            assert(days@.map_values(|d: &DayData| *d) =~= before.map_values(|d: &DayData| *d).push(*d));
        }
        assert(data@.take(i + 1).drop_last() =~= data@.take(i as int));
        assert(data@.take(i + 1).last() == data@[i as int]);
    }
    assert(data@.take(n as int) =~= data@);
    assert forall|k: int| 0 <= k < days@.len() implies (#[trigger] days@[k]).day <= max_day
        && data@.contains(*days@[k]) by {
        assert(days@.map_values(|d: &DayData| *d)[k] == *days@[k]);
    }
    days
}

/// The card on show at `index`: `None` for an empty deck; otherwise a copy of
/// the card at `index`, or of the last card where `index` is past the end.
pub fn current_card(cards: &[Card], index: usize) -> (card: Option<Card>)
    ensures
        card is None <==> cards@.len() == 0,
        card matches Some(c) ==> c@ == cards@[shown_index(index, cards@.len())]@,
        index < cards@.len() ==> (card matches Some(c) && c@ == cards@[index as int]@),
        cards@.len() > 0 && index >= cards@.len() ==> (card matches Some(c) && c@
            == cards@[cards@.len() - 1]@),
{
    proof {
        lemma_shown_index(index, cards@.len());
    }
    if cards.len() == 0 {
        None
    } else {
        let last = cards.len() - 1;
        let i = if index < last { index } else { last };
        Some(copy_card(&cards[i]))
    }
}

impl Card {
    /// The line above the prompt: `"Day <day> · <kind>"`.
    pub fn meta_text(&self) -> (text: String)
        ensures
            text@ == "Day "@ + decimal(self.day as nat) + " · "@ + self.kind@,
    {
        let mut text = String::new();
        text.append("Day ");
        push_decimal(&mut text, self.day);
        text.append(" · ");
        text.append(self.kind);
        text
    }
}

impl DayData {
    /// The heading of the day on the list page: `"Day <day>: <focus>"`.
    pub fn heading(&self) -> (text: String)
        ensures
            text@ == "Day "@ + decimal(self.day as nat) + ": "@ + self.focus@,
    {
        let mut text = String::new();
        text.append("Day ");
        push_decimal(&mut text, self.day);
        text.append(": ");
        text.append(self.focus.as_str());
        text
    }
}

/// The number of phrases (sentences and words) of the days numbered at most
/// `max_day`.
pub open spec fn item_count(days: Seq<DayData>, max_day: usize) -> nat
    decreases days.len(),
{
    if days.len() == 0 {
        0
    } else {
        item_count(days.drop_last(), max_day) + if days.last().day <= max_day {
            days.last().sentences@.len() + days.last().words@.len()
        } else {
            0
        }
    }
}

/// The card on show is the card at the position when the position is in the
/// deck, and the last card otherwise.
pub proof fn lemma_shown_index(index: usize, len: nat)
    ensures
        index < len ==> shown_index(index, len) == index,
        0 < len <= index ==> shown_index(index, len) == len - 1,
{
}

/// One card per item, in the items' order: English on the front, Tamil on
/// the back, with the given day and kind.
pub proof fn lemma_item_cards(day: usize, kind: Seq<char>, items: Seq<Item>)
    ensures
        item_cards(day, kind, items).len() == items.len(),
        forall|j: int|
            0 <= j < items.len() ==> #[trigger] item_cards(day, kind, items)[j] == (CardView {
                day,
                kind,
                front: items[j].english@,
                back: items[j].tamil@,
            }),
{
}

/// The deck has exactly one card per phrase of the days studied.
pub proof fn lemma_cards_through_len(days: Seq<DayData>, max_day: usize)
    ensures
        cards_through(days, max_day).len() == item_count(days, max_day),
    decreases days.len(),
{
    if days.len() > 0 {
        lemma_cards_through_len(days.drop_last(), max_day);
        let d = days.last();
        lemma_item_cards(d.day, "Sentence"@, d.sentences@);
        lemma_item_cards(d.day, "Word"@, d.words@);
    }
}

/// Every sentence and every word of a day studied is in the deck, as a card
/// of its day and kind with the English on the front and the Tamil on the back.
pub proof fn lemma_cards_through_has_every_item(
    days: Seq<DayData>,
    max_day: usize,
    i: int,
    j: int,
)
    requires
        0 <= i < days.len(),
        days[i].day <= max_day,
    ensures
        0 <= j < days[i].sentences@.len() ==> exists|k: int|
            0 <= k < cards_through(days, max_day).len() && #[trigger] cards_through(
                days,
                max_day,
            )[k] == (CardView {
                day: days[i].day,
                kind: "Sentence"@,
                front: days[i].sentences@[j].english@,
                back: days[i].sentences@[j].tamil@,
            }),
        0 <= j < days[i].words@.len() ==> exists|k: int|
            0 <= k < cards_through(days, max_day).len() && #[trigger] cards_through(
                days,
                max_day,
            )[k] == (CardView {
                day: days[i].day,
                kind: "Word"@,
                front: days[i].words@[j].english@,
                back: days[i].words@[j].tamil@,
            }),
    decreases days.len(),
{
    let n = days.len();
    let earlier = cards_through(days.drop_last(), max_day);
    let all = cards_through(days, max_day);
    if i == n - 1 {
        let d = days.last();
        assert(d == days[i]);
        lemma_item_cards(d.day, "Sentence"@, d.sentences@);
        lemma_item_cards(d.day, "Word"@, d.words@);
        assert(all == earlier + day_cards(d));
        let ns = d.sentences@.len();
        if 0 <= j < ns {
            let k = earlier.len() + j;
            assert(all[k] == day_cards(d)[j]);
            assert(day_cards(d)[j] == item_cards(d.day, "Sentence"@, d.sentences@)[j]);
        }
        if 0 <= j < d.words@.len() {
            let k = earlier.len() + ns + j;
            assert(all[k] == day_cards(d)[ns + j]);
            assert(day_cards(d)[ns + j] == item_cards(d.day, "Word"@, d.words@)[j]);
        }
    } else {
        assert(days.drop_last()[i] == days[i]);
        lemma_cards_through_has_every_item(days.drop_last(), max_day, i, j);
        if 0 <= j < days[i].sentences@.len() {
            let k = choose|k: int|
                0 <= k < earlier.len() && #[trigger] earlier[k] == (CardView {
                    day: days[i].day,
                    kind: "Sentence"@,
                    front: days[i].sentences@[j].english@,
                    back: days[i].sentences@[j].tamil@,
                });
            assert(all[k] == earlier[k]);
        }
        if 0 <= j < days[i].words@.len() {
            let k = choose|k: int|
                0 <= k < earlier.len() && #[trigger] earlier[k] == (CardView {
                    day: days[i].day,
                    kind: "Word"@,
                    front: days[i].words@[j].english@,
                    back: days[i].words@[j].tamil@,
                });
            assert(all[k] == earlier[k]);
        }
    }
}

/// A day is listed exactly when its number is at most `max_day`: every such
/// day of the lessons is listed, and every listed day is such a day of the
/// lessons.
pub proof fn lemma_days_through_members(days: Seq<DayData>, max_day: usize)
    ensures
        forall|i: int|
            0 <= i < days.len() && #[trigger] days[i].day <= max_day ==> days_through(
                days,
                max_day,
            ).contains(days[i]),
        forall|k: int|
            0 <= k < days_through(days, max_day).len() ==> (#[trigger] days_through(
                days,
                max_day,
            )[k]).day <= max_day && days.contains(days_through(days, max_day)[k]),
    decreases days.len(),
{
    if days.len() > 0 {
        let rest = days.drop_last();
        lemma_days_through_members(rest, max_day);
        let earlier = days_through(rest, max_day);
        let all = days_through(days, max_day);
        assert forall|i: int| 0 <= i < days.len() && #[trigger] days[i].day <= max_day implies all.contains(
            days[i],
        ) by {
            if i < days.len() - 1 {
                assert(rest[i] == days[i]);
                assert(rest[i].day <= max_day);
                let k = choose|k: int| 0 <= k < earlier.len() && earlier[k] == rest[i];
                assert(all[k] == earlier[k]);
            } else {
                assert(all[all.len() - 1] == days[i]);
            }
        }
        assert forall|k: int| 0 <= k < all.len() implies (#[trigger] all[k]).day <= max_day
            && days.contains(all[k]) by {
            if k < earlier.len() {
                assert(all[k] == earlier[k]);
                assert(earlier[k].day <= max_day);
                let i = choose|i: int| 0 <= i < rest.len() && rest[i] == earlier[k];
                assert(days[i] == rest[i]);
            } else {
                assert(all[k] == days[days.len() - 1]);
            }
        }
    }
}

/// Studying through a later day never shows fewer cards.
pub proof fn lemma_cards_through_monotone(days: Seq<DayData>, d1: usize, d2: usize)
    requires
        d1 <= d2,
    ensures
        cards_through(days, d1).len() <= cards_through(days, d2).len(),
    decreases days.len(),
{
    if days.len() > 0 {
        lemma_cards_through_monotone(days.drop_last(), d1, d2);
    }
}

/// Studying through a day at least as late as every lesson shows the cards
/// of every lesson.
pub proof fn lemma_cards_through_all(days: Seq<DayData>, max_day: usize)
    requires
        forall|i: int| 0 <= i < days.len() ==> #[trigger] days[i].day <= max_day,
    ensures
        cards_through(days, max_day) == cards_through(days, usize::MAX),
    decreases days.len(),
{
    if days.len() > 0 {
        assert forall|i: int| 0 <= i < days.drop_last().len() implies #[trigger] days.drop_last()[i].day
            <= max_day by {
            assert(days.drop_last()[i] == days[i]);
        }
        lemma_cards_through_all(days.drop_last(), max_day);
        assert(days.last() == days[days.len() - 1]);
    }
}

} // verus!
