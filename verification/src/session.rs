//! A study session: which days are studied, which card is on show, whether
//! its answer is revealed, and the page settings.
//!
//! The session decides; the caller performs what it cannot: drawing a random
//! card. A step that needs a draw answers `Action::DrawIndex(len)`; the caller
//! then draws an index below `len` (zero when `len` is zero) and hands it to
//! [`Session::drawn`], repeating while the answer is again a draw request.

use vstd::prelude::*;
use vstd::string::*;
use crate::deck::{
    card_views, cards_through, cards_until, current_card, days_through, days_until, shown_index,
    Card, DayData,
};
use crate::number::{decimal, decimal_string, lemma_decimal_parses, parse_usize, parsed_number, push_decimal};

verus! {

/// The random draw a session is waiting for, if any.
#[derive(Clone, Copy, Debug, PartialEq, Eq, Structural)]
pub enum Pending {
    /// No draw is outstanding.
    Nothing,
    /// The deck changed; the drawn index becomes the card on show.
    Reset,
    /// The learner asked for another card; the drawn index must differ from
    /// the card on show when the deck has more than one card.
    Next,
}

/// What the caller must do after a step.
#[derive(Clone, Copy, Debug, PartialEq, Eq, Structural)]
pub enum Action {
    /// Nothing: the step is complete.
    Idle,
    /// Draw a random index below the given deck size (zero for an empty
    /// deck) and pass it to [`Session::drawn`].
    DrawIndex(usize),
}

/// The state of a study session.
pub struct Session {
    /// The lessons, one entry per day.
    pub data: Vec<DayData>,
    /// The last day whose cards are in the deck.
    pub max_day: usize,
    /// The text in the day field, as typed.
    pub day_input: String,
    /// The position of the card on show in the deck.
    pub card_index: usize,
    /// Whether the Tamil answer of the card on show is revealed.
    pub show_answer: bool,
    /// Whether the list page is shown in place of the flashcards.
    pub show_list: bool,
    /// Whether the dark colour scheme is on.
    pub dark_mode: bool,
    /// The draw the session waits for.
    pub pending: Pending,
}

/// Whether `index` designates a card of a deck of `count` cards (for an
/// empty deck: whether it is zero).
pub open spec fn index_in_deck(index: usize, count: nat) -> bool {
    index < count || (count == 0 && index == 0)
}

/// The day chosen by the text `input` of the day field for lessons of
/// `total_days` days: the number it denotes (when it fits a `usize`), else 1,
/// brought into `1..=total_days`.
pub open spec fn chosen_day(input: Seq<char>, total_days: usize) -> usize {
    let n: int = match parsed_number(input) {
        Some(v) => if v <= usize::MAX {
            v as int
        } else {
            1
        },
        None => 1,
    };
    if n < 1 {
        1
    } else if n > total_days {
        total_days
    } else {
        n as usize
    }
}


/// The state of a session as values: what [`Session`] holds, with the text
/// field and the lessons taken by their views.
pub struct SessionView {
    pub data: Seq<DayData>,
    pub max_day: usize,
    pub day_input: Seq<char>,
    pub card_index: usize,
    pub show_answer: bool,
    pub show_list: bool,
    pub dark_mode: bool,
    pub pending: Pending,
}

/// An event of a session: what the learner does, or a random draw coming
/// back.
pub enum SessionEvent {
    /// The day field now holds the given text.
    SetDayInput(Seq<char>),
    /// The Enter button: study through the day the field names.
    ApplyDay,
    /// The Flashcards (`false`) or List (`true`) button.
    SetShowList(bool),
    /// The colour-scheme button.
    ToggleDarkMode,
    /// The Random button.
    Next,
    /// A tap on the card, or the reveal button.
    Tap,
    /// The Previous button.
    Previous,
    /// A random index drawn for a pending request.
    Drawn(usize),
}

impl SessionView {
    /// The number of cards in the deck of the days studied.
    pub open spec fn card_count(self) -> nat {
        cards_through(self.data, self.max_day).len()
    }

    /// The session's invariant: the studied day lies in `1..=total_days`
    /// (or is the initial day 1), and unless the deck was just changed the
    /// card on show belongs to the deck; a pending next-card draw has a
    /// non-empty deck to draw from.
    pub open spec fn wf(self) -> bool {
        &&& 1 <= self.max_day
        &&& (self.max_day == 1 || self.max_day <= self.data.len())
        &&& self.pending != Pending::Reset ==> index_in_deck(self.card_index, self.card_count())
        &&& self.pending == Pending::Next ==> self.card_count() > 0
    }
}

/// A new session over `data`: studying through day 1, field `"1"`, nothing
/// shown yet but a pending draw over the deck of day 1.
pub open spec fn initial_view(data: Seq<DayData>) -> SessionView {
    SessionView {
        data,
        max_day: 1,
        day_input: decimal(1),
        card_index: 0,
        show_answer: false,
        show_list: false,
        dark_mode: false,
        pending: Pending::Reset,
    }
}

/// The Random button: a draw over a non-empty deck, nothing for an empty one.
pub open spec fn next_step(v: SessionView) -> (SessionView, Action) {
    if v.card_count() > 0 {
        (SessionView { pending: Pending::Next, ..v }, Action::DrawIndex(v.card_count() as usize))
    } else {
        (v, Action::Idle)
    }
}

/// What each event does to a session, and what it asks of the caller.
pub open spec fn step(v: SessionView, e: SessionEvent) -> (SessionView, Action) {
    match e {
        SessionEvent::SetDayInput(text) => (SessionView { day_input: text, ..v }, Action::Idle),
        SessionEvent::ApplyDay => {
            let day = chosen_day(v.day_input, v.data.len() as usize);
            (
                SessionView {
                    max_day: day,
                    day_input: decimal(day as nat),
                    show_answer: false,
                    pending: Pending::Reset,
                    ..v
                },
                Action::DrawIndex(cards_through(v.data, day).len() as usize),
            )
        },
        SessionEvent::SetShowList(show) => (SessionView { show_list: show, ..v }, Action::Idle),
        SessionEvent::ToggleDarkMode => (SessionView { dark_mode: !v.dark_mode, ..v }, Action::Idle),
        SessionEvent::Next => next_step(v),
        SessionEvent::Tap => if v.show_answer {
            next_step(v)
        } else {
            (SessionView { show_answer: true, ..v }, Action::Idle)
        },
        SessionEvent::Previous => if v.card_count() > 0 {
            (
                SessionView {
                    card_index: if v.card_index == 0 {
                        (v.card_count() - 1) as usize
                    } else {
                        (v.card_index - 1) as usize
                    },
                    show_answer: false,
                    ..v
                },
                Action::Idle,
            )
        } else {
            (v, Action::Idle)
        },
        SessionEvent::Drawn(index) => match v.pending {
            Pending::Nothing => (v, Action::Idle),
            Pending::Reset => (
                SessionView { card_index: index, pending: Pending::Nothing, ..v },
                Action::Idle,
            ),
            Pending::Next => if v.card_count() > 1 && index == v.card_index {
                (v, Action::DrawIndex(v.card_count() as usize))
            } else {
                (
                    SessionView {
                        card_index: index,
                        show_answer: false,
                        pending: Pending::Nothing,
                        ..v
                    },
                    Action::Idle,
                )
            },
        },
    }
}

/// Whether the caller may send `e` in state `v`, as the front end does: a
/// drawn index lies in the deck; any other event comes only once no draw is
/// pending, and Enter only when there are lessons (with none, choosing the
/// day panics) and no more of them than a `Vec` can hold.
pub open spec fn admissible(v: SessionView, e: SessionEvent) -> bool {
    match e {
        SessionEvent::Drawn(index) => index_in_deck(index, v.card_count()),
        SessionEvent::ApplyDay => v.pending == Pending::Nothing && 1 <= v.data.len() <= usize::MAX,
        _ => v.pending == Pending::Nothing,
    }
}

/// The state after the events `events`, one after the other, from `v`.
pub open spec fn run(v: SessionView, events: Seq<SessionEvent>) -> SessionView
    decreases events.len(),
{
    if events.len() == 0 {
        v
    } else {
        run(step(v, events[0]).0, events.drop_first())
    }
}

/// Whether every event of `events` is admissible in the state it meets.
pub open spec fn admissible_run(v: SessionView, events: Seq<SessionEvent>) -> bool
    decreases events.len(),
{
    events.len() == 0 || (admissible(v, events[0]) && admissible_run(
        step(v, events[0]).0,
        events.drop_first(),
    ))
}

/// Each admissible event keeps the session's invariant.
pub proof fn lemma_step_keeps_wf(v: SessionView, e: SessionEvent)
    requires
        v.wf(),
        admissible(v, e),
    ensures
        step(v, e).0.wf(),
{
    let w = step(v, e).0;
    match e {
        SessionEvent::ApplyDay => {
            let day = chosen_day(v.day_input, v.data.len() as usize);
            assert(1 <= day <= v.data.len());
            assert(w.max_day == day);
        },
        SessionEvent::Previous => {
            assert(w.card_count() == v.card_count());
        },
        SessionEvent::Drawn(index) => {
            assert(w.card_count() == v.card_count());
        },
        _ => {
            assert(w.card_count() == v.card_count());
        },
    }
}

/// Admissible events, one after another, keep the session's invariant.
pub proof fn lemma_run_keeps_wf(v: SessionView, events: Seq<SessionEvent>)
    requires
        v.wf(),
        admissible_run(v, events),
    ensures
        run(v, events).wf(),
    decreases events.len(),
{
    if events.len() > 0 {
        lemma_step_keeps_wf(v, events[0]);
        lemma_run_keeps_wf(step(v, events[0]).0, events.drop_first());
    }
}

/// In every state a session reaches from its start through admissible
/// events, the studied day is in range and, whenever no draw is pending and
/// the deck is not empty, the card on show is a card of the deck.
pub proof fn lemma_reachable_card_in_deck(data: Seq<DayData>, events: Seq<SessionEvent>)
    requires
        admissible_run(initial_view(data), events),
    ensures
        run(initial_view(data), events).wf(),
        ({
            let v = run(initial_view(data), events);
            v.pending == Pending::Nothing && v.card_count() > 0 ==> v.card_index < v.card_count()
        }),
{
    lemma_run_keeps_wf(initial_view(data), events);
}

impl View for Session {
    type V = SessionView;

    open spec fn view(&self) -> SessionView {
        SessionView {
            data: self.data@,
            max_day: self.max_day,
            day_input: self.day_input@,
            card_index: self.card_index,
            show_answer: self.show_answer,
            show_list: self.show_list,
            dark_mode: self.dark_mode,
            pending: self.pending,
        }
    }
}

impl Session {
    /// The number of cards in the deck of the days studied.
    pub open spec fn card_count(&self) -> nat {
        self@.card_count()
    }

    /// The session's invariant (see [`SessionView::wf`]).
    pub open spec fn wf(&self) -> bool {
        self@.wf()
    }

    /// Everything but the card position, the answer flag and the pending draw
    /// is as in `other`.
    pub open spec fn same_page(&self, other: &Session) -> bool {
        &&& self.data@ == other.data@
        &&& self.max_day == other.max_day
        &&& self.day_input@ == other.day_input@
        &&& self.show_list == other.show_list
        &&& self.dark_mode == other.dark_mode
    }

    /// Everything but the answer flag is as in `other`.
    pub open spec fn same_deck_position(&self, other: &Session) -> bool {
        &&& self.same_page(other)
        &&& self.card_index == other.card_index
        &&& self.pending == other.pending
    }

    /// A new session over `data`: studying through day 1, day field `"1"`,
    /// flashcards shown, answer hidden, light colours. The card on show is
    /// not chosen yet: the action asks for a random draw over the deck of day 1.
    pub fn new(data: Vec<DayData>) -> (res: (Session, Action))
        ensures
            res.0.data@ == data@,
            res.0.max_day == 1,
            res.0.day_input@ == decimal(1),
            !res.0.show_answer,
            !res.0.show_list,
            !res.0.dark_mode,
            res.0.pending == Pending::Reset,
            res.1 == Action::DrawIndex(cards_through(data@, 1).len() as usize),
            res.0.wf(),
            res.0@ == initial_view(data@),
    {
        let count = cards_until(&data, 1).len();
        let session = Session {
            data,
            max_day: 1,
            day_input: decimal_string(1),
            card_index: 0,
            show_answer: false,
            show_list: false,
            dark_mode: false,
            pending: Pending::Reset,
        };
        (session, Action::DrawIndex(count))
    }

    /// The number of days of lessons.
    pub fn total_days(&self) -> (n: usize)
        ensures
            n == self.data@.len(),
    {
        self.data.len()
    }

    /// The deck of the days studied.
    pub fn current_cards(&self) -> (cards: Vec<Card>)
        ensures
            card_views(cards@) == cards_through(self.data@, self.max_day),
    {
        cards_until(&self.data, self.max_day)
    }

    /// The card on show: `None` for an empty deck, else the card at the
    /// current position (the last card where the position is past the end).
    pub fn current_card(&self) -> (card: Option<Card>)
        ensures
            card is None <==> self.card_count() == 0,
            card matches Some(c) ==> c@ == cards_through(self.data@, self.max_day)[shown_index(
                self.card_index,
                self.card_count(),
            )],
            self.card_index < self.card_count() ==> (card matches Some(c) && c@ == cards_through(
                self.data@,
                self.max_day,
            )[self.card_index as int]),
    {
        let cards = cards_until(&self.data, self.max_day);
        proof {
            assert(card_views(cards@).len() == cards@.len());
        }
        current_card(&cards, self.card_index)
    }

    /// The days studied, for the list page.
    pub fn visible_days(&self) -> (days: Vec<&DayData>)
        ensures
            days@.map_values(|d: &DayData| *d) == days_through(self.data@, self.max_day),
    {
        days_until(&self.data, self.max_day)
    }

    /// Replaces the text of the day field.
    pub fn set_day_input(&mut self, input: String)
        ensures
            final(self)@ == step(old(self)@, SessionEvent::SetDayInput(input@)).0,
            final(self).day_input@ == input@,
            final(self).data@ == old(self).data@,
            final(self).max_day == old(self).max_day,
            final(self).show_list == old(self).show_list,
            final(self).dark_mode == old(self).dark_mode,
            final(self).card_index == old(self).card_index,
            final(self).pending == old(self).pending,
            final(self).show_answer == old(self).show_answer,
            old(self).wf() ==> final(self).wf(),
    {
        self.day_input = input;
    }

    /// Shows the list page (`true`) or the flashcards (`false`).
    pub fn set_show_list(&mut self, show: bool)
        ensures
            final(self)@ == step(old(self)@, SessionEvent::SetShowList(show)).0,
            final(self).show_list == show,
            final(self).data@ == old(self).data@,
            final(self).max_day == old(self).max_day,
            final(self).day_input@ == old(self).day_input@,
            final(self).dark_mode == old(self).dark_mode,
            final(self).card_index == old(self).card_index,
            final(self).pending == old(self).pending,
            final(self).show_answer == old(self).show_answer,
            old(self).wf() ==> final(self).wf(),
    {
        self.show_list = show;
    }

    /// Switches between the light and the dark colour scheme.
    pub fn toggle_dark_mode(&mut self)
        ensures
            final(self)@ == step(old(self)@, SessionEvent::ToggleDarkMode).0,
            final(self).dark_mode == !old(self).dark_mode,
            final(self).data@ == old(self).data@,
            final(self).max_day == old(self).max_day,
            final(self).day_input@ == old(self).day_input@,
            final(self).show_list == old(self).show_list,
            final(self).card_index == old(self).card_index,
            final(self).pending == old(self).pending,
            final(self).show_answer == old(self).show_answer,
            old(self).wf() ==> final(self).wf(),
    {
        self.dark_mode = !self.dark_mode;
    }

    /// Studies through the day that the day field names (see
    /// [`chosen_day`]): the field then shows that day, the answer is hidden,
    /// and a new card is drawn over the new deck.
    pub fn apply_day(&mut self) -> (action: Action)
        requires
            old(self).data@.len() >= 1,
        ensures
            (final(self)@, action) == step(old(self)@, SessionEvent::ApplyDay),
            final(self).max_day == chosen_day(old(self).day_input@, old(self).data@.len() as usize),
            final(self).day_input@ == decimal(final(self).max_day as nat),
            1 <= final(self).max_day <= old(self).data@.len(),
            final(self).data@ == old(self).data@,
            final(self).show_list == old(self).show_list,
            final(self).dark_mode == old(self).dark_mode,
            final(self).card_index == old(self).card_index,
            !final(self).show_answer,
            final(self).pending == Pending::Reset,
            action == Action::DrawIndex(final(self).card_count() as usize),
            old(self).wf() ==> final(self).wf(),
    {
        let total = self.data.len();
        let day = day_from_input(self.day_input.as_str(), total);
        self.max_day = day;
        self.day_input = decimal_string(day);
        self.show_answer = false;
        self.pending = Pending::Reset;
        let count = cards_until(&self.data, day).len();
        Action::DrawIndex(count)
    }

    /// Asks for another card: for a non-empty deck, a draw that must land on
    /// a different card when there is more than one; nothing for an empty deck.
    pub fn next(&mut self) -> (action: Action)
        ensures
            (final(self)@, action) == step(old(self)@, SessionEvent::Next),
            final(self).same_page(old(self)),
            final(self).card_index == old(self).card_index,
            final(self).show_answer == old(self).show_answer,
            old(self).card_count() > 0 ==> final(self).pending == Pending::Next && action
                == Action::DrawIndex(old(self).card_count() as usize),
            old(self).card_count() == 0 ==> final(self).pending == old(self).pending && action
                == Action::Idle,
            old(self).wf() && old(self).pending == Pending::Nothing ==> final(self).wf(),
    {
        let count = cards_until(&self.data, self.max_day).len();
        if count > 0 {
            self.pending = Pending::Next;
            Action::DrawIndex(count)
        } else {
            Action::Idle
        }
    }

    /// A tap on the card (or on the reveal button): reveals the answer when
    /// it is hidden, and otherwise asks for another card as [`Session::next`]
    /// does.
    pub fn tap(&mut self) -> (action: Action)
        ensures
            (final(self)@, action) == step(old(self)@, SessionEvent::Tap),
            !old(self).show_answer ==> final(self).show_answer && final(self).same_deck_position(
                old(self),
            ) && action == Action::Idle,
            old(self).show_answer ==> {
                &&& final(self).same_page(old(self))
                &&& final(self).card_index == old(self).card_index
                &&& final(self).show_answer
                &&& old(self).card_count() > 0 ==> final(self).pending == Pending::Next && action
                    == Action::DrawIndex(old(self).card_count() as usize)
                &&& old(self).card_count() == 0 ==> final(self).pending == old(self).pending
                    && action == Action::Idle
            },
            old(self).wf() && old(self).pending == Pending::Nothing ==> final(self).wf(),
    {
        if self.show_answer {
            self.next()
        } else {
            self.show_answer = true;
            Action::Idle
        }
    }

    /// Steps back one card, from the first card to the last, and hides the
    /// answer; nothing for an empty deck.
    pub fn previous(&mut self)
        ensures
            final(self)@ == step(old(self)@, SessionEvent::Previous).0,
            final(self).same_page(old(self)),
            final(self).pending == old(self).pending,
            old(self).card_count() > 0 ==> {
                &&& final(self).card_index == if old(self).card_index == 0 {
                    old(self).card_count() - 1
                } else {
                    old(self).card_index - 1
                }
                &&& !final(self).show_answer
            },
            old(self).card_count() == 0 ==> final(self).card_index == old(self).card_index
                && final(self).show_answer == old(self).show_answer,
            old(self).wf() && old(self).pending == Pending::Nothing ==> final(self).wf(),
    {
        let count = cards_until(&self.data, self.max_day).len();
        if count > 0 {
            self.card_index = if self.card_index == 0 { count - 1 } else { self.card_index - 1 };
            self.show_answer = false;
        }
    }

    /// Takes a random index drawn for the pending request.
    /// With no draw pending nothing changes. After a deck change the index
    /// becomes the card on show. For another card, an index equal to the
    /// card on show is refused with a new draw request when the deck has
    /// more than one card; otherwise it becomes the card on show and the
    /// answer is hidden.
    pub fn drawn(&mut self, index: usize) -> (action: Action)
        ensures
            (final(self)@, action) == step(old(self)@, SessionEvent::Drawn(index)),
            final(self).same_page(old(self)),
            old(self).pending == Pending::Nothing ==> final(self).same_deck_position(old(self))
                && final(self).show_answer == old(self).show_answer && action == Action::Idle,
            old(self).pending == Pending::Reset ==> final(self).card_index == index
                && final(self).pending == Pending::Nothing && final(self).show_answer
                == old(self).show_answer && action == Action::Idle,
            old(self).pending == Pending::Next ==> if old(self).card_count() > 1 && index
                == old(self).card_index {
                &&& final(self).same_deck_position(old(self))
                &&& final(self).show_answer == old(self).show_answer
                &&& action == Action::DrawIndex(old(self).card_count() as usize)
            } else {
                &&& final(self).card_index == index
                &&& final(self).pending == Pending::Nothing
                &&& !final(self).show_answer
                &&& action == Action::Idle
            },
            old(self).wf() && index_in_deck(index, old(self).card_count()) ==> final(self).wf(),
            old(self).pending == Pending::Next && old(self).card_count() > 1
                && final(self).pending == Pending::Nothing ==> final(self).card_index
                != old(self).card_index,
    {
        match self.pending {
            Pending::Nothing => Action::Idle,
            Pending::Reset => {
                self.card_index = index;
                self.pending = Pending::Nothing;
                Action::Idle
            },
            Pending::Next => {
                let count = cards_until(&self.data, self.max_day).len();
                if count > 1 && index == self.card_index {
                    Action::DrawIndex(count)
                } else {
                    self.card_index = index;
                    self.show_answer = false;
                    self.pending = Pending::Nothing;
                    Action::Idle
                }
            },
        }
    }

    /// The label of the colour-scheme button.
    pub fn dark_mode_label(&self) -> (label: &'static str)
        ensures
            label@ == if self.dark_mode {
                "Light mode"@
            } else {
                "Dark mode"@
            },
    {
        if self.dark_mode {
            "Light mode"
        } else {
            "Dark mode"
        }
    }

    /// The label of the reveal button.
    pub fn answer_button_label(&self) -> (label: &'static str)
        ensures
            label@ == if self.show_answer {
                "Next Random"@
            } else {
                "Show Tamil"@
            },
    {
        if self.show_answer {
            "Next Random"
        } else {
            "Show Tamil"
        }
    }

    /// `"Card <position> of <deck size>"`, counting from 1.
    pub fn progress_text(&self) -> (text: String)
        requires
            self.card_index < usize::MAX,
        ensures
            text@ == "Card "@ + decimal((self.card_index + 1) as nat) + " of "@ + decimal(self.card_count()),
    {
        let count = cards_until(&self.data, self.max_day).len();
        let mut text = String::new();
        text.append("Card ");
        push_decimal(&mut text, self.card_index + 1);
        text.append(" of ");
        push_decimal(&mut text, count);
        text
    }

    /// `"Showing through day <day>"`.
    pub fn selected_day_text(&self) -> (text: String)
        ensures
            text@ == "Showing through day "@ + decimal(self.max_day as nat),
    {
        let mut text = String::new();
        text.append("Showing through day ");
        push_decimal(&mut text, self.max_day);
        text
    }

    /// `"All data through day <day>"`, the heading of the list page.
    pub fn list_heading(&self) -> (text: String)
        ensures
            text@ == "All data through day "@ + decimal(self.max_day as nat),
    {
        let mut text = String::new();
        text.append("All data through day ");
        push_decimal(&mut text, self.max_day);
        text
    }
}

/// The day that the day field's text `input` selects, for lessons of
/// `total_days` days: `input.parse::<usize>().unwrap_or(1).clamp(1, total_days)`.
pub fn day_from_input(input: &str, total_days: usize) -> (day: usize)
    requires
        total_days >= 1,
    ensures
        day == chosen_day(input@, total_days),
        1 <= day <= total_days,
        parsed_number(input@) is Some && 1 <= parsed_number(input@)->0 <= total_days ==> day
            == parsed_number(input@)->0,
        parsed_number(input@) is Some && total_days < parsed_number(input@)->0 <= usize::MAX ==> day
            == total_days,
        parsed_number(input@) == Some(0nat) ==> day == 1,
        parsed_number(input@) is None ==> day == 1,
        parsed_number(input@) is Some && parsed_number(input@)->0 > usize::MAX ==> day == 1,
{
    proof {
        lemma_chosen_day(input@, total_days);
    }
    let n = match parse_usize(input) {
        Some(v) => v,
        None => 1,
    };
    if n < 1 {
        1
    } else if n > total_days {
        total_days
    } else {
        n
    }
}

/// The day the field selects: the number it holds when that number is a day
/// of the lessons, the last day for a larger number that fits a `usize`, and
/// the first day for zero, for a number too large for a `usize`, and for text
/// that is not a number.
pub proof fn lemma_chosen_day(input: Seq<char>, total_days: usize)
    requires
        total_days >= 1,
    ensures
        1 <= chosen_day(input, total_days) <= total_days,
        parsed_number(input) is Some && 1 <= parsed_number(input)->0 <= total_days ==> chosen_day(
            input,
            total_days,
        ) == parsed_number(input)->0,
        parsed_number(input) is Some && total_days < parsed_number(input)->0 <= usize::MAX
            ==> chosen_day(input, total_days) == total_days,
        parsed_number(input) == Some(0nat) ==> chosen_day(input, total_days) == 1,
        parsed_number(input) is None ==> chosen_day(input, total_days) == 1,
        parsed_number(input) is Some && parsed_number(input)->0 > usize::MAX ==> chosen_day(
            input,
            total_days,
        ) == 1,
{
}

/// Entering the day that the field shows after a day was applied selects the
/// same day again: applying a day twice is applying it once.
pub proof fn lemma_apply_day_idempotent(day: usize, total_days: usize)
    requires
        1 <= day <= total_days,
    ensures
        chosen_day(decimal(day as nat), total_days) == day,
{
    lemma_decimal_parses(day as nat);
}

} // verus!
