# tamil_flashcards

A flashcard app for spoken Tamil (in English transliteration), split in two:

- `src/` — the verified library:
  - `deck`: lessons (`DayData`, `Item`), the deck of cards through a day
    (`cards_until`), the days shown on the list page (`days_until`), the card
    on show (`current_card`), and card/day captions.
  - `session`: the study session as a state machine. Each event (apply the
    day field, tap the card, next, previous, toggles) is a method; a step that
    needs a random card answers `Action::DrawIndex(len)` and the caller hands
    the draw back through `Session::drawn`. Each method is tied to the value
    model `step` over `SessionView`, on which `lemma_reachable_card_in_deck`
    shows that every reachable state keeps the card on show inside the deck.
  - `url`: percent encoding and the Google Translate link.
  - `number`: decimal text of numbers and reading it back as `str::parse`
    does.
  - `text`: the one trusted item, `String::push`.
- `app/` — the Leptos front end: loads the lesson file with serde, draws
  random numbers, and renders the session.
