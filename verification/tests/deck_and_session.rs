use tamil_flashcards::deck::{cards_until, current_card, days_until, Card, DayData, Item};
use tamil_flashcards::session::{Action, Pending, Session};

fn item(tamil: &str, english: &str) -> Item {
    Item { tamil: tamil.to_string(), english: english.to_string() }
}

fn lessons() -> Vec<DayData> {
    vec![
        DayData {
            day: 1,
            focus: "Greetings".to_string(),
            sentences: vec![item("vanakkam", "hello"), item("epdi irukeenga?", "how are you?")],
            words: vec![item("naan", "I")],
        },
        DayData {
            day: 2,
            focus: "Food".to_string(),
            sentences: vec![item("saapteengala?", "did you eat?")],
            words: vec![item("saapadu", "food"), item("thanni", "water")],
        },
        DayData {
            day: 3,
            focus: "Travel".to_string(),
            sentences: vec![],
            words: vec![item("bus", "bus")],
        },
    ]
}

fn summary(cards: &[Card]) -> Vec<(usize, &'static str, String, String)> {
    cards.iter().map(|c| (c.day, c.kind, c.front.clone(), c.back.clone())).collect()
}

#[test]
fn cards_until_orders_sentences_then_words() {
    let data = lessons();
    let cards = cards_until(&data, 2);
    assert_eq!(
        summary(&cards),
        vec![
            (1, "Sentence", "hello".to_string(), "vanakkam".to_string()),
            (1, "Sentence", "how are you?".to_string(), "epdi irukeenga?".to_string()),
            (1, "Word", "I".to_string(), "naan".to_string()),
            (2, "Sentence", "did you eat?".to_string(), "saapteengala?".to_string()),
            (2, "Word", "food".to_string(), "saapadu".to_string()),
            (2, "Word", "water".to_string(), "thanni".to_string()),
        ]
    );
}

#[test]
fn cards_until_filters_by_day() {
    let data = lessons();
    assert_eq!(cards_until(&data, 0).len(), 0);
    assert_eq!(cards_until(&data, 1).len(), 3);
    assert_eq!(cards_until(&data, 3).len(), 7);
    assert_eq!(cards_until(&data, 100).len(), 7);
    assert_eq!(cards_until(&[], 5).len(), 0);
}

#[test]
fn cards_until_keeps_given_order_of_days() {
    let mut data = lessons();
    data.reverse();
    let days: Vec<usize> = cards_until(&data, 3).iter().map(|c| c.day).collect();
    assert_eq!(days, vec![3, 2, 2, 2, 1, 1, 1]);
}

#[test]
fn card_count_grows_with_the_day() {
    let data = lessons();
    let mut last = 0;
    for day in 0..5 {
        let n = cards_until(&data, day).len();
        assert!(n >= last);
        last = n;
    }
}

#[test]
fn days_until_filters() {
    let data = lessons();
    let days: Vec<usize> = days_until(&data, 2).iter().map(|d| d.day).collect();
    assert_eq!(days, vec![1, 2]);
    assert!(days_until(&data, 0).is_empty());
}

#[test]
fn current_card_clamps_to_last() {
    let data = lessons();
    let cards = cards_until(&data, 1);
    assert!(current_card(&[], 0).is_none());
    assert_eq!(current_card(&cards, 1).unwrap().front, "how are you?");
    assert_eq!(current_card(&cards, 2).unwrap().front, "I");
    assert_eq!(current_card(&cards, 50).unwrap().front, "I");
}

#[test]
fn card_and_day_texts() {
    let data = lessons();
    let cards = cards_until(&data, 1);
    assert_eq!(cards[0].meta_text(), "Day 1 · Sentence");
    assert_eq!(cards[2].meta_text(), "Day 1 · Word");
    assert_eq!(data[1].heading(), "Day 2: Food");
}

fn settle(session: &mut Session, mut action: Action, draws: &mut Vec<usize>) {
    while let Action::DrawIndex(_) = action {
        let d = draws.remove(0);
        action = session.drawn(d);
    }
}

#[test]
fn new_session_asks_for_a_draw_over_day_one() {
    let (mut s, action) = Session::new(lessons());
    assert_eq!(action, Action::DrawIndex(3));
    assert_eq!(s.max_day, 1);
    assert_eq!(s.day_input, "1");
    assert!(!s.show_answer && !s.show_list && !s.dark_mode);
    assert_eq!(s.pending, Pending::Reset);
    assert_eq!(s.drawn(2), Action::Idle);
    assert_eq!(s.card_index, 2);
    assert_eq!(s.pending, Pending::Nothing);
    assert_eq!(s.current_card().unwrap().back, "naan");
    assert_eq!(s.total_days(), 3);
}

#[test]
fn tap_reveals_then_moves_to_another_card() {
    let (mut s, a) = Session::new(lessons());
    settle(&mut s, a, &mut vec![0]);
    assert_eq!(s.answer_button_label(), "Show Tamil");
    assert_eq!(s.tap(), Action::Idle);
    assert!(s.show_answer);
    assert_eq!(s.answer_button_label(), "Next Random");
    let a = s.tap();
    assert_eq!(a, Action::DrawIndex(3));
    // A draw of the card on show is refused and asked again.
    assert_eq!(s.drawn(0), Action::DrawIndex(3));
    assert_eq!(s.card_index, 0);
    assert_eq!(s.drawn(1), Action::Idle);
    assert_eq!(s.card_index, 1);
    assert!(!s.show_answer);
}

#[test]
fn next_on_single_card_deck_accepts_same_card() {
    let data = vec![DayData {
        day: 1,
        focus: "One".to_string(),
        sentences: vec![],
        words: vec![item("oru", "one")],
    }];
    let (mut s, a) = Session::new(data);
    assert_eq!(a, Action::DrawIndex(1));
    s.drawn(0);
    s.tap();
    assert_eq!(s.next(), Action::DrawIndex(1));
    assert_eq!(s.drawn(0), Action::Idle);
    assert_eq!(s.card_index, 0);
    assert!(!s.show_answer);
}

#[test]
fn next_on_empty_deck_does_nothing() {
    let (mut s, a) = Session::new(Vec::new());
    assert_eq!(a, Action::DrawIndex(0));
    s.drawn(0);
    assert_eq!(s.next(), Action::Idle);
    assert_eq!(s.pending, Pending::Nothing);
    assert!(s.current_card().is_none());
    s.previous();
    assert_eq!(s.card_index, 0);
}

#[test]
fn previous_wraps_to_last_card() {
    let (mut s, a) = Session::new(lessons());
    settle(&mut s, a, &mut vec![0]);
    s.tap();
    s.previous();
    assert_eq!(s.card_index, 2);
    assert!(!s.show_answer);
    s.previous();
    assert_eq!(s.card_index, 1);
}

#[test]
fn apply_day_clamps_and_rewrites_field() {
    let (mut s, a) = Session::new(lessons());
    settle(&mut s, a, &mut vec![0]);
    s.set_day_input("9".to_string());
    let a = s.apply_day();
    assert_eq!(s.max_day, 3);
    assert_eq!(s.day_input, "3");
    assert_eq!(a, Action::DrawIndex(7));
    assert_eq!(s.pending, Pending::Reset);
    assert_eq!(s.drawn(6), Action::Idle);
    assert_eq!(s.current_card().unwrap().front, "bus");
    s.set_day_input("zwei".to_string());
    s.apply_day();
    assert_eq!(s.max_day, 1);
    assert_eq!(s.day_input, "1");
}

#[test]
fn apply_day_twice_keeps_the_day() {
    let (mut s, a) = Session::new(lessons());
    settle(&mut s, a, &mut vec![0]);
    s.set_day_input("+2".to_string());
    let a = s.apply_day();
    settle(&mut s, a, &mut vec![4]);
    assert_eq!(s.day_input, "2");
    let a = s.apply_day();
    settle(&mut s, a, &mut vec![1]);
    assert_eq!(s.max_day, 2);
    assert_eq!(s.day_input, "2");
}

#[test]
fn apply_day_hides_answer() {
    let (mut s, a) = Session::new(lessons());
    settle(&mut s, a, &mut vec![0]);
    s.tap();
    assert!(s.show_answer);
    s.set_day_input("2".to_string());
    s.apply_day();
    assert!(!s.show_answer);
}

#[test]
fn page_settings_and_labels() {
    let (mut s, a) = Session::new(lessons());
    settle(&mut s, a, &mut vec![1]);
    assert_eq!(s.dark_mode_label(), "Dark mode");
    s.toggle_dark_mode();
    assert!(s.dark_mode);
    assert_eq!(s.dark_mode_label(), "Light mode");
    s.toggle_dark_mode();
    assert!(!s.dark_mode);
    s.set_show_list(true);
    assert!(s.show_list);
    s.set_show_list(false);
    assert!(!s.show_list);
    assert_eq!(s.progress_text(), "Card 2 of 3");
    assert_eq!(s.selected_day_text(), "Showing through day 1");
    assert_eq!(s.list_heading(), "All data through day 1");
    assert_eq!(s.visible_days().len(), 1);
    assert_eq!(s.current_cards().len(), 3);
}

#[test]
fn drawn_without_request_changes_nothing() {
    let (mut s, a) = Session::new(lessons());
    settle(&mut s, a, &mut vec![1]);
    assert_eq!(s.drawn(0), Action::Idle);
    assert_eq!(s.card_index, 1);
}

#[test]
fn card_stays_in_deck_over_many_events() {
    let (mut s, a) = Session::new(lessons());
    let mut seed: u64 = 12345;
    let mut rand = move |bound: usize| -> usize {
        seed = seed.wrapping_mul(6364136223846793005).wrapping_add(1442695040888963407);
        if bound == 0 { 0 } else { ((seed >> 33) as usize) % bound }
    };
    let mut action = a;
    for round in 0..500 {
        while let Action::DrawIndex(len) = action {
            action = s.drawn(rand(len));
        }
        assert_eq!(s.pending, Pending::Nothing);
        let n = s.current_cards().len();
        if n > 0 {
            assert!(s.card_index < n, "round {round}: index {} of {n}", s.card_index);
        }
        assert!(1 <= s.max_day && s.max_day <= 3);
        action = match rand(6) {
            0 => {
                s.set_day_input(rand(5).to_string());
                s.apply_day()
            }
            1 => s.next(),
            2 => s.tap(),
            3 => {
                s.previous();
                Action::Idle
            }
            4 => {
                s.toggle_dark_mode();
                Action::Idle
            }
            _ => {
                s.set_show_list(rand(2) == 1);
                Action::Idle
            }
        };
    }
}
