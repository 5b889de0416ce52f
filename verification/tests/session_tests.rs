use flashcards::card::{Card, CardField};
use flashcards::http::Response;
use flashcards::resource::Resource;
use flashcards::session::{classify_outcome, random_image_url, Fetch, FetchRequest, HttpApp, KeysPressed};
use flashcards::store::{CardStore, Statement};

const NO_KEYS: KeysPressed = KeysPressed { arrow_down: false, arrow_up: false, enter: false, backspace: false };

fn text_resource(url: &str, body: &str) -> Resource {
    let headers = vec![("content-type".to_owned(), "text/plain".to_owned())];
    let response =
        Response::new(url.to_owned(), true, 200, "OK".to_owned(), headers, body.as_bytes().to_vec()).unwrap();
    Resource::from_response(response)
}

fn store_of(n: usize) -> CardStore {
    let mut store = CardStore::new();
    for _ in 0..n {
        store.insert_new().unwrap();
    }
    store
}

#[test]
fn initial_state() {
    let app = HttpApp::new();
    assert_eq!(app.url(), "https://raw.githubusercontent.com/emilk/egui/master/README.md");
    assert_eq!(app.line_selected(), 0);
    assert_eq!(app.fetch(), &Fetch::Idle);
    assert_eq!(app.fetches_issued(), 0);
    let app = HttpApp::default();
    assert_eq!(app.url(), "https://raw.githubusercontent.com/emilk/egui/master/README.md");
    assert_eq!(app.fetch(), &Fetch::Idle);
}

#[test]
fn enter_with_no_cards_creates_one_placeholder_card() {
    let mut app = HttpApp::new();
    let mut store = CardStore::new();
    let statement = app.handle_keys(KeysPressed { enter: true, ..NO_KEYS }, &store);
    assert_eq!(statement, Some(Statement::InsertCard));
    store.execute(statement.unwrap()).unwrap();
    let cards = store.list_active();
    assert_eq!(cards.len(), 1);
    assert_eq!(store.len(), 1);
    assert_eq!(cards[0].title, "");
    assert_eq!(cards[0].question, "");
    assert_eq!(cards[0].answer, "");
    assert!(!cards[0].deleted);
    assert_eq!(cards[0].rowid, Some(1));
    assert_eq!(app.line_selected(), 0);
}

#[test]
fn arrows_move_over_active_cards() {
    let mut app = HttpApp::new();
    let mut store = store_of(5);
    store.soft_delete(2);
    store.soft_delete(3);
    let down = KeysPressed { arrow_down: true, ..NO_KEYS };
    let up = KeysPressed { arrow_up: true, ..NO_KEYS };
    assert_eq!(app.handle_keys(down, &store), None);
    assert_eq!(app.line_selected(), 1);
    app.handle_keys(down, &store);
    assert_eq!(app.line_selected(), 4);
    app.handle_keys(down, &store);
    assert_eq!(app.line_selected(), 5);
    app.handle_keys(down, &store);
    assert_eq!(app.line_selected(), 5);
    assert_eq!(app.handle_keys(up, &store), None);
    assert_eq!(app.line_selected(), 4);
    app.handle_keys(up, &store);
    assert_eq!(app.line_selected(), 1);
    app.handle_keys(up, &store);
    assert_eq!(app.line_selected(), 1);
}

#[test]
fn arrows_leave_the_selection_in_an_empty_store() {
    let mut app = HttpApp::new();
    let store = CardStore::new();
    app.select(7);
    app.handle_keys(KeysPressed { arrow_down: true, ..NO_KEYS }, &store);
    assert_eq!(app.line_selected(), 7);
    app.handle_keys(KeysPressed { arrow_up: true, ..NO_KEYS }, &store);
    assert_eq!(app.line_selected(), 7);
}

#[test]
fn one_key_takes_effect_per_frame() {
    let store = store_of(3);
    let mut app = HttpApp::new();
    app.select(2);
    let all = KeysPressed { arrow_down: true, arrow_up: true, enter: true, backspace: true };
    assert_eq!(app.handle_keys(all, &store), None);
    assert_eq!(app.line_selected(), 3);
    let mut app = HttpApp::new();
    app.select(2);
    assert_eq!(app.handle_keys(KeysPressed { arrow_down: false, ..all }, &store), None);
    assert_eq!(app.line_selected(), 1);
    let mut app = HttpApp::new();
    app.select(2);
    assert_eq!(
        app.handle_keys(KeysPressed { arrow_down: false, arrow_up: false, ..all }, &store),
        Some(Statement::InsertCard)
    );
    assert_eq!(app.line_selected(), 2);
    assert_eq!(app.handle_keys(NO_KEYS, &store), None);
    assert_eq!(app.line_selected(), 2);
}

#[test]
fn backspace_soft_deletes_the_selected_card() {
    let mut store = store_of(3);
    let mut app = HttpApp::new();
    app.select(2);
    let statement = app.handle_keys(KeysPressed { backspace: true, ..NO_KEYS }, &store);
    assert_eq!(statement, Some(Statement::SoftDelete { id: 2 }));
    store.execute(statement.unwrap()).unwrap();
    let listed: Vec<Option<i64>> = store.list_active().iter().map(|card| card.rowid).collect();
    assert_eq!(listed, vec![Some(1), Some(3)]);
    assert_eq!(app.line_selected(), 2);
    app.handle_keys(KeysPressed { arrow_down: true, ..NO_KEYS }, &store);
    assert_eq!(app.line_selected(), 3);
}

#[test]
fn keys_do_not_touch_url_or_fetch() {
    let store = store_of(2);
    let mut app = HttpApp::new();
    app.url_input("https://a".to_owned(), true, None);
    app.handle_keys(KeysPressed { arrow_down: true, ..NO_KEYS }, &store);
    assert_eq!(app.url(), "https://a");
    assert_eq!(app.fetch(), &Fetch::Pending { ticket: 1 });
    assert_eq!(app.fetches_issued(), 1);
}

#[test]
fn clicking_a_card_selects_it() {
    let mut app = HttpApp::new();
    app.select(42);
    assert_eq!(app.line_selected(), 42);
    assert_eq!(app.fetch(), &Fetch::Idle);
}

#[test]
fn edited_field_is_written_when_focus_is_lost() {
    let mut app = HttpApp::new();
    app.select(3);
    let shown = "old".to_owned();
    assert_eq!(
        app.field_edited(CardField::Question, &shown, "new".to_owned(), true),
        Some(Statement::UpdateField { id: 3, field: CardField::Question, value: "new".to_owned() })
    );
    assert_eq!(app.field_edited(CardField::Question, &shown, "new".to_owned(), false), None);
    assert_eq!(app.field_edited(CardField::Question, &shown, "old".to_owned(), true), None);
    assert_eq!(app.field_edited(CardField::Title, &shown, "old".to_owned(), false), None);
}

#[test]
fn edited_field_reaches_the_store() {
    let mut store = store_of(2);
    let mut app = HttpApp::new();
    app.select(2);
    let shown: Card = store.get(app.line_selected());
    let statement = app.field_edited(CardField::Answer, &shown.answer, "42".to_owned(), true).unwrap();
    store.execute(statement).unwrap();
    assert_eq!(store.get(2).answer, "42");
    assert_eq!(store.get(1).answer, "");
}

#[test]
fn typing_changes_the_url_without_fetching() {
    let mut app = HttpApp::new();
    assert_eq!(app.url_input("https://exa".to_owned(), false, None), None);
    assert_eq!(app.url(), "https://exa");
    assert_eq!(app.fetch(), &Fetch::Idle);
    assert_eq!(app.fetches_issued(), 0);
}

#[test]
fn leaving_the_url_field_starts_a_fetch() {
    let mut app = HttpApp::new();
    app.url_input("https://typed".to_owned(), false, None);
    let request = app.url_input("https://typed/more".to_owned(), true, None);
    assert_eq!(
        request,
        Some(FetchRequest {
            ticket: 1,
            url: "https://typed/more".to_owned(),
            forget: "https://typed".to_owned(),
        })
    );
    assert_eq!(app.url(), "https://typed/more");
    assert_eq!(app.fetch(), &Fetch::Pending { ticket: 1 });
}

#[test]
fn random_image_button_synthesizes_the_url_and_fetches() {
    let mut app = HttpApp::new();
    let request = app.url_input("ignored".to_owned(), false, Some("12.5")).unwrap();
    assert_eq!(request.url, "https://picsum.photos/seed/12.5/640");
    assert_eq!(request.forget, "https://raw.githubusercontent.com/emilk/egui/master/README.md");
    assert_eq!(request.ticket, 1);
    assert_eq!(app.url(), "https://picsum.photos/seed/12.5/640");
    assert_eq!(app.fetch(), &Fetch::Pending { ticket: 1 });
}

#[test]
fn random_image_url_formula() {
    assert_eq!(random_image_url("0"), "https://picsum.photos/seed/0/640");
    assert_eq!(random_image_url("1698.25"), "https://picsum.photos/seed/1698.25/640");
    assert_eq!(random_image_url(""), "https://picsum.photos/seed//640");
}

#[test]
fn delivery_makes_the_result_ready() {
    let mut app = HttpApp::new();
    let request = app.url_input("https://example.com/a.txt".to_owned(), true, None).unwrap();
    app.deliver(request.ticket, Ok(text_resource("https://example.com/a.txt", "body")));
    assert_eq!(app.fetch(), &Fetch::Ready { result: Ok(text_resource("https://example.com/a.txt", "body")) });
    let request = app.url_input("https://example.com/b.txt".to_owned(), true, None).unwrap();
    assert_eq!(app.fetch(), &Fetch::Pending { ticket: 2 });
    app.deliver(request.ticket, Err("timed out".to_owned()));
    assert_eq!(app.fetch(), &Fetch::Ready { result: Err("timed out".to_owned()) });
}

#[test]
fn only_the_latest_fetch_is_observed_when_the_first_completes_first() {
    let mut app = HttpApp::new();
    let a = app.url_input("https://a".to_owned(), true, None).unwrap();
    let b = app.url_input("https://b".to_owned(), true, None).unwrap();
    assert_ne!(a.ticket, b.ticket);
    app.deliver(a.ticket, Ok(text_resource("https://a", "from a")));
    assert_eq!(app.fetch(), &Fetch::Pending { ticket: b.ticket });
    app.deliver(b.ticket, Ok(text_resource("https://b", "from b")));
    assert_eq!(app.fetch(), &Fetch::Ready { result: Ok(text_resource("https://b", "from b")) });
}

#[test]
fn only_the_latest_fetch_is_observed_when_the_first_completes_last() {
    let mut app = HttpApp::new();
    let a = app.url_input("https://a".to_owned(), true, None).unwrap();
    let b = app.url_input("https://b".to_owned(), true, None).unwrap();
    app.deliver(b.ticket, Ok(text_resource("https://b", "from b")));
    app.deliver(a.ticket, Err("late failure".to_owned()));
    assert_eq!(app.fetch(), &Fetch::Ready { result: Ok(text_resource("https://b", "from b")) });
    app.deliver(b.ticket, Err("again".to_owned()));
    assert_eq!(app.fetch(), &Fetch::Ready { result: Ok(text_resource("https://b", "from b")) });
}

#[test]
fn delivery_without_a_pending_fetch_is_dropped() {
    let mut app = HttpApp::new();
    app.deliver(0, Err("stray".to_owned()));
    app.deliver(1, Err("stray".to_owned()));
    assert_eq!(app.fetch(), &Fetch::Idle);
}

#[test]
fn outcome_is_classified_or_passed_on() {
    let headers = vec![("content-type".to_owned(), "image/jpeg".to_owned())];
    let response =
        Response::new("https://example.com/p".to_owned(), true, 200, "OK".to_owned(), headers, vec![1, 2]).unwrap();
    let result = classify_outcome(Ok(response)).unwrap();
    assert!(result.image.is_some());
    assert_eq!(result.text, None);
    assert_eq!(classify_outcome(Err("dns".to_owned())), Err("dns".to_owned()));
    assert_eq!(classify_outcome(Err(String::new())), Err(String::new()));
}
