use bon_scanner::app::{App, AppState};
use bon_scanner::commit::{CategoryRef, CommitPlan, NewProduct, PlannedEntry, ProductRef};
use bon_scanner::database::{Bon, Category, Entry, Product, Snapshot};
use bon_scanner::event::{Action, AppEvent, Failure, Key};
use bon_scanner::ocr::{OcrEntry, OcrType};
use bon_scanner::price::Price;
use bon_scanner::summary::SummaryEntry;

const DIRECTORY: &str = "/home/u/Pictures";

const TEXT: &str = "Milch 2,49\nBrot 3,10\nSUMME 5,59\nDatum 24.12.2024\nDanke";

fn store() -> Snapshot {
    let mut first = Bon::new("2024-12-01", Price { units: 69_800 });
    first.bon_id = 1;
    first.entries = vec![
        Entry::new("food", "butter", Price { units: 29_900 }),
        Entry::new("food", "eggs", Price { units: 39_900 }),
    ];
    let mut second = Bon::new("2024-12-02", Price { units: 49_900 });
    second.bon_id = 2;
    second.entries = vec![Entry::new("stuff", "spoon", Price { units: 49_900 })];
    Snapshot {
        bons: vec![first, second],
        categories: vec![Category::new(1, "food"), Category::new(2, "stuff")],
        products: vec![
            Product::new(1, 1, "butter"),
            Product::new(2, 1, "eggs"),
            Product::new(3, 2, "spoon"),
        ],
        blacklist: vec!["Danke".to_string()],
        processed: vec!["old.jpg".to_string()],
        files: vec![
            "old.jpg".to_string(),
            "bon.jpg".to_string(),
            "notes.txt".to_string(),
            "scan.png".to_string(),
        ],
    }
}

fn empty_store() -> Snapshot {
    Snapshot {
        bons: vec![],
        categories: vec![],
        products: vec![],
        blacklist: vec![],
        processed: vec![],
        files: vec![],
    }
}

fn send(event: AppEvent) -> Action {
    Action::Send(event)
}

/// Steps the session with a key, and then with every event that the steps
/// ask to send, in their order. Returns the other actions asked for.
fn press(app: &mut App, key: Key) -> Vec<Action> {
    let actions = app.handle_key_events(key);
    settle(app, actions)
}

fn settle(app: &mut App, actions: Vec<Action>) -> Vec<Action> {
    let mut waiting: Vec<Action> = actions;
    let mut asked = Vec::new();
    while !waiting.is_empty() {
        let action = waiting.remove(0);
        match action {
            Action::Send(event) => {
                let more = app.handle_event(event, store());
                waiting.extend(more);
            }
            other => asked.push(other),
        }
        assert!(app.is_well_formed());
    }
    asked
}

fn at_the_lines() -> App {
    let mut app = App::new(store(), DIRECTORY.to_string());
    press(&mut app, Key::Char('i'));
    press(&mut app, Key::Enter);
    app.perform_ocr(TEXT);
    app
}

fn at_the_draft() -> App {
    let mut app = at_the_lines();
    press(&mut app, Key::Char('j'));
    press(&mut app, Key::Char('j'));
    press(&mut app, Key::Char('s'));
    press(&mut app, Key::Char('j'));
    press(&mut app, Key::Char('d'));
    press(&mut app, Key::Enter);
    app
}

fn tags(app: &App) -> Vec<OcrType> {
    app.ocr_list.items.iter().map(|e| e.ocr_type).collect()
}

#[test]
fn a_session_starts_at_home() {
    let app = App::new(store(), DIRECTORY.to_string());
    assert_eq!(app.current_state, AppState::Home);
    assert_eq!(app.bon_list.items.len(), 2);
    assert_eq!(app.bon_list.state.selected, Some(0));
    assert_eq!(app.category_list.items, store().categories);
    assert_eq!(app.category_list.state.selected, Some(0));
    assert_eq!(app.import_list.items, vec!["bon.jpg", "scan.png"]);
    assert_eq!(app.import_list.state.selected, Some(0));
    assert_eq!(app.ocr_blacklist, vec!["Danke"]);
    assert_eq!(app.ocr_list.items, vec![]);
    assert_eq!(app.ocr_file, "");
    assert_eq!(app.import_path, "/home/u/Pictures");
    assert_eq!(app.edit_field, "");
    assert_eq!(app.failure, None);
    assert!(app.running);
    assert!(app.is_well_formed());
    let bare = App::new(empty_store(), DIRECTORY.to_string());
    assert_eq!(bare.bon_list.state.selected, None);
    assert_eq!(bare.import_list.state.selected, None);
    assert!(bare.is_well_formed());
}

#[test]
fn keys_ask_for_events() {
    let mut app = App::new(store(), DIRECTORY.to_string());
    assert_eq!(app.handle_key_events(Key::Char('i')), vec![send(AppEvent::GoImportState)]);
    assert_eq!(app.handle_key_events(Key::Char('j')), vec![send(AppEvent::NextItem)]);
    assert_eq!(app.handle_key_events(Key::Char('k')), vec![send(AppEvent::PreviousItem)]);
    assert_eq!(app.handle_key_events(Key::Char('h')), vec![send(AppEvent::HideItem)]);
    assert_eq!(app.handle_key_events(Key::Char('d')), vec![send(AppEvent::OcrMarkDate)]);
    assert_eq!(app.handle_key_events(Key::Char('s')), vec![send(AppEvent::OcrMarkSum)]);
    assert_eq!(app.handle_key_events(Key::Char('q')), vec![send(AppEvent::Quit)]);
    assert_eq!(app.handle_key_events(Key::Esc), vec![send(AppEvent::GoHomeState)]);
    for key in [
        Key::Enter,
        Key::Other,
        Key::Char('a'),
        Key::Char('b'),
        Key::Char('c'),
        Key::Char('n'),
        Key::Char('o'),
        Key::Char('p'),
        Key::Char('x'),
        Key::Char('z'),
        Key::Char('I'),
    ] {
        assert_eq!(app.handle_key_events(key), vec![], "{:?}", key);
    }
    assert_eq!(app.current_state, AppState::Home);
    assert!(app.is_well_formed());
}

#[test]
fn from_home_to_the_lines() {
    let mut app = App::new(store(), DIRECTORY.to_string());
    press(&mut app, Key::Char('i'));
    assert_eq!(app.current_state, AppState::Import);
    press(&mut app, Key::Char('j'));
    assert_eq!(app.import_list.state.selected, Some(1));
    let asked = press(&mut app, Key::Enter);
    assert_eq!(asked, vec![Action::RunOcr("/home/u/Pictures/scan.png".to_string())]);
    assert_eq!(app.current_state, AppState::OCR);
    assert_eq!(app.ocr_file, "/home/u/Pictures/scan.png");
    assert_eq!(app.ocr_list.items, vec![OcrEntry::new("Processing..", OcrType::Entry)]);
    app.perform_ocr(TEXT);
    assert_eq!(
        app.ocr_list.items,
        vec![
            OcrEntry::new("Milch 2,49", OcrType::Entry),
            OcrEntry::new("Brot 3,10", OcrType::Entry),
            OcrEntry::new("SUMME 5,59", OcrType::Entry),
            OcrEntry::new("Datum 24.12.2024", OcrType::Entry),
        ]
    );
    assert_eq!(app.ocr_list.state.selected, Some(0));
    assert!(app.is_well_formed());
}

#[test]
fn without_a_file_there_is_nothing_to_confirm() {
    let mut app = App::new(empty_store(), DIRECTORY.to_string());
    app.handle_event(AppEvent::GoImportState, empty_store());
    assert_eq!(app.current_state, AppState::Import);
    assert_eq!(app.handle_key_events(Key::Enter), vec![]);
    assert_eq!(app.current_state, AppState::Import);
    assert_eq!(app.ocr_file, "");
}

#[test]
fn recognition_that_comes_too_late_is_dropped() {
    let mut app = at_the_lines();
    press(&mut app, Key::Esc);
    assert_eq!(app.current_state, AppState::Home);
    app.perform_ocr(TEXT);
    assert_eq!(app.ocr_list.items, vec![]);
    assert_eq!(app.handle_event(AppEvent::PerformOCR, store()), vec![]);
}

#[test]
fn failed_recognition_leads_back_to_the_files() {
    let mut app = App::new(store(), DIRECTORY.to_string());
    press(&mut app, Key::Char('i'));
    press(&mut app, Key::Enter);
    assert_eq!(app.current_state, AppState::OCR);
    app.ocr_failed();
    assert_eq!(app.current_state, AppState::Import);
    assert_eq!(app.failure, Some(Failure::OcrEngine));
    assert_eq!(app.ocr_list.items, vec![]);
    assert!(app.is_well_formed());
    let asked = press(&mut app, Key::Enter);
    assert_eq!(app.failure, None);
    assert_eq!(asked, vec![Action::RunOcr("/home/u/Pictures/bon.jpg".to_string())]);
}

#[test]
fn a_second_mark_takes_the_place_of_the_first() {
    let mut app = at_the_lines();
    press(&mut app, Key::Char('d'));
    assert_eq!(
        tags(&app),
        vec![OcrType::Date, OcrType::Entry, OcrType::Entry, OcrType::Entry]
    );
    press(&mut app, Key::Char('j'));
    press(&mut app, Key::Char('d'));
    assert_eq!(
        tags(&app),
        vec![OcrType::Entry, OcrType::Date, OcrType::Entry, OcrType::Entry]
    );
    press(&mut app, Key::Char('s'));
    assert_eq!(
        tags(&app),
        vec![OcrType::Entry, OcrType::Date, OcrType::Entry, OcrType::Entry]
    );
    press(&mut app, Key::Char('j'));
    press(&mut app, Key::Char('s'));
    press(&mut app, Key::Char('j'));
    press(&mut app, Key::Char('s'));
    assert_eq!(
        tags(&app),
        vec![OcrType::Entry, OcrType::Date, OcrType::Entry, OcrType::Sum]
    );
    press(&mut app, Key::Char('s'));
    assert_eq!(
        tags(&app),
        vec![OcrType::Entry, OcrType::Date, OcrType::Entry, OcrType::Entry]
    );
    app.ocr_mark_date();
    assert_eq!(
        tags(&app),
        vec![OcrType::Entry, OcrType::Entry, OcrType::Entry, OcrType::Date]
    );
    app.ocr_mark_sum();
    assert_eq!(
        tags(&app),
        vec![OcrType::Entry, OcrType::Entry, OcrType::Entry, OcrType::Date]
    );
    assert!(app.is_well_formed());
}

#[test]
fn marks_are_only_set_at_the_lines() {
    let mut app = at_the_draft();
    let before = tags(&app);
    app.ocr_mark_date();
    app.ocr_mark_sum();
    assert_eq!(tags(&app), before);
}

#[test]
fn the_cursor_stops_at_both_ends() {
    let mut app = at_the_lines();
    press(&mut app, Key::Char('k'));
    assert_eq!(app.ocr_list.state.selected, Some(0));
    for expected in [1, 2, 3, 3, 3] {
        press(&mut app, Key::Char('j'));
        assert_eq!(app.ocr_list.state.selected, Some(expected));
    }
    for expected in [2, 1, 0, 0] {
        press(&mut app, Key::Char('k'));
        assert_eq!(app.ocr_list.state.selected, Some(expected));
    }
    let mut bare = App::new(empty_store(), DIRECTORY.to_string());
    assert_eq!(bare.handle_event(AppEvent::NextItem, empty_store()), vec![]);
    assert_eq!(bare.handle_event(AppEvent::PreviousItem, empty_store()), vec![]);
    assert_eq!(bare.bon_list.state.selected, None);
}

#[test]
fn moving_at_home_asks_for_the_summary() {
    let mut app = App::new(store(), DIRECTORY.to_string());
    assert_eq!(app.bon_summary, vec![]);
    app.handle_event(AppEvent::CalculateSummary, store());
    assert_eq!(
        app.bon_summary,
        vec![
            SummaryEntry { category: "food".to_string(), total: 69_800 },
            SummaryEntry { category: "total".to_string(), total: 69_800 },
        ]
    );
    assert_eq!(
        app.handle_event(AppEvent::NextItem, store()),
        vec![send(AppEvent::CalculateSummary)]
    );
    assert_eq!(app.handle_event(AppEvent::NextItem, store()), vec![]);
    app.handle_event(AppEvent::CalculateSummary, store());
    assert_eq!(
        app.bon_summary,
        vec![
            SummaryEntry { category: "stuff".to_string(), total: 49_900 },
            SummaryEntry { category: "total".to_string(), total: 49_900 },
        ]
    );
    assert_eq!(
        app.handle_event(AppEvent::PreviousItem, store()),
        vec![send(AppEvent::CalculateSummary)]
    );
    assert_eq!(app.handle_event(AppEvent::PreviousItem, store()), vec![]);
}

#[test]
fn a_line_is_deleted() {
    let mut app = at_the_lines();
    press(&mut app, Key::Char('j'));
    press(&mut app, Key::Char('x'));
    assert_eq!(app.ocr_list.items.len(), 3);
    assert_eq!(app.ocr_list.items[1].name, "SUMME 5,59");
    assert_eq!(app.ocr_list.state.selected, Some(1));
    press(&mut app, Key::Char('j'));
    press(&mut app, Key::Char('x'));
    assert_eq!(app.ocr_list.state.selected, Some(1));
    press(&mut app, Key::Char('x'));
    press(&mut app, Key::Char('x'));
    assert_eq!(app.ocr_list.items, vec![]);
    assert_eq!(app.ocr_list.state.selected, None);
    press(&mut app, Key::Char('x'));
    assert_eq!(app.current_state, AppState::OCR);
    assert!(app.is_well_formed());
}

#[test]
fn a_line_goes_to_the_blacklist() {
    let mut app = at_the_lines();
    press(&mut app, Key::Char('j'));
    press(&mut app, Key::Char('j'));
    press(&mut app, Key::Char('s'));
    press(&mut app, Key::Char('k'));
    let asked = press(&mut app, Key::Char('b'));
    assert_eq!(asked, vec![Action::LoadEditor]);
    assert_eq!(app.current_state, AppState::Blacklist);
    assert_eq!(app.edit_field, "Brot 3,10");
    assert_eq!(app.handle_key_events(Key::Char('x')), vec![Action::EditInput]);
    assert_eq!(app.handle_key_events(Key::Other), vec![Action::EditInput]);
    app.edit("Brot");
    assert_eq!(app.edit_field, "Brot");
    let actions = app.handle_key_events(Key::Enter);
    assert_eq!(
        actions,
        vec![
            Action::AddBlacklistEntry("Brot".to_string()),
            send(AppEvent::GoOcrState),
            send(AppEvent::UpdateFromDatabase),
        ]
    );
    app.handle_event(AppEvent::GoOcrState, store());
    assert_eq!(app.current_state, AppState::OCR);
    let mut after = store();
    after.blacklist.push("Brot".to_string());
    app.handle_event(AppEvent::UpdateFromDatabase, after);
    assert_eq!(
        app.ocr_list.items,
        vec![
            OcrEntry::new("Milch 2,49", OcrType::Entry),
            OcrEntry::new("SUMME 5,59", OcrType::Sum),
            OcrEntry::new("Datum 24.12.2024", OcrType::Entry),
        ]
    );
    assert_eq!(app.ocr_blacklist, vec!["Danke", "Brot"]);
    assert!(app.is_well_formed());
}

#[test]
fn an_empty_text_does_not_go_to_the_blacklist() {
    let mut app = at_the_lines();
    press(&mut app, Key::Char('b'));
    app.edit("");
    assert_eq!(app.handle_key_events(Key::Enter), vec![]);
    assert_eq!(app.current_state, AppState::Blacklist);
    let asked = press(&mut app, Key::Esc);
    assert_eq!(asked, vec![]);
    assert_eq!(app.current_state, AppState::OCR);
    assert_eq!(app.ocr_list.items.len(), 4);
}

#[test]
fn without_a_line_there_is_nothing_to_blacklist() {
    let mut app = at_the_lines();
    for _ in 0..4 {
        press(&mut app, Key::Char('x'));
    }
    assert_eq!(app.handle_key_events(Key::Char('b')), vec![]);
    assert_eq!(app.current_state, AppState::OCR);
}

#[test]
fn the_lines_convert_to_the_draft() {
    let app = at_the_draft();
    assert_eq!(app.current_state, AppState::ConvertBon);
    assert_eq!(app.new_bon_list.date, "24.12.2024");
    assert_eq!(
        app.new_bon_list.items,
        vec![
            Entry::new("", "Milch", Price { units: 24_900 }),
            Entry::new("", "Brot", Price { units: 31_000 }),
        ]
    );
    assert_eq!(app.new_bon_list.price_ocr, Price { units: 55_900 });
    assert_eq!(app.new_bon_list.price_calc, 55_900);
    assert!(app.new_bon_list.price_eq);
    assert_eq!(app.new_bon_list.state.selected, Some(0));
}

#[test]
fn converting_again_changes_nothing() {
    let mut app = at_the_lines();
    let first = app.convert_to_bon(&store());
    let draft = app.new_bon_list.clone();
    let second = app.convert_to_bon(&store());
    assert_eq!(first, second);
    assert_eq!(
        first,
        vec![send(AppEvent::GoConvertBonState), send(AppEvent::CalculateSummary)]
    );
    assert_eq!(app.new_bon_list.items, draft.items);
    assert_eq!(app.new_bon_list.date, draft.date);
    assert_eq!(app.new_bon_list.price_calc, draft.price_calc);
    assert_eq!(app.new_bon_list.price_ocr, draft.price_ocr);
    assert_eq!(app.new_bon_list.price_eq, draft.price_eq);
    assert_eq!(app.new_bon_list.state, draft.state);
}

#[test]
fn the_name_of_an_item_is_edited() {
    let mut app = at_the_draft();
    press(&mut app, Key::Char('j'));
    let asked = press(&mut app, Key::Char('n'));
    assert_eq!(asked, vec![Action::LoadEditor]);
    assert_eq!(app.current_state, AppState::EditName);
    assert_eq!(app.edit_field, "Brot");
    assert_eq!(app.handle_key_events(Key::Char('q')), vec![Action::EditInput]);
    app.edit("Vollkornbrot");
    press(&mut app, Key::Enter);
    assert_eq!(app.current_state, AppState::ConvertBon);
    assert_eq!(app.new_bon_list.items[1].product, "Vollkornbrot");
    assert_eq!(app.new_bon_list.items[0].product, "Milch");
    press(&mut app, Key::Char('n'));
    app.edit("something else");
    press(&mut app, Key::Esc);
    assert_eq!(app.current_state, AppState::ConvertBon);
    assert_eq!(app.new_bon_list.items[1].product, "Vollkornbrot");
}

#[test]
fn the_price_of_an_item_is_edited() {
    let mut app = at_the_draft();
    press(&mut app, Key::Char('p'));
    assert_eq!(app.current_state, AppState::EditPrice);
    assert_eq!(app.edit_field, "2.49");
    app.edit("3,49");
    press(&mut app, Key::Enter);
    assert_eq!(app.current_state, AppState::ConvertBon);
    assert_eq!(app.new_bon_list.items[0].price, Price { units: 34_900 });
    assert_eq!(app.new_bon_list.price_calc, 65_900);
    assert!(app.new_bon_list.price_eq);
    press(&mut app, Key::Char('p'));
    app.edit("3,50");
    press(&mut app, Key::Enter);
    assert_eq!(app.new_bon_list.price_calc, 66_000);
    assert!(!app.new_bon_list.price_eq);
    assert!(app.is_well_formed());
}

#[test]
fn a_price_that_does_not_parse_is_turned_down() {
    let mut app = at_the_draft();
    press(&mut app, Key::Char('p'));
    app.edit("two fifty");
    assert_eq!(app.handle_key_events(Key::Enter), vec![]);
    assert_eq!(app.current_state, AppState::EditPrice);
    assert_eq!(app.failure, Some(Failure::Parse));
    assert_eq!(app.edit_field, "two fifty");
    assert_eq!(app.new_bon_list.items[0].price, Price { units: 24_900 });
    assert_eq!(app.handle_key_events(Key::Char('2')), vec![Action::EditInput]);
    assert_eq!(app.failure, None);
    app.edit("2,5");
    press(&mut app, Key::Enter);
    assert_eq!(app.current_state, AppState::ConvertBon);
    assert_eq!(app.new_bon_list.items[0].price, Price { units: 25_000 });
}

#[test]
fn the_reported_total_is_edited() {
    let mut app = at_the_draft();
    press(&mut app, Key::Char('o'));
    assert_eq!(app.current_state, AppState::EditBonPrice);
    assert_eq!(app.edit_field, "5.59");
    app.edit("");
    assert_eq!(app.handle_key_events(Key::Enter), vec![]);
    assert_eq!(app.failure, Some(Failure::Parse));
    assert_eq!(app.current_state, AppState::EditBonPrice);
    assert_eq!(app.new_bon_list.price_ocr, Price { units: 55_900 });
    app.edit("7");
    press(&mut app, Key::Enter);
    assert_eq!(app.current_state, AppState::ConvertBon);
    assert_eq!(app.new_bon_list.price_ocr, Price { units: 70_000 });
    assert!(!app.new_bon_list.price_eq);
    assert!(app.is_well_formed());
}

#[test]
fn a_category_is_picked() {
    let mut app = at_the_draft();
    press(&mut app, Key::Char('c'));
    assert_eq!(app.current_state, AppState::Category);
    assert_eq!(app.category_list.state.selected, Some(0));
    press(&mut app, Key::Char('j'));
    press(&mut app, Key::Enter);
    assert_eq!(app.current_state, AppState::ConvertBon);
    assert_eq!(app.new_bon_list.items[0].category, "stuff");
    assert_eq!(app.new_bon_list.items[1].category, "");
    press(&mut app, Key::Char('c'));
    press(&mut app, Key::Esc);
    assert_eq!(app.current_state, AppState::ConvertBon);
    assert_eq!(app.new_bon_list.items[0].category, "stuff");
}

#[test]
fn a_category_is_added() {
    let mut app = at_the_draft();
    press(&mut app, Key::Char('c'));
    let asked = press(&mut app, Key::Char('a'));
    assert_eq!(asked, vec![Action::LoadEditor]);
    assert_eq!(app.current_state, AppState::EditCategory);
    assert_eq!(app.edit_field, "");
    app.edit("food");
    assert_eq!(
        app.handle_key_events(Key::Enter),
        vec![send(AppEvent::GoCategoryState), send(AppEvent::UpdateFromDatabase)]
    );
    app.edit("drinks");
    let actions = app.handle_key_events(Key::Enter);
    assert_eq!(
        actions,
        vec![
            Action::CreateCategory("drinks".to_string()),
            send(AppEvent::GoCategoryState),
            send(AppEvent::UpdateFromDatabase),
        ]
    );
    app.handle_event(AppEvent::GoCategoryState, store());
    assert_eq!(app.current_state, AppState::Category);
    let mut after = store();
    after.categories.push(Category::new(3, "drinks"));
    app.handle_event(AppEvent::UpdateFromDatabase, after);
    assert_eq!(app.category_list.items.len(), 3);
    assert_eq!(app.category_list.state.selected, Some(0));
    press(&mut app, Key::Char('a'));
    assert_eq!(app.handle_key_events(Key::Esc), vec![send(AppEvent::GoCategoryState)]);
}

#[test]
fn without_an_item_nothing_is_edited() {
    let mut app = at_the_lines();
    for _ in 0..4 {
        press(&mut app, Key::Char('x'));
    }
    press(&mut app, Key::Enter);
    assert_eq!(app.current_state, AppState::ConvertBon);
    assert_eq!(app.new_bon_list.items, vec![]);
    for key in ['n', 'p', 'c'] {
        assert_eq!(app.handle_key_events(Key::Char(key)), vec![]);
    }
    assert_eq!(
        app.handle_key_events(Key::Char('x')),
        vec![send(AppEvent::CalculateSummary)]
    );
    assert_eq!(
        app.handle_key_events(Key::Char('o')),
        vec![Action::LoadEditor, send(AppEvent::GoEditBonPriceState)]
    );
    assert_eq!(app.edit_field, "0");
}

#[test]
fn an_item_is_deleted() {
    let mut app = at_the_draft();
    press(&mut app, Key::Char('x'));
    assert_eq!(app.new_bon_list.items, vec![Entry::new("", "Brot", Price { units: 31_000 })]);
    assert_eq!(app.new_bon_list.price_calc, 31_000);
    assert!(!app.new_bon_list.price_eq);
    assert_eq!(app.new_bon_list.state.selected, Some(0));
    press(&mut app, Key::Char('x'));
    assert_eq!(app.new_bon_list.items, vec![]);
    assert_eq!(app.new_bon_list.price_calc, 0);
    assert_eq!(app.new_bon_list.state.selected, None);
    assert!(app.is_well_formed());
}

#[test]
fn the_draft_is_committed() {
    let mut app = at_the_draft();
    let asked = press(&mut app, Key::Enter);
    assert_eq!(
        asked,
        vec![Action::Commit(CommitPlan {
            date: "2024-12-24".to_string(),
            price: Price { units: 55_900 },
            categories: vec!["".to_string()],
            products: vec![
                NewProduct { category: CategoryRef::Created(0), product: "Milch".to_string() },
                NewProduct { category: CategoryRef::Created(0), product: "Brot".to_string() },
            ],
            entries: vec![
                PlannedEntry { product: ProductRef::Created(0), price: Price { units: 24_900 } },
                PlannedEntry { product: ProductRef::Created(1), price: Price { units: 31_000 } },
            ],
            processed: "bon.jpg".to_string(),
        })]
    );
    assert_eq!(app.current_state, AppState::ConvertBon);
    let actions = app.commit_succeeded();
    assert_eq!(
        actions,
        vec![
            send(AppEvent::GoHomeState),
            send(AppEvent::UpdateFromDatabase),
            send(AppEvent::CalculateSummary),
        ]
    );
    assert_eq!(app.ocr_file, "");
    app.handle_event(AppEvent::GoHomeState, store());
    let mut after = store();
    after.processed.push("bon.jpg".to_string());
    app.handle_event(AppEvent::UpdateFromDatabase, after);
    assert_eq!(app.current_state, AppState::Home);
    assert_eq!(app.import_list.items, vec!["scan.png"]);
    assert_eq!(app.ocr_list.items, vec![]);
    assert_eq!(app.new_bon_list.items, vec![]);
    assert!(app.is_well_formed());
}

#[test]
fn a_failed_commit_leaves_the_draft() {
    let mut app = at_the_draft();
    press(&mut app, Key::Enter);
    let items = app.new_bon_list.items.clone();
    app.storage_failed();
    assert_eq!(app.failure, Some(Failure::Storage));
    assert_eq!(app.current_state, AppState::ConvertBon);
    assert_eq!(app.new_bon_list.items, items);
    assert_eq!(app.ocr_file, "/home/u/Pictures/bon.jpg");
    assert!(app.is_well_formed());
}

#[test]
fn a_commit_is_only_reported_at_the_draft() {
    let mut app = App::new(store(), DIRECTORY.to_string());
    assert_eq!(app.commit_succeeded(), vec![]);
    assert_eq!(app.handle_event(AppEvent::ImportBon, store()), vec![]);
    assert_eq!(app.handle_event(AppEvent::ConvertToBon, store()), vec![]);
    assert_eq!(app.current_state, AppState::Home);
}

#[test]
fn going_home_lets_go_of_everything() {
    let mut app = at_the_draft();
    let asked = press(&mut app, Key::Esc);
    assert_eq!(asked, vec![Action::LoadEditor]);
    assert_eq!(app.current_state, AppState::Home);
    assert_eq!(app.ocr_list.items, vec![]);
    assert_eq!(app.ocr_list.state.selected, None);
    assert_eq!(app.new_bon_list.items, vec![]);
    assert_eq!(app.new_bon_list.date, "");
    assert_eq!(app.ocr_file, "");
    assert_eq!(app.edit_field, "");
    assert!(app.is_well_formed());
}

#[test]
fn a_receipt_is_hidden() {
    let mut app = App::new(store(), DIRECTORY.to_string());
    app.handle_event(AppEvent::NextItem, store());
    assert_eq!(
        app.handle_event(AppEvent::HideItem, store()),
        vec![Action::HideBon(2), send(AppEvent::UpdateFromDatabase)]
    );
    let mut after = store();
    after.bons.pop();
    app.handle_event(AppEvent::UpdateFromDatabase, after);
    assert_eq!(app.bon_list.items.len(), 1);
    assert_eq!(app.bon_list.state.selected, Some(0));
    let mut bare = App::new(empty_store(), DIRECTORY.to_string());
    assert_eq!(bare.handle_event(AppEvent::HideItem, empty_store()), vec![]);
    let mut elsewhere = at_the_lines();
    assert_eq!(elsewhere.handle_event(AppEvent::HideItem, store()), vec![]);
}

#[test]
fn events_out_of_place_change_nothing() {
    let mut app = App::new(store(), DIRECTORY.to_string());
    for event in [
        AppEvent::GoBlacklistState,
        AppEvent::GoCategoryState,
        AppEvent::GoConvertBonState,
        AppEvent::GoEditBonPriceState,
        AppEvent::GoEditCategoryState,
        AppEvent::GoEditNameState,
        AppEvent::GoEditPriceState,
        AppEvent::GoOcrState,
        AppEvent::OcrMarkDate,
        AppEvent::OcrMarkSum,
        AppEvent::PerformOCR,
        AppEvent::ConvertToBon,
        AppEvent::ImportBon,
    ] {
        assert_eq!(app.handle_event(event, store()), vec![], "{:?}", event);
        assert_eq!(app.current_state, AppState::Home, "{:?}", event);
    }
    let mut lines = at_the_lines();
    for event in [
        AppEvent::GoImportState,
        AppEvent::GoCategoryState,
        AppEvent::GoEditBonPriceState,
        AppEvent::GoEditCategoryState,
        AppEvent::GoEditNameState,
        AppEvent::GoEditPriceState,
        AppEvent::GoOcrState,
    ] {
        assert_eq!(lines.handle_event(event, store()), vec![], "{:?}", event);
        assert_eq!(lines.current_state, AppState::OCR, "{:?}", event);
    }
}

#[test]
fn the_editor_only_counts_while_editing() {
    let mut app = at_the_draft();
    app.edit("stray");
    assert_eq!(app.edit_field, "");
    app.tick();
    assert!(app.running);
    press(&mut app, Key::Char('q'));
    assert!(!app.running);
}

#[test]
fn a_session_out_of_order_is_found_out() {
    let mut app = at_the_lines();
    assert!(app.is_well_formed());
    app.ocr_list.items[0].ocr_type = OcrType::Date;
    assert!(app.is_well_formed());
    app.ocr_list.items[1].ocr_type = OcrType::Date;
    assert!(!app.is_well_formed());
    app.ocr_list.items[1].ocr_type = OcrType::Sum;
    app.ocr_list.items[3].ocr_type = OcrType::Sum;
    assert!(!app.is_well_formed());
    app.ocr_list.items[3].ocr_type = OcrType::Entry;
    assert!(app.is_well_formed());
    app.ocr_list.state.selected = Some(4);
    assert!(!app.is_well_formed());
    app.ocr_list.state.selected = None;
    app.bon_list.state.selected = Some(2);
    assert!(!app.is_well_formed());
}

#[test]
fn the_file_is_marked_by_its_name_whatever_the_directory() {
    for directory in ["/home/u/Pictures", "/home/u/Pictures/", "", "/", "scans"] {
        let mut app = App::new(store(), directory.to_string());
        press(&mut app, Key::Char('i'));
        press(&mut app, Key::Enter);
        app.perform_ocr(TEXT);
        press(&mut app, Key::Enter);
        let asked = press(&mut app, Key::Enter);
        assert_eq!(asked.len(), 1);
        match &asked[0] {
            Action::Commit(plan) => assert_eq!(plan.processed, "bon.jpg", "{:?}", directory),
            other => panic!("{:?}", other),
        }
    }
}
