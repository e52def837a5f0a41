use bon_scanner::database::{Category, Entry, Product};
use bon_scanner::draft::{sum_prices, NewBonList};
use bon_scanner::list::ListState;
use bon_scanner::ocr::{OcrEntry, OcrType};
use bon_scanner::price::Price;

fn receipt() -> Vec<OcrEntry> {
    vec![
        OcrEntry::new("Milch 2,49", OcrType::Entry),
        OcrEntry::new("Brot 3,10", OcrType::Entry),
        OcrEntry::new("SUMME 5,59", OcrType::Sum),
        OcrEntry::new("24.12.2024 Kassenbon", OcrType::Date),
    ]
}

fn catalog() -> (Vec<Product>, Vec<Category>) {
    (
        vec![Product::new(1, 1, "Milch"), Product::new(2, 2, "Butter")],
        vec![Category::new(1, "dairy"), Category::new(2, "fat")],
    )
}

#[test]
fn a_receipt_converts_to_a_reconciled_draft() {
    let draft = NewBonList::convert(&receipt(), &vec![], &vec![]);
    assert_eq!(draft.date, "24.12.2024");
    assert_eq!(
        draft.items,
        vec![
            Entry::new("", "Milch", Price { units: 24_900 }),
            Entry::new("", "Brot", Price { units: 31_000 }),
        ]
    );
    assert_eq!(draft.price_calc, 55_900);
    assert_eq!(draft.price_calc as f64 / 10_000.0, 5.59);
    assert_eq!(draft.price_ocr, Price { units: 55_900 });
    assert!(draft.price_eq);
    assert_eq!(draft.state.selected, Some(0));
    assert!(draft.is_well_formed());
}

#[test]
fn items_take_the_product_and_category_of_the_catalog() {
    let (products, categories) = catalog();
    let lines = vec![
        OcrEntry::new("Mlch 2,49", OcrType::Entry),
        OcrEntry::new("Buter 1,99", OcrType::Entry),
        OcrEntry::new("Schraubenzieher 7,00", OcrType::Entry),
    ];
    let draft = NewBonList::convert(&lines, &products, &categories);
    assert_eq!(
        draft.items,
        vec![
            Entry::new("dairy", "Milch", Price { units: 24_900 }),
            Entry::new("fat", "Butter", Price { units: 19_900 }),
            Entry::new("", "Schraubenzieher", Price { units: 70_000 }),
        ]
    );
    assert_eq!(draft.price_calc, 114_800);
    assert_eq!(draft.price_ocr, Price { units: 0 });
    assert!(!draft.price_eq);
    assert_eq!(draft.date, "");
}

#[test]
fn converting_twice_gives_the_same_draft() {
    let (products, categories) = catalog();
    let first = NewBonList::convert(&receipt(), &products, &categories);
    let second = NewBonList::convert(&receipt(), &products, &categories);
    assert_eq!(first.date, second.date);
    assert_eq!(first.items, second.items);
    assert_eq!(first.price_calc, second.price_calc);
    assert_eq!(first.price_ocr, second.price_ocr);
    assert_eq!(first.price_eq, second.price_eq);
    assert_eq!(first.state, second.state);
}

#[test]
fn lines_that_give_nothing_are_passed_over() {
    let lines = vec![
        OcrEntry::new("Milch", OcrType::Entry),
        OcrEntry::new("Milch 2", OcrType::Entry),
        OcrEntry::new("2,49", OcrType::Entry),
        OcrEntry::new("no date here", OcrType::Date),
        OcrEntry::new("no sum here", OcrType::Sum),
        OcrEntry::new("Processing..", OcrType::Entry),
    ];
    let draft = NewBonList::convert(&lines, &vec![], &vec![]);
    assert_eq!(draft.items, vec![]);
    assert_eq!(draft.date, "");
    assert_eq!(draft.price_ocr, Price { units: 0 });
    assert_eq!(draft.price_calc, 0);
    assert!(draft.price_eq);
    assert_eq!(draft.state.selected, None);
    assert!(draft.is_well_formed());
}

#[test]
fn of_several_dates_and_sums_the_last_found_counts() {
    let lines = vec![
        OcrEntry::new("01.01.2024 a", OcrType::Date),
        OcrEntry::new("SUMME 1,00", OcrType::Sum),
        OcrEntry::new("02.02.2024 b", OcrType::Date),
        OcrEntry::new("SUMME 2,00", OcrType::Sum),
        OcrEntry::new("no date", OcrType::Date),
        OcrEntry::new("no sum", OcrType::Sum),
        OcrEntry::new("03.03.2024 1,23", OcrType::Entry),
    ];
    let draft = NewBonList::convert(&lines, &vec![], &vec![]);
    assert_eq!(draft.date, "02.02.2024");
    assert_eq!(draft.price_ocr, Price { units: 20_000 });
    assert_eq!(draft.items, vec![Entry::new("", "03.03.2024", Price { units: 30_300 })]);
}

#[test]
fn the_tag_decides_what_a_line_gives() {
    let lines = vec![
        OcrEntry::new("24.12.2024 5,59", OcrType::Entry),
        OcrEntry::new("24.12.2024 5,59", OcrType::Sum),
        OcrEntry::new("24.12.2024 5,59", OcrType::Date),
    ];
    let draft = NewBonList::convert(&lines, &vec![], &vec![]);
    assert_eq!(draft.items, vec![Entry::new("", "24.12.2024", Price { units: 241_200 })]);
    assert_eq!(draft.price_ocr, Price { units: 241_200 });
    assert_eq!(draft.date, "24.12.2024");
}

#[test]
fn an_empty_draft() {
    let draft = NewBonList::new();
    assert_eq!(draft.date, "");
    assert_eq!(draft.items, vec![]);
    assert_eq!(draft.price_calc, 0);
    assert_eq!(draft.price_ocr, Price { units: 0 });
    assert!(draft.price_eq);
    assert_eq!(draft.state, ListState { selected: None });
    assert!(draft.is_well_formed());
}

#[test]
fn edits_keep_the_totals_in_step() {
    let mut draft = NewBonList::convert(&receipt(), &vec![], &vec![]);
    draft.set_price(1, Price { units: 51_000 });
    assert_eq!(draft.price_calc, 75_900);
    assert!(!draft.price_eq);
    assert!(draft.is_well_formed());
    draft.set_reported(Price { units: 70_000 });
    assert_eq!(draft.price_calc, 75_900);
    assert!(draft.price_eq);
    assert!(draft.is_well_formed());
    draft.set_reported(Price { units: 65_899 });
    assert!(!draft.price_eq);
    draft.set_reported(Price { units: 65_900 });
    assert!(draft.price_eq);
    draft.remove(0);
    assert_eq!(draft.items, vec![Entry::new("", "Brot", Price { units: 51_000 })]);
    assert_eq!(draft.price_calc, 51_000);
    assert!(!draft.price_eq);
    assert_eq!(draft.state.selected, Some(0));
    assert!(draft.is_well_formed());
    draft.set_product(0, "Vollkornbrot".to_string());
    draft.set_category(0, "bakery".to_string());
    assert_eq!(draft.items, vec![Entry::new("bakery", "Vollkornbrot", Price { units: 51_000 })]);
    assert!(draft.is_well_formed());
    draft.remove(0);
    assert_eq!(draft.items, vec![]);
    assert_eq!(draft.price_calc, 0);
    assert_eq!(draft.state.selected, None);
    assert!(draft.is_well_formed());
}

#[test]
fn an_edit_of_no_item_changes_no_item() {
    let mut draft = NewBonList::convert(&receipt(), &vec![], &vec![]);
    let items = draft.items.clone();
    draft.set_price(2, Price { units: 1 });
    draft.set_product(7, "x".to_string());
    draft.set_category(usize::MAX, "y".to_string());
    draft.remove(2);
    assert_eq!(draft.items, items);
    assert!(draft.is_well_formed());
}

#[test]
fn a_draft_out_of_step_is_found_out_and_settled() {
    let mut draft = NewBonList::convert(&receipt(), &vec![], &vec![]);
    draft.price_calc = 1;
    assert!(!draft.is_well_formed());
    draft.settle();
    assert_eq!(draft.price_calc, 55_900);
    assert!(draft.is_well_formed());
    draft.price_eq = false;
    assert!(!draft.is_well_formed());
    draft.settle();
    draft.state.selected = Some(2);
    assert!(!draft.is_well_formed());
    draft.settle();
    assert_eq!(draft.state.selected, Some(1));
    assert!(draft.is_well_formed());
}

#[test]
fn sums_do_not_overflow() {
    let items = vec![
        Entry::new("", "a", Price { units: i64::MAX }),
        Entry::new("", "b", Price { units: i64::MAX }),
        Entry::new("", "c", Price { units: 2 }),
    ];
    assert_eq!(sum_prices(&items), 2 * (i64::MAX as i128) + 2);
    let debts = vec![
        Entry::new("", "a", Price { units: i64::MIN }),
        Entry::new("", "b", Price { units: i64::MIN }),
    ];
    assert_eq!(sum_prices(&debts), 2 * (i64::MIN as i128));
    assert_eq!(sum_prices(&vec![]), 0);
}
