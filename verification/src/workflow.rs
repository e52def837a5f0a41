//! The steps of the workflow, as functions on sessions.
//!
//! Each function says what one trigger does to a session in one state of
//! the workflow; a trigger that has no business in a state leaves the
//! session as it is. The executable steps of [`crate::app::App`] are proved
//! to do exactly what is written here.

use crate::app::{AppState, AppView};
use crate::database::SnapshotView;
use crate::commit::{category_names, plan_of};
use crate::draft::{draft_of, DraftView};
use crate::event::{ActionView, AppEvent, Failure, Key};
use crate::files::importable_names;
use crate::list::ListView;
use crate::path::{has_slash, joined, lemma_file_name_of_joined};
use crate::ocr::{
    allowed_lines, classified_text, lemma_allowed_lines_in_order,
    lemma_classified_lines_are_fresh, lemma_entries_in_order, lemma_marked_entry,
    lemma_marked_in_order,
    lemma_remove_in_order, marked, placeholder_text, tags_in_order, OcrLine, OcrType,
};
use crate::price::{parsed_price, price_text};
use crate::summary::summary_of;
use crate::text::lines;
use vstd::prelude::*;

verus! {

/// What a step leaves: the session after it, and the actions it asks for.
pub struct Step {
    pub state: AppView,
    pub actions: Seq<ActionView>,
}

/// The action that sends `event`.
pub open spec fn send(event: AppEvent) -> ActionView {
    ActionView::Send(event)
}

impl AppView {
    /// Whether the session is well formed.
    pub open spec fn wf(self) -> bool {
        &&& self.bon_list.wf()
        &&& self.category_list.wf()
        &&& self.import_list.wf()
        &&& self.ocr_list.wf()
        &&& self.new_bon_list.wf()
        &&& tags_in_order(self.ocr_list.items)
    }

    /// The session at its start, over what the store holds and the
    /// directory that files are imported from.
    pub open spec fn initial(snapshot: SnapshotView, import_path: Seq<char>) -> AppView {
        AppView {
            bon_list: ListView::fresh(snapshot.bons),
            bon_summary: Seq::empty(),
            category_list: ListView::fresh(snapshot.categories),
            current_state: AppState::Home,
            edit_field: Seq::empty(),
            import_list: ListView::fresh(importable_names(snapshot.files, snapshot.processed)),
            import_path,
            new_bon_list: DraftView::empty(),
            ocr_blacklist: snapshot.blacklist,
            ocr_list: ListView::empty(),
            ocr_file: Seq::empty(),
            running: true,
            failure: None,
        }
    }

    /// The session in another state of the workflow.
    pub open spec fn at(self, state: AppState) -> AppView {
        AppView { current_state: state, ..self }
    }

    /// The session with another draft.
    pub open spec fn with_draft(self, draft: DraftView) -> AppView {
        AppView { new_bon_list: draft, ..self }
    }

    /// A step that changes nothing and asks for nothing.
    pub open spec fn idle(self) -> Step {
        Step { state: self, actions: Seq::empty() }
    }

    /// A step that leaves this session and asks for `actions`.
    pub open spec fn asking(self, actions: Seq<ActionView>) -> Step {
        Step { state: self, actions }
    }

    /// From the lines to the editing of a blacklist text.
    pub open spec fn go_blacklist(self) -> AppView {
        if self.current_state == AppState::OCR {
            self.at(AppState::Blacklist)
        } else {
            self
        }
    }

    /// From the draft, or from the editing of a category name, to the
    /// picking of a category, with the cursor on the first category.
    pub open spec fn go_category(self) -> AppView {
        if self.current_state == AppState::ConvertBon || self.current_state
            == AppState::EditCategory {
            AppView {
                current_state: AppState::Category,
                category_list: ListView::fresh(self.category_list.items),
                ..self
            }
        } else {
            self
        }
    }

    /// Whether the draft is reached from this state of the workflow.
    pub open spec fn leads_to_draft(state: AppState) -> bool {
        ||| state == AppState::OCR
        ||| state == AppState::Category
        ||| state == AppState::EditName
        ||| state == AppState::EditPrice
        ||| state == AppState::EditBonPrice
        ||| state == AppState::ConvertBon
    }

    /// To the draft, from the states that lead there.
    pub open spec fn go_convert_bon(self) -> AppView {
        if AppView::leads_to_draft(self.current_state) {
            self.at(AppState::ConvertBon)
        } else {
            self
        }
    }

    /// From the draft to the state `target`, one of its editing states.
    pub open spec fn go_edit(self, target: AppState) -> AppView {
        if self.current_state == AppState::ConvertBon {
            self.at(target)
        } else {
            self
        }
    }

    /// From the picking of a category to the editing of a new category name.
    pub open spec fn go_edit_category(self) -> AppView {
        if self.current_state == AppState::Category {
            self.at(AppState::EditCategory)
        } else {
            self
        }
    }

    /// Back to the stored receipts: the recognised lines, the draft, the
    /// file under import and the text under editing are let go of.
    pub open spec fn go_home(self) -> Step {
        Step {
            state: AppView {
                current_state: AppState::Home,
                edit_field: Seq::empty(),
                ocr_list: ListView::empty(),
                new_bon_list: DraftView::empty(),
                ocr_file: Seq::empty(),
                ..self
            },
            actions: seq![ActionView::LoadEditor],
        }
    }

    /// From the stored receipts to the picking of a file.
    pub open spec fn go_import(self) -> AppView {
        if self.current_state == AppState::Home {
            self.at(AppState::Import)
        } else {
            self
        }
    }

    /// Whether the lines are reached from this state.
    pub open spec fn leads_to_lines(state: AppState) -> bool {
        state == AppState::Import || state == AppState::Blacklist || state == AppState::OCR
    }

    /// To the lines. Where there are no lines yet, a line that
    /// says so takes their place and recognition is asked for.
    pub open spec fn go_ocr(self) -> Step {
        if AppView::leads_to_lines(self.current_state) {
            if self.ocr_list.items.len() == 0 {
                Step {
                    state: AppView {
                        current_state: AppState::OCR,
                        ocr_list: ListView {
                            items: seq![
                                OcrLine { text: placeholder_text(), tag: OcrType::Entry },
                            ],
                            state: self.ocr_list.state.clamped(1),
                        },
                        ..self
                    },
                    actions: seq![send(AppEvent::PerformOCR)],
                }
            } else {
                self.at(AppState::OCR).idle()
            }
        } else {
            self.idle()
        }
    }

    /// Hiding the selected receipt: the store is asked to hide it, and the
    /// session to read the store anew.
    pub open spec fn hide_item(self) -> Step {
        match self.bon_list.selected() {
            Some(i) if self.current_state == AppState::Home => self.asking(
                seq![
                    ActionView::HideBon(self.bon_list.items[i].bon_id),
                    send(AppEvent::UpdateFromDatabase),
                ],
            ),
            _ => self.idle(),
        }
    }

    /// Committing the draft: the plan of the commit is handed out.
    pub open spec fn import_bon(self, snapshot: SnapshotView) -> Step {
        if self.current_state == AppState::ConvertBon {
            self.asking(
                seq![
                    ActionView::Commit(
                        plan_of(
                            self.new_bon_list,
                            snapshot.categories,
                            snapshot.products,
                            self.ocr_file,
                        ),
                    ),
                ],
            )
        } else {
            self.idle()
        }
    }

    /// After the plan was carried out: the file under import is let go of,
    /// and the session goes home and reads the store anew.
    pub open spec fn commit_succeeded(self) -> Step {
        if self.current_state == AppState::ConvertBon {
            Step {
                state: AppView { ocr_file: Seq::empty(), failure: None, ..self },
                actions: seq![
                    send(AppEvent::GoHomeState),
                    send(AppEvent::UpdateFromDatabase),
                    send(AppEvent::CalculateSummary),
                ],
            }
        } else {
            self.idle()
        }
    }

    /// After the store failed: the user is told, and nothing else changes.
    pub open spec fn storage_failed(self) -> AppView {
        AppView { failure: Some(Failure::Storage), ..self }
    }

    /// A step down the list of the current state. On the stored receipts, a
    /// move of the cursor asks for the summary of the receipt it moved to.
    pub open spec fn next_item(self) -> Step {
        match self.current_state {
            AppState::Category => AppView {
                category_list: self.category_list.stepped_down(),
                ..self
            }.idle(),
            AppState::ConvertBon => self.with_draft(
                DraftView {
                    state: self.new_bon_list.state.stepped_down(self.new_bon_list.items.len()),
                    ..self.new_bon_list
                },
            ).idle(),
            AppState::Home => Step {
                state: AppView { bon_list: self.bon_list.stepped_down(), ..self },
                actions: if self.bon_list.stepped_down().state != self.bon_list.state {
                    seq![send(AppEvent::CalculateSummary)]
                } else {
                    Seq::empty()
                },
            },
            AppState::Import => AppView {
                import_list: self.import_list.stepped_down(),
                ..self
            }.idle(),
            AppState::OCR => AppView { ocr_list: self.ocr_list.stepped_down(), ..self }.idle(),
            _ => self.idle(),
        }
    }

    /// A step up the list of the current state.
    pub open spec fn previous_item(self) -> Step {
        match self.current_state {
            AppState::Category => AppView {
                category_list: self.category_list.stepped_up(),
                ..self
            }.idle(),
            AppState::ConvertBon => self.with_draft(
                DraftView { state: self.new_bon_list.state.stepped_up(), ..self.new_bon_list },
            ).idle(),
            AppState::Home => Step {
                state: AppView { bon_list: self.bon_list.stepped_up(), ..self },
                actions: if self.bon_list.stepped_up().state != self.bon_list.state {
                    seq![send(AppEvent::CalculateSummary)]
                } else {
                    Seq::empty()
                },
            },
            AppState::Import => AppView {
                import_list: self.import_list.stepped_up(),
                ..self
            }.idle(),
            AppState::OCR => AppView { ocr_list: self.ocr_list.stepped_up(), ..self }.idle(),
            _ => self.idle(),
        }
    }

    /// Toggling the mark `tag` on the selected line, at the lines.
    pub open spec fn ocr_mark(self, tag: OcrType) -> AppView {
        match self.ocr_list.selected() {
            Some(i) if self.current_state == AppState::OCR => AppView {
                ocr_list: ListView {
                    items: marked(self.ocr_list.items, i, tag),
                    state: self.ocr_list.state,
                },
                ..self
            },
            _ => self,
        }
    }

    /// Asking for the recognition of the file under import.
    pub open spec fn request_ocr(self) -> Step {
        if self.current_state == AppState::OCR {
            self.asking(seq![ActionView::RunOcr(self.ocr_file)])
        } else {
            self.idle()
        }
    }

    /// After recognition: the lines worth keeping take the place of the
    /// lines, with the cursor on the first. Away from the lines,
    /// the text comes too late and is dropped.
    pub open spec fn perform_ocr(self, text: Seq<char>) -> AppView {
        if self.current_state == AppState::OCR {
            AppView {
                ocr_list: ListView::fresh(classified_text(text, self.ocr_blacklist)),
                failure: None,
                ..self
            }
        } else {
            self
        }
    }

    /// After recognition failed: back to the picking of a file, without
    /// lines, and the user is told.
    pub open spec fn ocr_failed(self) -> AppView {
        if self.current_state == AppState::OCR {
            AppView {
                current_state: AppState::Import,
                ocr_list: ListView::empty(),
                failure: Some(Failure::OcrEngine),
                ..self
            }
        } else {
            self
        }
    }

    /// Reading the store anew. At the lines, the blacklist
    /// is read and the lines are filtered by it, their tags kept. At home,
    /// the receipts and the files for import are read. During the picking of
    /// a category, the categories are read.
    pub open spec fn update_from_database(self, snapshot: SnapshotView) -> AppView {
        match self.current_state {
            AppState::OCR => AppView {
                ocr_blacklist: snapshot.blacklist,
                ocr_list: ListView {
                    items: allowed_lines(self.ocr_list.items, snapshot.blacklist),
                    state: self.ocr_list.state.clamped(
                        allowed_lines(self.ocr_list.items, snapshot.blacklist).len(),
                    ),
                },
                ..self
            },
            AppState::Home => AppView {
                bon_list: ListView::fresh(snapshot.bons),
                import_list: ListView::fresh(
                    importable_names(snapshot.files, snapshot.processed),
                ),
                ..self
            },
            AppState::Category => AppView {
                category_list: ListView::fresh(snapshot.categories),
                ..self
            },
            _ => self,
        }
    }

    /// Summing up. At home, the summary of the selected receipt is drawn up.
    /// At the draft, and at the editing of a price, the draft is settled.
    pub open spec fn calculate_summary(self) -> AppView {
        match self.current_state {
            AppState::Home => match self.bon_list.selected() {
                Some(i) => AppView {
                    bon_summary: summary_of(self.bon_list.items[i].entries),
                    ..self
                },
                None => self,
            },
            AppState::ConvertBon | AppState::EditPrice => self.with_draft(
                DraftView::settled(
                    self.new_bon_list.date,
                    self.new_bon_list.items,
                    self.new_bon_list.price_ocr,
                    self.new_bon_list.state,
                ),
            ),
            _ => self,
        }
    }

    /// Converting the lines to a draft.
    pub open spec fn convert_to_bon(self, snapshot: SnapshotView) -> Step {
        if self.current_state == AppState::OCR {
            Step {
                state: self.with_draft(
                    draft_of(self.ocr_list.items, snapshot.products, snapshot.categories),
                ),
                actions: seq![send(AppEvent::GoConvertBonState), send(AppEvent::CalculateSummary)],
            }
        } else {
            self.idle()
        }
    }

    /// Leaving.
    pub open spec fn quit(self) -> AppView {
        AppView { running: false, ..self }
    }

    /// What an event does to the session.
    pub open spec fn on_event(self, event: AppEvent, snapshot: SnapshotView) -> Step {
        match event {
            AppEvent::CalculateSummary => self.calculate_summary().idle(),
            AppEvent::ConvertToBon => self.convert_to_bon(snapshot),
            AppEvent::GoBlacklistState => self.go_blacklist().idle(),
            AppEvent::GoCategoryState => self.go_category().idle(),
            AppEvent::GoConvertBonState => self.go_convert_bon().idle(),
            AppEvent::GoEditBonPriceState => self.go_edit(AppState::EditBonPrice).idle(),
            AppEvent::GoEditCategoryState => self.go_edit_category().idle(),
            AppEvent::GoEditNameState => self.go_edit(AppState::EditName).idle(),
            AppEvent::GoEditPriceState => self.go_edit(AppState::EditPrice).idle(),
            AppEvent::GoHomeState => self.go_home(),
            AppEvent::GoImportState => self.go_import().idle(),
            AppEvent::GoOcrState => self.go_ocr(),
            AppEvent::HideItem => self.hide_item(),
            AppEvent::ImportBon => self.import_bon(snapshot),
            AppEvent::NextItem => self.next_item(),
            AppEvent::OcrMarkDate => self.ocr_mark(OcrType::Date).idle(),
            AppEvent::OcrMarkSum => self.ocr_mark(OcrType::Sum).idle(),
            AppEvent::PerformOCR => self.request_ocr(),
            AppEvent::PreviousItem => self.previous_item(),
            AppEvent::UpdateFromDatabase => self.update_from_database(snapshot).idle(),
            AppEvent::Quit => self.quit().idle(),
        }
    }

    /// What a key does while a text for the blacklist is edited: Enter adds
    /// a text that is not empty to the blacklist and returns to the lines,
    /// Esc returns to the lines, every other key goes to the editor.
    pub open spec fn on_key_blacklist(self, key: Key) -> Step {
        match key {
            Key::Enter => if self.edit_field.len() > 0 {
                self.asking(
                    seq![
                        ActionView::AddBlacklistEntry(self.edit_field),
                        send(AppEvent::GoOcrState),
                        send(AppEvent::UpdateFromDatabase),
                    ],
                )
            } else {
                self.idle()
            },
            Key::Esc => self.asking(seq![send(AppEvent::GoOcrState)]),
            _ => self.asking(seq![ActionView::EditInput]),
        }
    }

    /// The actions that lead back to the draft after an edit.
    pub open spec fn back_to_draft() -> Seq<ActionView> {
        seq![send(AppEvent::GoConvertBonState), send(AppEvent::CalculateSummary)]
    }

    /// What Enter does while a field of the draft is edited. A name is taken
    /// as it is. A price is taken where the text parses as one: otherwise
    /// the edit is turned down, the user is told, and the session stays
    /// where it is.
    pub open spec fn commit_edit(self) -> Step {
        let text = self.edit_field;
        match self.current_state {
            AppState::EditName => Step {
                state: match self.new_bon_list.selected() {
                    Some(i) => self.with_draft(self.new_bon_list.with_product(i, text)),
                    None => self,
                },
                actions: AppView::back_to_draft(),
            },
            AppState::EditPrice => match parsed_price(text) {
                Some(price) => Step {
                    state: match self.new_bon_list.selected() {
                        Some(i) => self.with_draft(self.new_bon_list.with_price(i, price)),
                        None => self,
                    },
                    actions: AppView::back_to_draft(),
                },
                None => AppView { failure: Some(Failure::Parse), ..self }.idle(),
            },
            AppState::EditBonPrice => match parsed_price(text) {
                Some(price) => Step {
                    state: self.with_draft(self.new_bon_list.with_reported(price)),
                    actions: AppView::back_to_draft(),
                },
                None => AppView { failure: Some(Failure::Parse), ..self }.idle(),
            },
            _ => self.idle(),
        }
    }

    /// What a key does while a field of the draft is edited.
    pub open spec fn on_key_edit(self, key: Key) -> Step {
        match key {
            Key::Enter => self.commit_edit(),
            Key::Esc => self.asking(seq![send(AppEvent::GoConvertBonState)]),
            _ => self.asking(seq![ActionView::EditInput]),
        }
    }

    /// What a key does while the name of a new category is edited: Enter has
    /// a category of that name stored unless there is one, and returns to
    /// the categories, which are read anew.
    pub open spec fn on_key_edit_category(self, key: Key) -> Step {
        let text = self.edit_field;
        match key {
            Key::Enter => if category_names(self.category_list.items).contains(text) {
                self.asking(
                    seq![send(AppEvent::GoCategoryState), send(AppEvent::UpdateFromDatabase)],
                )
            } else {
                self.asking(
                    seq![
                        ActionView::CreateCategory(text),
                        send(AppEvent::GoCategoryState),
                        send(AppEvent::UpdateFromDatabase),
                    ],
                )
            },
            Key::Esc => self.asking(seq![send(AppEvent::GoCategoryState)]),
            _ => self.asking(seq![ActionView::EditInput]),
        }
    }

    /// The step that opens an edit: the text to edit becomes the text under
    /// editing, the editor is loaded with it, and the event that leads to
    /// the editing state is sent.
    pub open spec fn editing(self, text: Seq<char>, event: AppEvent) -> Step {
        Step {
            state: AppView { edit_field: text, ..self },
            actions: seq![ActionView::LoadEditor, send(event)],
        }
    }

    /// Whether a text is under editing in this state of the workflow.
    pub open spec fn is_editing(state: AppState) -> bool {
        ||| state == AppState::Blacklist
        ||| state == AppState::EditBonPrice
        ||| state == AppState::EditCategory
        ||| state == AppState::EditName
        ||| state == AppState::EditPrice
    }

    /// The session after the text editor changed its text.
    pub open spec fn edit(self, text: Seq<char>) -> AppView {
        if AppView::is_editing(self.current_state) {
            AppView { edit_field: text, ..self }
        } else {
            self
        }
    }

    /// What a letter does outside the editing states.
    pub open spec fn on_letter(self, c: char) -> Step {
        if c == 'a' {
            if self.current_state == AppState::Category {
                self.editing(Seq::empty(), AppEvent::GoEditCategoryState)
            } else {
                self.idle()
            }
        } else if c == 'b' {
            match self.ocr_list.selected() {
                Some(i) if self.current_state == AppState::OCR => self.editing(
                    self.ocr_list.items[i].text,
                    AppEvent::GoBlacklistState,
                ),
                _ => self.idle(),
            }
        } else if c == 'c' {
            match self.new_bon_list.selected() {
                Some(i) if self.current_state == AppState::ConvertBon => self.asking(
                    seq![send(AppEvent::GoCategoryState)],
                ),
                _ => self.idle(),
            }
        } else if c == 'd' {
            self.asking(seq![send(AppEvent::OcrMarkDate)])
        } else if c == 'h' {
            self.asking(seq![send(AppEvent::HideItem)])
        } else if c == 'i' {
            self.asking(seq![send(AppEvent::GoImportState)])
        } else if c == 'j' {
            self.asking(seq![send(AppEvent::NextItem)])
        } else if c == 'k' {
            self.asking(seq![send(AppEvent::PreviousItem)])
        } else if c == 'n' {
            match self.new_bon_list.selected() {
                Some(i) if self.current_state == AppState::ConvertBon => self.editing(
                    self.new_bon_list.items[i].product,
                    AppEvent::GoEditNameState,
                ),
                _ => self.idle(),
            }
        } else if c == 'o' {
            if self.current_state == AppState::ConvertBon {
                self.editing(
                    price_text(self.new_bon_list.price_ocr),
                    AppEvent::GoEditBonPriceState,
                )
            } else {
                self.idle()
            }
        } else if c == 'p' {
            match self.new_bon_list.selected() {
                Some(i) if self.current_state == AppState::ConvertBon => self.editing(
                    price_text(self.new_bon_list.items[i].price),
                    AppEvent::GoEditPriceState,
                ),
                _ => self.idle(),
            }
        } else if c == 'q' {
            self.asking(seq![send(AppEvent::Quit)])
        } else if c == 's' {
            self.asking(seq![send(AppEvent::OcrMarkSum)])
        } else if c == 'x' {
            self.delete_selected()
        } else {
            self.idle()
        }
    }

    /// Deleting what is selected: a line at the lines, an item at the draft.
    pub open spec fn delete_selected(self) -> Step {
        match self.current_state {
            AppState::OCR => AppView { ocr_list: self.ocr_list.without_selected(), ..self }.idle(),
            AppState::ConvertBon => Step {
                state: match self.new_bon_list.selected() {
                    Some(i) => self.with_draft(self.new_bon_list.without(i)),
                    None => self,
                },
                actions: seq![send(AppEvent::CalculateSummary)],
            },
            _ => self.idle(),
        }
    }

    /// What Enter does outside the editing states. At the picking of a file,
    /// the path of the selected file in the import directory becomes the
    /// file under import, without lines yet.
    /// At the lines, conversion is asked for; at the draft, the commit. At
    /// the picking of a category, the selected category is given to the
    /// selected item of the draft.
    pub open spec fn confirm(self) -> Step {
        match self.current_state {
            AppState::Import => match self.import_list.selected() {
                Some(i) => Step {
                    state: AppView {
                        ocr_file: joined(self.import_path, self.import_list.items[i]),
                        ocr_list: ListView::empty(),
                        ..self
                    },
                    actions: seq![send(AppEvent::GoOcrState)],
                },
                None => self.idle(),
            },
            AppState::OCR => self.asking(seq![send(AppEvent::ConvertToBon)]),
            AppState::ConvertBon => self.asking(seq![send(AppEvent::ImportBon)]),
            AppState::Category => match self.category_list.selected() {
                Some(c) => Step {
                    state: match self.new_bon_list.selected() {
                        Some(i) => self.with_draft(
                            self.new_bon_list.with_category(
                                i,
                                self.category_list.items[c].category,
                            ),
                        ),
                        None => self,
                    },
                    actions: seq![send(AppEvent::GoConvertBonState)],
                },
                None => self.idle(),
            },
            _ => self.idle(),
        }
    }

    /// What a key does outside the editing states.
    pub open spec fn on_key_list(self, key: Key) -> Step {
        match key {
            Key::Char(c) => self.on_letter(c),
            Key::Enter => self.confirm(),
            Key::Esc => if self.current_state == AppState::Category {
                self.asking(seq![send(AppEvent::GoConvertBonState)])
            } else {
                self.asking(seq![send(AppEvent::GoHomeState)])
            },
            Key::Other => self.idle(),
        }
    }

    /// What a key press does to the session. A key press ends the telling
    /// of a failure.
    pub open spec fn on_key(self, key: Key) -> Step {
        let s = AppView { failure: None, ..self };
        match s.current_state {
            AppState::Blacklist => s.on_key_blacklist(key),
            AppState::EditBonPrice | AppState::EditName | AppState::EditPrice => s.on_key_edit(key),
            AppState::EditCategory => s.on_key_edit_category(key),
            _ => s.on_key_list(key),
        }
    }
}

/// The session at its start is well formed.
pub proof fn lemma_initial_wf(snapshot: SnapshotView, import_path: Seq<char>)
    ensures
        AppView::initial(snapshot, import_path).wf(),
{
}

/// An event leaves a well-formed session well formed: the cursors still fit
/// their lists, the computed total of the draft is still the sum of its
/// items and its flag still tells whether that sum agrees with the reported
/// total, and still no two lines are both tagged as the date, or as the sum.
pub proof fn lemma_on_event_wf(s: AppView, event: AppEvent, snapshot: SnapshotView)
    requires
        s.wf(),
    ensures
        s.on_event(event, snapshot).state.wf(),
{
    match event {
        AppEvent::OcrMarkDate => {
            lemma_marked_in_order(s.ocr_list.items, s.ocr_list.state.selected->0 as int, OcrType::Date);
        },
        AppEvent::OcrMarkSum => {
            lemma_marked_in_order(s.ocr_list.items, s.ocr_list.state.selected->0 as int, OcrType::Sum);
        },
        AppEvent::UpdateFromDatabase => {
            lemma_allowed_lines_in_order(s.ocr_list.items, snapshot.blacklist);
        },
        _ => {},
    }
}

/// Conversion depends on the lines and the catalog alone: whatever draft
/// the session held before, the draft afterwards is the same. Run again on the
/// same lines and the same catalog, it changes nothing.
pub proof fn lemma_convert_is_idempotent(s: AppView, t: AppView, snapshot: SnapshotView)
    requires
        s.current_state == AppState::OCR,
        t.current_state == AppState::OCR,
        s.ocr_list.items == t.ocr_list.items,
    ensures
        s.convert_to_bon(snapshot).state.new_bon_list == t.convert_to_bon(
            snapshot,
        ).state.new_bon_list,
        s.convert_to_bon(snapshot).state.convert_to_bon(snapshot) == s.convert_to_bon(snapshot),
        s.convert_to_bon(snapshot).state.new_bon_list.wf(),
{
}

/// The file that a commit marks as processed is the file that was picked:
/// after a file was picked for import, the plan of a commit marks the name of
/// that file, whatever the import directory is, as long as the name holds no
/// slash.
pub proof fn lemma_commit_marks_the_picked_file(s: AppView, t: AppView, snapshot: SnapshotView)
    requires
        s.current_state == AppState::Import,
        s.import_list.selected() is Some,
        !has_slash(s.import_list.items[s.import_list.selected()->0]),
        t.current_state == AppState::ConvertBon,
        t.ocr_file == s.confirm().state.ocr_file,
    ensures
        t.import_bon(snapshot).actions.len() == 1,
        t.import_bon(snapshot).actions[0] matches ActionView::Commit(plan) && plan.processed
            == s.import_list.items[s.import_list.selected()->0],
{
    lemma_file_name_of_joined(s.import_path, s.import_list.items[s.import_list.selected()->0]);
}

/// Whether marking with `tag` moved the mark from line `from` to line `to`:
/// line `to` carries the mark, line `from` is an entry again, no other line
/// carries the mark, every line keeps its text, and every line that neither
/// took nor lost the mark is as it was.
pub open spec fn mark_moved(
    before: Seq<OcrLine>,
    after: Seq<OcrLine>,
    tag: OcrType,
    from: int,
    to: int,
) -> bool {
    &&& after.len() == before.len()
    &&& after[to].tag == tag
    &&& after[from].tag == OcrType::Entry
    &&& forall|k: int| 0 <= k < after.len() && k != to ==> (#[trigger] after[k]).tag != tag
    &&& forall|k: int| 0 <= k < after.len() ==> (#[trigger] after[k]).text == before[k].text
    &&& forall|k: int|
        0 <= k < after.len() && k != to && before[k].tag != tag ==> #[trigger] after[k]
            == before[k]
}

/// At the lines, marking an entry while another line carries the mark moves
/// the mark: the selected line takes it and the line that carried it
/// becomes an entry again, so that never two lines carry it. Nothing else of
/// the session changes.
pub proof fn lemma_mark_moves(s: AppView, tag: OcrType, from: int)
    requires
        s.current_state == AppState::OCR,
        tag == OcrType::Date || tag == OcrType::Sum,
        s.ocr_list.selected() is Some,
        s.ocr_list.items[s.ocr_list.selected()->0].tag == OcrType::Entry,
        0 <= from < s.ocr_list.items.len(),
        s.ocr_list.items[from].tag == tag,
    ensures
        mark_moved(
            s.ocr_list.items,
            s.ocr_mark(tag).ocr_list.items,
            tag,
            from,
            s.ocr_list.selected()->0,
        ),
        s.ocr_mark(tag) == (AppView {
            ocr_list: ListView {
                items: s.ocr_mark(tag).ocr_list.items,
                state: s.ocr_list.state,
            },
            ..s
        }),
{
    lemma_marked_entry(s.ocr_list.items, s.ocr_list.selected()->0, tag);
}

/// Recognised text leaves a well-formed session well formed.
pub proof fn lemma_perform_ocr_wf(s: AppView, text: Seq<char>)
    requires
        s.wf(),
    ensures
        s.perform_ocr(text).wf(),
{
    lemma_classified_lines_are_fresh(lines(text), s.ocr_blacklist);
    lemma_entries_in_order(classified_text(text, s.ocr_blacklist));
}

/// The outcomes that are reported to a session leave a well-formed session
/// well formed.
pub proof fn lemma_reports_wf(s: AppView)
    requires
        s.wf(),
    ensures
        s.ocr_failed().wf(),
        s.commit_succeeded().state.wf(),
        s.storage_failed().wf(),
        forall|text: Seq<char>| (#[trigger] s.edit(text)).wf(),
{
}

/// A key press leaves a well-formed session well formed.
pub proof fn lemma_on_key_wf(s: AppView, key: Key)
    requires
        s.wf(),
    ensures
        s.on_key(key).state.wf(),
{
    let t = AppView { failure: None, ..s };
    if t.current_state == AppState::OCR {
        match t.ocr_list.selected() {
            Some(i) => {
                lemma_remove_in_order(t.ocr_list.items, i);
            },
            None => {},
        }
    }
}

} // verus!
