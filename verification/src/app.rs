//! The session: the state of the workflow, and the steps that change it.
//!
//! A session is stepped by key presses and by events of its own. A step
//! changes the session and answers with the actions that its surroundings
//! are to carry out: events to send back, texts for the editor, writes to
//! the store. What a step does is stated over [`AppView`], the session as a
//! mathematical value. A session is well formed where every cursor fits its
//! list, the draft is well formed, and at most one recognised line is tagged
//! as the date and at most one as the sum; every step keeps it so.

use crate::commit::{names_of_categories, plan_commit};
use crate::database::{Bon, BonView, Category, CategoryView, Snapshot};
use crate::draft::{DraftView, NewBonList};
use crate::event::{Action, ActionView, AppEvent, Failure, Key};
use crate::files::importable_files;
use crate::list::{ListState, ListView};
use crate::path::join_path;
use crate::ocr::{classify, fresh_line, mark, refilter, OcrEntry, OcrLine, OcrList, OcrType};
use crate::price::Price;
use crate::summary::{summarize, SummaryEntry, SummaryView};
use crate::text::position;
use crate::workflow::{lemma_mark_moves, lemma_on_event_wf, lemma_on_key_wf, mark_moved};
use vstd::prelude::*;

verus! {

/// Where the workflow stands.
#[derive(Clone, Copy, Debug, PartialEq, Eq, Structural)]
pub enum AppState {
    /// A text for the blacklist is being edited.
    Blacklist,
    /// A category is being picked for an item of the draft.
    Category,
    /// The draft is shown and may be edited.
    ConvertBon,
    /// The reported total of the draft is being edited.
    EditBonPrice,
    /// The name of a new category is being edited.
    EditCategory,
    /// The product name of an item is being edited.
    EditName,
    /// The price of an item is being edited.
    EditPrice,
    /// The stored receipts are shown.
    Home,
    /// A file is being picked for import.
    Import,
    /// The recognised lines are shown and may be tagged.
    OCR,
}

/// The stored receipts and the cursor on them.
#[derive(Clone, Debug)]
pub struct BonList {
    pub items: Vec<Bon>,
    pub state: ListState,
}

impl View for BonList {
    type V = ListView<BonView>;

    open spec fn view(&self) -> ListView<BonView> {
        ListView { items: self.items.deep_view(), state: self.state }
    }
}

/// The categories and the cursor on them.
#[derive(Clone, Debug)]
pub struct CategoryList {
    pub items: Vec<Category>,
    pub state: ListState,
}

impl View for CategoryList {
    type V = ListView<CategoryView>;

    open spec fn view(&self) -> ListView<CategoryView> {
        ListView { items: self.items.deep_view(), state: self.state }
    }
}

/// The files offered for import and the cursor on them.
#[derive(Clone, Debug)]
pub struct FileList {
    pub items: Vec<String>,
    pub state: ListState,
}

impl View for FileList {
    type V = ListView<Seq<char>>;

    open spec fn view(&self) -> ListView<Seq<char>> {
        ListView { items: self.items.deep_view(), state: self.state }
    }
}

/// A session of the workflow.
#[derive(Clone, Debug)]
pub struct App {
    pub bon_list: BonList,
    pub bon_summary: Vec<SummaryEntry>,
    pub category_list: CategoryList,
    pub current_state: AppState,
    /// The text under editing: the first line of the text editor.
    pub edit_field: String,
    pub import_list: FileList,
    /// The directory that files are imported from.
    pub import_path: String,
    pub new_bon_list: NewBonList,
    pub ocr_blacklist: Vec<String>,
    pub ocr_list: OcrList,
    /// The path of the file under import; empty where there is none.
    pub ocr_file: String,
    pub running: bool,
    /// The failure that the user is being told of, if any.
    pub failure: Option<Failure>,
}

/// What an [`App`] stands for.
pub struct AppView {
    pub bon_list: ListView<BonView>,
    pub bon_summary: Seq<SummaryView>,
    pub category_list: ListView<CategoryView>,
    pub current_state: AppState,
    pub edit_field: Seq<char>,
    pub import_list: ListView<Seq<char>>,
    pub import_path: Seq<char>,
    pub new_bon_list: DraftView,
    pub ocr_blacklist: Seq<Seq<char>>,
    pub ocr_list: ListView<OcrLine>,
    pub ocr_file: Seq<char>,
    pub running: bool,
    pub failure: Option<Failure>,
}

impl View for App {
    type V = AppView;

    open spec fn view(&self) -> AppView {
        AppView {
            bon_list: self.bon_list@,
            bon_summary: self.bon_summary.deep_view(),
            category_list: self.category_list@,
            current_state: self.current_state,
            edit_field: self.edit_field@,
            import_list: self.import_list@,
            import_path: self.import_path@,
            new_bon_list: self.new_bon_list@,
            ocr_blacklist: self.ocr_blacklist.deep_view(),
            ocr_list: self.ocr_list@,
            ocr_file: self.ocr_file@,
            running: self.running,
            failure: self.failure,
        }
    }
}

/// No actions.
fn no_actions() -> (r: Vec<Action>)
    ensures
        r.deep_view() == Seq::<ActionView>::empty(),
{
    let r: Vec<Action> = Vec::new();
    assert(r.deep_view() =~= Seq::<ActionView>::empty());
    r
}

/// One action.
fn one_action(a: Action) -> (r: Vec<Action>)
    ensures
        r.deep_view() == seq![a@],
{
    let mut r: Vec<Action> = Vec::new();
    r.push(a);
    assert(r.deep_view() =~= seq![a@]);
    r
}

/// Two actions.
fn two_actions(a: Action, b: Action) -> (r: Vec<Action>)
    ensures
        r.deep_view() == seq![a@, b@],
{
    let mut r: Vec<Action> = Vec::new();
    r.push(a);
    r.push(b);
    assert(r.deep_view() =~= seq![a@, b@]);
    r
}

/// Three actions.
fn three_actions(a: Action, b: Action, c: Action) -> (r: Vec<Action>)
    ensures
        r.deep_view() == seq![a@, b@, c@],
{
    let mut r: Vec<Action> = Vec::new();
    r.push(a);
    r.push(b);
    r.push(c);
    assert(r.deep_view() =~= seq![a@, b@, c@]);
    r
}

/// The two actions that lead back to the draft after an edit.
fn back_to_draft() -> (r: Vec<Action>)
    ensures
        r.deep_view() == AppView::back_to_draft(),
{
    two_actions(Action::Send(AppEvent::GoConvertBonState), Action::Send(AppEvent::CalculateSummary))
}

impl App {
    /// Whether the session is well formed.
    pub open spec fn wf(&self) -> bool {
        self@.wf()
    }

    /// A session at its start, over what the store holds and the directory
    /// that files are imported from: at home, with the stored receipts, the
    /// categories and the files offered for import, each list with the cursor
    /// on its first item.
    pub fn new(snapshot: Snapshot, import_path: String) -> (app: App)
        ensures
            app@ == AppView::initial(snapshot@, import_path@),
            app.wf(),
    {
        let import = importable_files(&snapshot.files, &snapshot.processed);
        let mut app = App {
            bon_list: BonList { items: snapshot.bons, state: ListState::new() },
            bon_summary: Vec::new(),
            category_list: CategoryList {
                items: snapshot.categories,
                state: ListState::new(),
            },
            current_state: AppState::Home,
            edit_field: String::new(),
            import_list: FileList { items: import, state: ListState::new() },
            import_path,
            new_bon_list: NewBonList::new(),
            ocr_blacklist: snapshot.blacklist,
            ocr_list: OcrList { items: Vec::new(), state: ListState::new() },
            ocr_file: String::new(),
            running: true,
            failure: None,
        };
        app.bon_list.state.first(app.bon_list.items.len());
        app.category_list.state.first(app.category_list.items.len());
        app.import_list.state.first(app.import_list.items.len());
        assert(app.bon_summary.deep_view() =~= Seq::<SummaryView>::empty());
        assert(app.ocr_list.items.deep_view() =~= Seq::<OcrLine>::empty());
        app
    }

    /// Whether the session is well formed, found out by computing.
    pub fn is_well_formed(&self) -> (ok: bool)
        ensures
            ok == self.wf(),
    {
        let ghost all = self.ocr_list.items.deep_view();
        let mut date: Option<usize> = None;
        let mut sum: Option<usize> = None;
        let mut i: usize = 0;
        while i < self.ocr_list.items.len()
            invariant
                i <= self.ocr_list.items.len(),
                all == self.ocr_list.items.deep_view(),
                match date {
                    Some(d) => d < i && all[d as int].tag == OcrType::Date,
                    None => forall|k: int| 0 <= k < i ==> (#[trigger] all[k]).tag != OcrType::Date,
                },
                match sum {
                    Some(d) => d < i && all[d as int].tag == OcrType::Sum,
                    None => forall|k: int| 0 <= k < i ==> (#[trigger] all[k]).tag != OcrType::Sum,
                },
                forall|a: int, b: int|
                    0 <= a < i && 0 <= b < i && (#[trigger] all[a]).tag == OcrType::Date && (
                    #[trigger] all[b]).tag == OcrType::Date ==> a == b,
                forall|a: int, b: int|
                    0 <= a < i && 0 <= b < i && (#[trigger] all[a]).tag == OcrType::Sum && (
                    #[trigger] all[b]).tag == OcrType::Sum ==> a == b,
            decreases self.ocr_list.items.len() - i,
        {
            assert(all[i as int] == self.ocr_list.items@[i as int]@);
            match self.ocr_list.items[i].ocr_type {
                OcrType::Date => {
                    if let Some(d) = date {
                        assert(all[d as int].tag == OcrType::Date && all[i as int].tag
                            == OcrType::Date);
                        return false;
                    }
                    date = Some(i);
                },
                OcrType::Sum => {
                    if let Some(d) = sum {
                        assert(all[d as int].tag == OcrType::Sum && all[i as int].tag
                            == OcrType::Sum);
                        return false;
                    }
                    sum = Some(i);
                },
                OcrType::Entry => {},
            }
            i += 1;
        }
        let fits = self.bon_list.state.pick(self.bon_list.items.len()).is_some()
            == self.bon_list.state.selected.is_some() && self.category_list.state.pick(
            self.category_list.items.len(),
        ).is_some() == self.category_list.state.selected.is_some() && self.import_list.state.pick(
            self.import_list.items.len(),
        ).is_some() == self.import_list.state.selected.is_some() && self.ocr_list.state.pick(
            self.ocr_list.items.len(),
        ).is_some() == self.ocr_list.state.selected.is_some();
        fits && self.new_bon_list.is_well_formed()
    }

    /// From the lines to the editing of a blacklist text.
    pub fn go_blacklist_state(&mut self)
        ensures
            final(self)@ == old(self)@.go_blacklist(),
    {
        if self.current_state == AppState::OCR {
            self.current_state = AppState::Blacklist;
        }
    }

    /// To the picking of a category, from the draft or from the editing of a
    /// category name.
    pub fn go_category_state(&mut self)
        ensures
            final(self)@ == old(self)@.go_category(),
    {
        if self.current_state == AppState::ConvertBon || self.current_state
            == AppState::EditCategory {
            self.category_list.state.first(self.category_list.items.len());
            self.current_state = AppState::Category;
        }
    }

    /// To the draft.
    pub fn go_convert_bon_state(&mut self)
        ensures
            final(self)@ == old(self)@.go_convert_bon(),
    {
        match self.current_state {
            AppState::OCR | AppState::Category | AppState::EditName | AppState::EditPrice
            | AppState::EditBonPrice | AppState::ConvertBon => {
                self.current_state = AppState::ConvertBon;
            },
            _ => {},
        }
    }

    /// From the draft to the editing of its reported total.
    pub fn go_edit_bon_price_state(&mut self)
        ensures
            final(self)@ == old(self)@.go_edit(AppState::EditBonPrice),
    {
        if self.current_state == AppState::ConvertBon {
            self.current_state = AppState::EditBonPrice;
        }
    }

    /// From the picking of a category to the editing of a new category name.
    pub fn go_edit_category_state(&mut self)
        ensures
            final(self)@ == old(self)@.go_edit_category(),
    {
        if self.current_state == AppState::Category {
            self.current_state = AppState::EditCategory;
        }
    }

    /// From the draft to the editing of the name of an item.
    pub fn go_edit_name_state(&mut self)
        ensures
            final(self)@ == old(self)@.go_edit(AppState::EditName),
    {
        if self.current_state == AppState::ConvertBon {
            self.current_state = AppState::EditName;
        }
    }

    /// From the draft to the editing of the price of an item.
    pub fn go_edit_price_state(&mut self)
        ensures
            final(self)@ == old(self)@.go_edit(AppState::EditPrice),
    {
        if self.current_state == AppState::ConvertBon {
            self.current_state = AppState::EditPrice;
        }
    }

    /// Back to the stored receipts: the lines, the draft, the file under
    /// import and the text under editing are let go of.
    pub fn go_home_state(&mut self) -> (actions: Vec<Action>)
        ensures
            final(self)@ == old(self)@.go_home().state,
            actions.deep_view() == old(self)@.go_home().actions,
    {
        self.ocr_list.items = Vec::new();
        self.ocr_list.state = ListState::new();
        self.new_bon_list = NewBonList::new();
        self.ocr_file = String::new();
        self.edit_field = String::new();
        self.current_state = AppState::Home;
        assert(self.ocr_list.items.deep_view() =~= Seq::<OcrLine>::empty());
        one_action(Action::LoadEditor)
    }

    /// From the stored receipts to the picking of a file.
    pub fn go_import_state(&mut self)
        ensures
            final(self)@ == old(self)@.go_import(),
    {
        if self.current_state == AppState::Home {
            self.current_state = AppState::Import;
        }
    }

    /// To the lines.
    pub fn go_ocr_state(&mut self) -> (actions: Vec<Action>)
        ensures
            final(self)@ == old(self)@.go_ocr().state,
            actions.deep_view() == old(self)@.go_ocr().actions,
    {
        match self.current_state {
            AppState::Import | AppState::Blacklist | AppState::OCR => {
                self.current_state = AppState::OCR;
                if self.ocr_list.items.len() == 0 {
                    let line = OcrEntry::new("Processing..", OcrType::Entry);
                    let mut items: Vec<OcrEntry> = Vec::new();
                    items.push(line);
                    assert(items.deep_view() =~= seq![
                        OcrLine { text: crate::ocr::placeholder_text(), tag: OcrType::Entry },
                    ]);
                    self.ocr_list.items = items;
                    self.ocr_list.state.clamp(1);
                    one_action(Action::Send(AppEvent::PerformOCR))
                } else {
                    no_actions()
                }
            },
            _ => no_actions(),
        }
    }

    /// Hiding the selected receipt.
    pub fn hide_item(&self) -> (actions: Vec<Action>)
        ensures
            actions.deep_view() == self@.hide_item().actions,
            self@.hide_item().state == self@,
    {
        if self.current_state == AppState::Home {
            match self.bon_list.state.pick(self.bon_list.items.len()) {
                Some(i) => {
                    assert(self.bon_list.items.deep_view()[i as int] == self.bon_list.items@[i as int]@);
                    two_actions(
                        Action::HideBon(self.bon_list.items[i].bon_id),
                        Action::Send(AppEvent::UpdateFromDatabase),
                    )
                },
                None => no_actions(),
            }
        } else {
            no_actions()
        }
    }

    /// Committing the draft: plans the commit against the categories and
    /// products of the store, and hands the plan out.
    pub fn import_bon(&self, snapshot: &Snapshot) -> (actions: Vec<Action>)
        ensures
            actions.deep_view() == self@.import_bon(snapshot@).actions,
            self@.import_bon(snapshot@).state == self@,
    {
        if self.current_state == AppState::ConvertBon {
            let plan = plan_commit(
                &self.new_bon_list,
                &snapshot.categories,
                &snapshot.products,
                self.ocr_file.as_str(),
            );
            one_action(Action::Commit(plan))
        } else {
            no_actions()
        }
    }

    /// Takes note that the plan of the commit was carried out.
    pub fn commit_succeeded(&mut self) -> (actions: Vec<Action>)
        ensures
            final(self)@ == old(self)@.commit_succeeded().state,
            actions.deep_view() == old(self)@.commit_succeeded().actions,
            old(self).wf() ==> final(self).wf(),
    {
        if self.current_state == AppState::ConvertBon {
            self.ocr_file = String::new();
            self.failure = None;
            three_actions(
                Action::Send(AppEvent::GoHomeState),
                Action::Send(AppEvent::UpdateFromDatabase),
                Action::Send(AppEvent::CalculateSummary),
            )
        } else {
            no_actions()
        }
    }

    /// Takes note that the store failed: the user is told. The draft and
    /// the state of the workflow stay as they are.
    pub fn storage_failed(&mut self)
        ensures
            final(self)@ == old(self)@.storage_failed(),
            old(self).wf() ==> final(self).wf(),
    {
        self.failure = Some(Failure::Storage);
    }

    /// A step down the list of the current state; at either end of a list
    /// the cursor stays.
    pub fn next_item(&mut self) -> (actions: Vec<Action>)
        ensures
            final(self)@ == old(self)@.next_item().state,
            actions.deep_view() == old(self)@.next_item().actions,
    {
        match self.current_state {
            AppState::Category => {
                self.category_list.state.step_down(self.category_list.items.len());
                no_actions()
            },
            AppState::ConvertBon => {
                self.new_bon_list.state.step_down(self.new_bon_list.items.len());
                no_actions()
            },
            AppState::Home => {
                if self.bon_list.state.step_down(self.bon_list.items.len()) {
                    one_action(Action::Send(AppEvent::CalculateSummary))
                } else {
                    no_actions()
                }
            },
            AppState::Import => {
                self.import_list.state.step_down(self.import_list.items.len());
                no_actions()
            },
            AppState::OCR => {
                self.ocr_list.state.step_down(self.ocr_list.items.len());
                no_actions()
            },
            _ => no_actions(),
        }
    }

    /// A step up the list of the current state.
    pub fn previous_item(&mut self) -> (actions: Vec<Action>)
        ensures
            final(self)@ == old(self)@.previous_item().state,
            actions.deep_view() == old(self)@.previous_item().actions,
    {
        match self.current_state {
            AppState::Category => {
                self.category_list.state.step_up();
                no_actions()
            },
            AppState::ConvertBon => {
                self.new_bon_list.state.step_up();
                no_actions()
            },
            AppState::Home => {
                if self.bon_list.state.step_up() {
                    one_action(Action::Send(AppEvent::CalculateSummary))
                } else {
                    no_actions()
                }
            },
            AppState::Import => {
                self.import_list.state.step_up();
                no_actions()
            },
            AppState::OCR => {
                self.ocr_list.state.step_up();
                no_actions()
            },
            _ => no_actions(),
        }
    }

    /// Toggles the mark `tag` on the selected line.
    fn ocr_mark(&mut self, tag: OcrType)
        ensures
            final(self)@ == old(self)@.ocr_mark(tag),
    {
        if self.current_state == AppState::OCR {
            match self.ocr_list.state.pick(self.ocr_list.items.len()) {
                Some(i) => {
                    mark(&mut self.ocr_list.items, i, tag);
                },
                None => {},
            }
        }
    }

    /// Toggles the date mark on the selected line, at the lines. An entry
    /// becomes the date, and the line that was the date becomes an entry
    /// again; the date becomes an entry; the sum stays the sum. Away from the
    /// lines nothing changes.
    pub fn ocr_mark_date(&mut self)
        ensures
            final(self)@ == old(self)@.ocr_mark(OcrType::Date),
            old(self).wf() ==> final(self).wf(),
            forall|from: int|
                old(self).current_state == AppState::OCR && old(self)@.ocr_list.selected() is Some
                    && old(self)@.ocr_list.items[old(self)@.ocr_list.selected()->0].tag
                    == OcrType::Entry && 0 <= from < old(self)@.ocr_list.items.len()
                    && (#[trigger] old(self)@.ocr_list.items[from]).tag == OcrType::Date
                    ==> mark_moved(
                    old(self)@.ocr_list.items,
                    final(self)@.ocr_list.items,
                    OcrType::Date,
                    from,
                    old(self)@.ocr_list.selected()->0,
                ),
    {
        proof {
            if self.wf() {
                lemma_on_event_wf(self@, AppEvent::OcrMarkDate, arbitrary());
            }
            let s = self@;
            assert forall|from: int|
                s.current_state == AppState::OCR && s.ocr_list.selected() is Some
                    && s.ocr_list.items[s.ocr_list.selected()->0].tag == OcrType::Entry && 0
                    <= from < s.ocr_list.items.len() && (#[trigger] s.ocr_list.items[from]).tag
                    == OcrType::Date implies mark_moved(
                s.ocr_list.items,
                s.ocr_mark(OcrType::Date).ocr_list.items,
                OcrType::Date,
                from,
                s.ocr_list.selected()->0,
            ) by {
                lemma_mark_moves(s, OcrType::Date, from);
            }
        }
        self.ocr_mark(OcrType::Date);
    }

    /// Toggles the sum mark on the selected line, as [`App::ocr_mark_date`]
    /// does the date mark.
    pub fn ocr_mark_sum(&mut self)
        ensures
            final(self)@ == old(self)@.ocr_mark(OcrType::Sum),
            old(self).wf() ==> final(self).wf(),
            forall|from: int|
                old(self).current_state == AppState::OCR && old(self)@.ocr_list.selected() is Some
                    && old(self)@.ocr_list.items[old(self)@.ocr_list.selected()->0].tag
                    == OcrType::Entry && 0 <= from < old(self)@.ocr_list.items.len()
                    && (#[trigger] old(self)@.ocr_list.items[from]).tag == OcrType::Sum
                    ==> mark_moved(
                    old(self)@.ocr_list.items,
                    final(self)@.ocr_list.items,
                    OcrType::Sum,
                    from,
                    old(self)@.ocr_list.selected()->0,
                ),
    {
        proof {
            if self.wf() {
                lemma_on_event_wf(self@, AppEvent::OcrMarkSum, arbitrary());
            }
            let s = self@;
            assert forall|from: int|
                s.current_state == AppState::OCR && s.ocr_list.selected() is Some
                    && s.ocr_list.items[s.ocr_list.selected()->0].tag == OcrType::Entry && 0
                    <= from < s.ocr_list.items.len() && (#[trigger] s.ocr_list.items[from]).tag
                    == OcrType::Sum implies mark_moved(
                s.ocr_list.items,
                s.ocr_mark(OcrType::Sum).ocr_list.items,
                OcrType::Sum,
                from,
                s.ocr_list.selected()->0,
            ) by {
                lemma_mark_moves(s, OcrType::Sum, from);
            }
        }
        self.ocr_mark(OcrType::Sum);
    }

    /// Asks for the recognition of the file under import.
    pub fn request_ocr(&self) -> (actions: Vec<Action>)
        ensures
            actions.deep_view() == self@.request_ocr().actions,
            self@.request_ocr().state == self@,
    {
        if self.current_state == AppState::OCR {
            one_action(Action::RunOcr(self.ocr_file.clone()))
        } else {
            no_actions()
        }
    }

    /// Takes in the text that recognition found: the lines worth keeping
    /// take the place of the lines, with the cursor on the first of them.
    /// Away from the lines the text is dropped.
    pub fn perform_ocr(&mut self, text: &str)
        ensures
            final(self)@ == old(self)@.perform_ocr(text@),
            old(self).wf() ==> final(self).wf(),
            old(self).current_state == AppState::OCR ==> forall|i: int|
                0 <= i < final(self).ocr_list.items.len() ==> fresh_line(
                    #[trigger] final(self)@.ocr_list.items[i],
                    old(self)@.ocr_blacklist,
                ),
    {
        proof {
            if self.wf() {
                crate::workflow::lemma_perform_ocr_wf(self@, text@);
            }
        }
        if self.current_state == AppState::OCR {
            self.ocr_list.items = classify(text, &self.ocr_blacklist);
            self.ocr_list.state.first(self.ocr_list.items.len());
            self.failure = None;
        }
    }

    /// Takes note that recognition failed: back to the picking of a file,
    /// and the user is told.
    pub fn ocr_failed(&mut self)
        ensures
            final(self)@ == old(self)@.ocr_failed(),
            old(self).wf() ==> final(self).wf(),
    {
        if self.current_state == AppState::OCR {
            self.current_state = AppState::Import;
            self.ocr_list.items = Vec::new();
            self.ocr_list.state = ListState::new();
            self.failure = Some(Failure::OcrEngine);
            assert(self.ocr_list.items.deep_view() =~= Seq::<OcrLine>::empty());
        }
    }

    /// Reads the store anew, as far as the current state shows it.
    pub fn update_from_database(&mut self, snapshot: Snapshot)
        ensures
            final(self)@ == old(self)@.update_from_database(snapshot@),
            old(self).wf() ==> final(self).wf(),
    {
        proof {
            if self.wf() {
                lemma_on_event_wf(self@, AppEvent::UpdateFromDatabase, snapshot@);
            }
        }
        match self.current_state {
            AppState::OCR => {
                self.ocr_blacklist = snapshot.blacklist;
                self.ocr_list.items = refilter(&self.ocr_list.items, &self.ocr_blacklist);
                self.ocr_list.state.clamp(self.ocr_list.items.len());
            },
            AppState::Home => {
                self.import_list.items = importable_files(&snapshot.files, &snapshot.processed);
                self.import_list.state.first(self.import_list.items.len());
                self.bon_list.items = snapshot.bons;
                self.bon_list.state.first(self.bon_list.items.len());
            },
            AppState::Category => {
                self.category_list.items = snapshot.categories;
                self.category_list.state.first(self.category_list.items.len());
            },
            _ => {},
        }
    }

    /// Sums up: the summary of the selected receipt at home, the totals of
    /// the draft at the draft.
    pub fn calculate_summary(&mut self)
        ensures
            final(self)@ == old(self)@.calculate_summary(),
    {
        match self.current_state {
            AppState::Home => {
                match self.bon_list.state.pick(self.bon_list.items.len()) {
                    Some(i) => {
                        assert(self.bon_list.items.deep_view()[i as int]
                            == self.bon_list.items@[i as int]@);
                        self.bon_summary = summarize(&self.bon_list.items[i].entries);
                    },
                    None => {},
                }
            },
            AppState::ConvertBon | AppState::EditPrice => {
                self.new_bon_list.settle();
            },
            _ => {},
        }
    }

    /// Converts the lines to a draft, against the catalog of
    /// the store.
    pub fn convert_to_bon(&mut self, snapshot: &Snapshot) -> (actions: Vec<Action>)
        ensures
            final(self)@ == old(self)@.convert_to_bon(snapshot@).state,
            actions.deep_view() == old(self)@.convert_to_bon(snapshot@).actions,
    {
        if self.current_state == AppState::OCR {
            self.new_bon_list = NewBonList::convert(
                &self.ocr_list.items,
                &snapshot.products,
                &snapshot.categories,
            );
            back_to_draft()
        } else {
            no_actions()
        }
    }

    /// A key press while a text for the blacklist is edited.
    fn key_blacklist(&self, key: Key) -> (actions: Vec<Action>)
        ensures
            actions.deep_view() == self@.on_key_blacklist(key).actions,
            self@.on_key_blacklist(key).state == self@,
    {
        match key {
            Key::Enter => {
                if !self.edit_field.as_str().is_empty() {
                    three_actions(
                        Action::AddBlacklistEntry(self.edit_field.clone()),
                        Action::Send(AppEvent::GoOcrState),
                        Action::Send(AppEvent::UpdateFromDatabase),
                    )
                } else {
                    no_actions()
                }
            },
            Key::Esc => one_action(Action::Send(AppEvent::GoOcrState)),
            _ => one_action(Action::EditInput),
        }
    }

    /// Enter while a field of the draft is edited.
    fn commit_edit(&mut self) -> (actions: Vec<Action>)
        ensures
            final(self)@ == old(self)@.commit_edit().state,
            actions.deep_view() == old(self)@.commit_edit().actions,
    {
        let selected = self.new_bon_list.state.pick(self.new_bon_list.items.len());
        match self.current_state {
            AppState::EditName => {
                match selected {
                    Some(i) => {
                        self.new_bon_list.set_product(i, self.edit_field.clone());
                    },
                    None => {},
                }
                back_to_draft()
            },
            AppState::EditPrice => {
                match Price::parse(self.edit_field.as_str()) {
                    Some(price) => {
                        match selected {
                            Some(i) => {
                                self.new_bon_list.set_price(i, price);
                            },
                            None => {},
                        }
                        back_to_draft()
                    },
                    None => {
                        self.failure = Some(Failure::Parse);
                        no_actions()
                    },
                }
            },
            AppState::EditBonPrice => {
                match Price::parse(self.edit_field.as_str()) {
                    Some(price) => {
                        self.new_bon_list.set_reported(price);
                        back_to_draft()
                    },
                    None => {
                        self.failure = Some(Failure::Parse);
                        no_actions()
                    },
                }
            },
            _ => no_actions(),
        }
    }

    /// A key press while a field of the draft is edited.
    fn key_edit(&mut self, key: Key) -> (actions: Vec<Action>)
        ensures
            final(self)@ == old(self)@.on_key_edit(key).state,
            actions.deep_view() == old(self)@.on_key_edit(key).actions,
    {
        match key {
            Key::Enter => self.commit_edit(),
            Key::Esc => one_action(Action::Send(AppEvent::GoConvertBonState)),
            _ => one_action(Action::EditInput),
        }
    }

    /// A key press while the name of a new category is edited.
    fn key_edit_category(&self, key: Key) -> (actions: Vec<Action>)
        ensures
            actions.deep_view() == self@.on_key_edit_category(key).actions,
            self@.on_key_edit_category(key).state == self@,
    {
        match key {
            Key::Enter => {
                let names = names_of_categories(&self.category_list.items);
                if position(&names, self.edit_field.as_str()).is_some() {
                    two_actions(
                        Action::Send(AppEvent::GoCategoryState),
                        Action::Send(AppEvent::UpdateFromDatabase),
                    )
                } else {
                    three_actions(
                        Action::CreateCategory(self.edit_field.clone()),
                        Action::Send(AppEvent::GoCategoryState),
                        Action::Send(AppEvent::UpdateFromDatabase),
                    )
                }
            },
            Key::Esc => one_action(Action::Send(AppEvent::GoCategoryState)),
            _ => one_action(Action::EditInput),
        }
    }

    /// Deletes what is selected.
    fn delete_selected(&mut self) -> (actions: Vec<Action>)
        ensures
            final(self)@ == old(self)@.delete_selected().state,
            actions.deep_view() == old(self)@.delete_selected().actions,
    {
        match self.current_state {
            AppState::OCR => {
                match self.ocr_list.state.pick(self.ocr_list.items.len()) {
                    Some(i) => {
                        let ghost before = self.ocr_list.items.deep_view();
                        self.ocr_list.items.remove(i);
                        assert(self.ocr_list.items.deep_view() =~= before.remove(i as int));
                        self.ocr_list.state.clamp(self.ocr_list.items.len());
                    },
                    None => {},
                }
                no_actions()
            },
            AppState::ConvertBon => {
                match self.new_bon_list.state.pick(self.new_bon_list.items.len()) {
                    Some(i) => {
                        self.new_bon_list.remove(i);
                    },
                    None => {},
                }
                one_action(Action::Send(AppEvent::CalculateSummary))
            },
            _ => no_actions(),
        }
    }

    /// A letter outside the editing states.
    fn key_letter(&mut self, c: char) -> (actions: Vec<Action>)
        ensures
            final(self)@ == old(self)@.on_letter(c).state,
            actions.deep_view() == old(self)@.on_letter(c).actions,
    {
        let at_draft = self.current_state == AppState::ConvertBon;
        let item = self.new_bon_list.state.pick(self.new_bon_list.items.len());
        proof {
            if let Some(i) = item {
                assert(self.new_bon_list.items.deep_view()[i as int]
                    == self.new_bon_list.items@[i as int]@);
            }
        }
        if c == 'a' {
            if self.current_state == AppState::Category {
                self.edit_field = String::new();
                two_actions(Action::LoadEditor, Action::Send(AppEvent::GoEditCategoryState))
            } else {
                no_actions()
            }
        } else if c == 'b' {
            match self.ocr_list.state.pick(self.ocr_list.items.len()) {
                Some(i) => {
                    if self.current_state == AppState::OCR {
                        assert(self.ocr_list.items.deep_view()[i as int]
                            == self.ocr_list.items@[i as int]@);
                        self.edit_field = self.ocr_list.items[i].name.clone();
                        two_actions(Action::LoadEditor, Action::Send(AppEvent::GoBlacklistState))
                    } else {
                        no_actions()
                    }
                },
                None => no_actions(),
            }
        } else if c == 'c' {
            if at_draft && item.is_some() {
                one_action(Action::Send(AppEvent::GoCategoryState))
            } else {
                no_actions()
            }
        } else if c == 'd' {
            one_action(Action::Send(AppEvent::OcrMarkDate))
        } else if c == 'h' {
            one_action(Action::Send(AppEvent::HideItem))
        } else if c == 'i' {
            one_action(Action::Send(AppEvent::GoImportState))
        } else if c == 'j' {
            one_action(Action::Send(AppEvent::NextItem))
        } else if c == 'k' {
            one_action(Action::Send(AppEvent::PreviousItem))
        } else if c == 'n' {
            match item {
                Some(i) => {
                    if at_draft {
                        self.edit_field = self.new_bon_list.items[i].product.clone();
                        two_actions(Action::LoadEditor, Action::Send(AppEvent::GoEditNameState))
                    } else {
                        no_actions()
                    }
                },
                None => no_actions(),
            }
        } else if c == 'o' {
            if at_draft {
                self.edit_field = self.new_bon_list.price_ocr.to_string();
                two_actions(Action::LoadEditor, Action::Send(AppEvent::GoEditBonPriceState))
            } else {
                no_actions()
            }
        } else if c == 'p' {
            match item {
                Some(i) => {
                    if at_draft {
                        self.edit_field = self.new_bon_list.items[i].price.to_string();
                        two_actions(Action::LoadEditor, Action::Send(AppEvent::GoEditPriceState))
                    } else {
                        no_actions()
                    }
                },
                None => no_actions(),
            }
        } else if c == 'q' {
            one_action(Action::Send(AppEvent::Quit))
        } else if c == 's' {
            one_action(Action::Send(AppEvent::OcrMarkSum))
        } else if c == 'x' {
            self.delete_selected()
        } else {
            no_actions()
        }
    }

    /// Enter outside the editing states.
    fn confirm(&mut self) -> (actions: Vec<Action>)
        ensures
            final(self)@ == old(self)@.confirm().state,
            actions.deep_view() == old(self)@.confirm().actions,
    {
        match self.current_state {
            AppState::Import => {
                match self.import_list.state.pick(self.import_list.items.len()) {
                    Some(i) => {
                        assert(self.import_list.items.deep_view()[i as int]
                            == self.import_list.items@[i as int]@);
                        self.ocr_file = join_path(
                            self.import_path.as_str(),
                            self.import_list.items[i].as_str(),
                        );
                        self.ocr_list.items = Vec::new();
                        self.ocr_list.state = ListState::new();
                        assert(self.ocr_list.items.deep_view() =~= Seq::<OcrLine>::empty());
                        one_action(Action::Send(AppEvent::GoOcrState))
                    },
                    None => no_actions(),
                }
            },
            AppState::OCR => one_action(Action::Send(AppEvent::ConvertToBon)),
            AppState::ConvertBon => one_action(Action::Send(AppEvent::ImportBon)),
            AppState::Category => {
                match self.category_list.state.pick(self.category_list.items.len()) {
                    Some(c) => {
                        assert(self.category_list.items.deep_view()[c as int]
                            == self.category_list.items@[c as int]@);
                        match self.new_bon_list.state.pick(self.new_bon_list.items.len()) {
                            Some(i) => {
                                let category = self.category_list.items[c].category.clone();
                                self.new_bon_list.set_category(i, category);
                            },
                            None => {},
                        }
                        one_action(Action::Send(AppEvent::GoConvertBonState))
                    },
                    None => no_actions(),
                }
            },
            _ => no_actions(),
        }
    }

    /// A key press outside the editing states.
    fn key_list(&mut self, key: Key) -> (actions: Vec<Action>)
        ensures
            final(self)@ == old(self)@.on_key_list(key).state,
            actions.deep_view() == old(self)@.on_key_list(key).actions,
    {
        match key {
            Key::Char(c) => self.key_letter(c),
            Key::Enter => self.confirm(),
            Key::Esc => {
                if self.current_state == AppState::Category {
                    one_action(Action::Send(AppEvent::GoConvertBonState))
                } else {
                    one_action(Action::Send(AppEvent::GoHomeState))
                }
            },
            Key::Other => no_actions(),
        }
    }

    /// Handles a key press.
    ///
    /// While a text is edited, Enter takes the text, Esc drops it, and every
    /// other key goes to the editor. Elsewhere a key asks for a step of the
    /// workflow where the state and the selection allow it, and does nothing
    /// where they do not.
    pub fn handle_key_events(&mut self, key: Key) -> (actions: Vec<Action>)
        ensures
            final(self)@ == old(self)@.on_key(key).state,
            actions.deep_view() == old(self)@.on_key(key).actions,
            old(self).wf() ==> final(self).wf(),
    {
        proof {
            if self.wf() {
                lemma_on_key_wf(self@, key);
            }
        }
        self.failure = None;
        match self.current_state {
            AppState::Blacklist => self.key_blacklist(key),
            AppState::EditBonPrice | AppState::EditName | AppState::EditPrice => self.key_edit(key),
            AppState::EditCategory => self.key_edit_category(key),
            _ => self.key_list(key),
        }
    }

    /// Takes note of what the text editor holds after a key press went to
    /// it. Outside the editing states there is no text under editing, and
    /// nothing changes.
    pub fn edit(&mut self, text: &str)
        ensures
            final(self)@ == old(self)@.edit(text@),
            old(self).wf() ==> final(self).wf(),
    {
        match self.current_state {
            AppState::Blacklist | AppState::EditBonPrice | AppState::EditCategory
            | AppState::EditName | AppState::EditPrice => {
                self.edit_field = text.to_owned();
            },
            _ => {},
        }
    }

    /// Nothing happens at a tick.
    pub fn tick(&self) {
    }

    /// Leaves.
    pub fn quit(&mut self)
        ensures
            final(self)@ == old(self)@.quit(),
    {
        self.running = false;
    }

    /// Handles an event of the application, given what the store holds at
    /// this moment.
    pub fn handle_event(&mut self, event: AppEvent, snapshot: Snapshot) -> (actions: Vec<Action>)
        ensures
            final(self)@ == old(self)@.on_event(event, snapshot@).state,
            actions.deep_view() == old(self)@.on_event(event, snapshot@).actions,
            old(self).wf() ==> final(self).wf(),
    {
        proof {
            if self.wf() {
                lemma_on_event_wf(self@, event, snapshot@);
            }
        }
        match event {
            AppEvent::CalculateSummary => {
                self.calculate_summary();
                no_actions()
            },
            AppEvent::ConvertToBon => self.convert_to_bon(&snapshot),
            AppEvent::GoBlacklistState => {
                self.go_blacklist_state();
                no_actions()
            },
            AppEvent::GoCategoryState => {
                self.go_category_state();
                no_actions()
            },
            AppEvent::GoConvertBonState => {
                self.go_convert_bon_state();
                no_actions()
            },
            AppEvent::GoEditBonPriceState => {
                self.go_edit_bon_price_state();
                no_actions()
            },
            AppEvent::GoEditCategoryState => {
                self.go_edit_category_state();
                no_actions()
            },
            AppEvent::GoEditNameState => {
                self.go_edit_name_state();
                no_actions()
            },
            AppEvent::GoEditPriceState => {
                self.go_edit_price_state();
                no_actions()
            },
            AppEvent::GoHomeState => self.go_home_state(),
            AppEvent::GoImportState => {
                self.go_import_state();
                no_actions()
            },
            AppEvent::GoOcrState => self.go_ocr_state(),
            AppEvent::HideItem => self.hide_item(),
            AppEvent::ImportBon => self.import_bon(&snapshot),
            AppEvent::NextItem => self.next_item(),
            AppEvent::OcrMarkDate => {
                self.ocr_mark(OcrType::Date);
                no_actions()
            },
            AppEvent::OcrMarkSum => {
                self.ocr_mark(OcrType::Sum);
                no_actions()
            },
            AppEvent::PerformOCR => self.request_ocr(),
            AppEvent::PreviousItem => self.previous_item(),
            AppEvent::UpdateFromDatabase => {
                self.update_from_database(snapshot);
                no_actions()
            },
            AppEvent::Quit => {
                self.quit();
                no_actions()
            },
        }
    }
}

} // verus!
