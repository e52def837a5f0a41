//! What happens to a session, and what a session asks of its surroundings.

use crate::commit::{CommitPlan, CommitPlanView};
use vstd::prelude::*;

verus! {

/// An event of the application itself, as opposed to a key press. Events are
/// handled one at a time, in the order in which they were sent.
#[derive(Clone, Copy, Debug, PartialEq, Eq, Structural)]
pub enum AppEvent {
    CalculateSummary,
    ConvertToBon,
    GoBlacklistState,
    GoCategoryState,
    GoConvertBonState,
    GoEditBonPriceState,
    GoEditCategoryState,
    GoEditNameState,
    GoEditPriceState,
    GoHomeState,
    GoImportState,
    GoOcrState,
    HideItem,
    ImportBon,
    NextItem,
    OcrMarkDate,
    OcrMarkSum,
    PerformOCR,
    PreviousItem,
    UpdateFromDatabase,
    Quit,
}

/// A key press, as far as the session tells keys apart.
#[derive(Clone, Copy, Debug, PartialEq, Eq)]
pub enum Key {
    Enter,
    Esc,
    Char(char),
    Other,
}

/// A failure that the user is told of.
#[derive(Clone, Copy, Debug, PartialEq, Eq, Structural)]
pub enum Failure {
    /// What was typed is not what the field holds.
    Parse,
    /// The image could not be read or recognised.
    OcrEngine,
    /// The store could not be read or written.
    Storage,
}

/// What the session asks of its surroundings after a step. The actions of
/// one step are to be carried out in their order.
#[derive(Clone, Debug, PartialEq, Eq)]
pub enum Action {
    /// Send this event to the session, behind the events already waiting.
    Send(AppEvent),
    /// Hand the key press to the text editor, and tell the session what the
    /// editor holds afterwards.
    EditInput,
    /// Replace the content of the text editor with the edit field of the
    /// session.
    LoadEditor,
    /// Add this text to the stored blacklist.
    AddBlacklistEntry(String),
    /// Store a category of this name.
    CreateCategory(String),
    /// Hide the stored receipt with this key.
    HideBon(i64),
    /// Recognise the text of the file at this path, and report the outcome.
    RunOcr(String),
    /// Carry out this plan, and report the outcome.
    Commit(CommitPlan),
}

/// What an [`Action`] stands for.
pub enum ActionView {
    Send(AppEvent),
    EditInput,
    LoadEditor,
    AddBlacklistEntry(Seq<char>),
    CreateCategory(Seq<char>),
    HideBon(i64),
    RunOcr(Seq<char>),
    Commit(CommitPlanView),
}

impl View for Action {
    type V = ActionView;

    open spec fn view(&self) -> ActionView {
        match self {
            Action::Send(e) => ActionView::Send(*e),
            Action::EditInput => ActionView::EditInput,
            Action::LoadEditor => ActionView::LoadEditor,
            Action::AddBlacklistEntry(s) => ActionView::AddBlacklistEntry(s@),
            Action::CreateCategory(s) => ActionView::CreateCategory(s@),
            Action::HideBon(id) => ActionView::HideBon(*id),
            Action::RunOcr(s) => ActionView::RunOcr(s@),
            Action::Commit(p) => ActionView::Commit(p@),
        }
    }
}

impl DeepView for Action {
    type V = ActionView;

    open spec fn deep_view(&self) -> ActionView {
        self@
    }
}

} // verus!
