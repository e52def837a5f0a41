//! Turning the recognised text of a photographed receipt into a structured
//! record, and guiding the user through its correction.
//!
//! The recognised text is sorted into the lines worth keeping ([`ocr`]).
//! From a line, a date, a product name or a price is read ([`extract`]); a
//! name is matched against the catalog of known products ([`matcher`]); and
//! the tagged lines are converted to a draft of a receipt ([`draft`]), whose
//! totals stay in step with its items under every edit. A session ([`app`])
//! takes key presses and events and moves through the states of the
//! workflow as [`workflow`] lays down; what it needs of its surroundings, it
//! asks for by actions ([`event`]). A draft is committed by a plan that
//! names every row to write, once ([`commit`]).
//!
//! Amounts of money are exact decimals ([`price`]), text is a sequence of
//! characters ([`text`]), a file is known by its path ([`path`]), and
//! everything that an executable function promises is stated over such
//! values. The store, the recognition engine, the text editor and the
//! terminal are not part of the library: it reads the store as a
//! [`database::Snapshot`] and leaves reading, writing and drawing to its
//! caller.

pub mod app;
pub mod commit;
pub mod database;
pub mod draft;
pub mod event;
pub mod extract;
pub mod files;
pub mod list;
pub mod matcher;
pub mod ocr;
pub mod path;
pub mod price;
pub mod settings;
pub mod summary;
pub mod text;
pub mod workflow;
