//! What pages tell of themselves.

use vstd::prelude::*;

verus! {

/// The category of a JavaScript dialog.
#[derive(Clone, Debug, PartialEq, Eq)]
pub enum DialogKind {
    Alert,
    Confirm,
    Prompt,
    BeforeUnload,
    Other(String),
}

/// Typed page events. `D` is the handle by which a pending dialog is answered.
#[derive(Clone, Debug)]
pub enum PageEvent<D> {
    Dialog { kind: DialogKind, message: String, dialog: D },
    Download { guid: String, url: String, suggested_name: String },
    PageCrashed,
    Closed,
    Navigated { url: String },
}

} // verus!
