//! The messages that clients exchange over a project's live channel.
//!
//! An envelope is either a text edit or a cursor/selection change. The hub
//! never looks inside one; it only replicates it.
use vstd::prelude::*;

verus! {

/// An edit or a cursor change.
pub enum Message {
    Edit(ModelContentChangedEvent),
    CursorSelectionChanged(CursorSelectionChangedEvent),
}

/// A change of the document's text.
pub struct ModelContentChangedEvent {
    pub changes: Vec<ModelContentChange>,
    pub eol: String,
    pub version_id: u32,
    pub is_undoing: bool,
    pub is_redoing: bool,
    pub is_flush: bool,
    pub is_eol_change: bool,
    pub detailed_reasons_change_lengths: Option<Vec<u32>>,
}

/// One replaced range and its new text.
pub struct ModelContentChange {
    pub range: Range,
    pub range_offset: u32,
    pub range_length: u32,
    pub text: String,
}

/// A range of the document, by line and column.
#[derive(Clone, Copy, PartialEq, Eq, Structural)]
pub struct Range {
    pub start_line_number: u32,
    pub start_column: u32,
    pub end_line_number: u32,
    pub end_column: u32,
}

/// A change of the cursors and selections.
pub struct CursorSelectionChangedEvent {
    pub selection: Selection,
    pub secondary_selections: Vec<Selection>,
    pub model_version_id: u32,
    pub old_selections: Option<Vec<Selection>>,
    pub old_model_version_id: u32,
    pub source: String,
    pub reason: CursorChangeReason,
}

/// A selection: its range, where it was started and where the cursor is.
#[derive(Clone, Copy, PartialEq, Eq, Structural)]
pub struct Selection {
    pub start_line_number: u32,
    pub start_column: u32,
    pub end_line_number: u32,
    pub end_column: u32,
    pub selection_start_line_number: u32,
    pub selection_start_column: u32,
    pub position_line_number: u32,
    pub position_column: u32,
}

/// Why the cursor moved. On the wire it is a number from 0 to 6.
#[derive(Clone, Copy, PartialEq, Eq, Structural)]
pub enum CursorChangeReason {
    NotSet,
    ContentFlush,
    RecoverFromMarkers,
    Explicit,
    Paste,
    Undo,
    Redo,
}

/// What a `ModelContentChange` holds, with its text as characters.
pub struct ChangeView {
    pub range: Range,
    pub range_offset: u32,
    pub range_length: u32,
    pub text: Seq<char>,
}

/// What a `ModelContentChangedEvent` holds.
pub struct EditView {
    pub changes: Seq<ChangeView>,
    pub eol: Seq<char>,
    pub version_id: u32,
    pub is_undoing: bool,
    pub is_redoing: bool,
    pub is_flush: bool,
    pub is_eol_change: bool,
    pub detailed_reasons_change_lengths: Option<Seq<u32>>,
}

/// What a `CursorSelectionChangedEvent` holds.
pub struct CursorView {
    pub selection: Selection,
    pub secondary_selections: Seq<Selection>,
    pub model_version_id: u32,
    pub old_selections: Option<Seq<Selection>>,
    pub old_model_version_id: u32,
    pub source: Seq<char>,
    pub reason: CursorChangeReason,
}

/// What a `Message` holds.
pub enum MessageView {
    Edit(EditView),
    CursorSelectionChanged(CursorView),
}

/// The contents of an optional vector.
pub open spec fn opt_seq<T>(v: Option<Vec<T>>) -> Option<Seq<T>> {
    match v {
        Some(items) => Some(items@),
        None => None,
    }
}

impl View for ModelContentChange {
    type V = ChangeView;

    open spec fn view(&self) -> ChangeView {
        ChangeView {
            range: self.range,
            range_offset: self.range_offset,
            range_length: self.range_length,
            text: self.text@,
        }
    }
}

impl View for ModelContentChangedEvent {
    type V = EditView;

    open spec fn view(&self) -> EditView {
        EditView {
            changes: self.changes@.map_values(|c: ModelContentChange| c@),
            eol: self.eol@,
            version_id: self.version_id,
            is_undoing: self.is_undoing,
            is_redoing: self.is_redoing,
            is_flush: self.is_flush,
            is_eol_change: self.is_eol_change,
            detailed_reasons_change_lengths: opt_seq(self.detailed_reasons_change_lengths),
        }
    }
}

impl View for CursorSelectionChangedEvent {
    type V = CursorView;

    open spec fn view(&self) -> CursorView {
        CursorView {
            selection: self.selection,
            secondary_selections: self.secondary_selections@,
            model_version_id: self.model_version_id,
            old_selections: opt_seq(self.old_selections),
            old_model_version_id: self.old_model_version_id,
            source: self.source@,
            reason: self.reason,
        }
    }
}

impl View for Message {
    type V = MessageView;

    open spec fn view(&self) -> MessageView {
        match self {
            Message::Edit(e) => MessageView::Edit(e@),
            Message::CursorSelectionChanged(c) => MessageView::CursorSelectionChanged(c@),
        }
    }
}

/// The wire number of a reason.
pub open spec fn reason_code(r: CursorChangeReason) -> u8 {
    match r {
        CursorChangeReason::NotSet => 0,
        CursorChangeReason::ContentFlush => 1,
        CursorChangeReason::RecoverFromMarkers => 2,
        CursorChangeReason::Explicit => 3,
        CursorChangeReason::Paste => 4,
        CursorChangeReason::Undo => 5,
        CursorChangeReason::Redo => 6,
    }
}

/// The reason with wire number `n`, if there is one.
pub open spec fn reason_of(n: u64) -> Option<CursorChangeReason> {
    if n == 0 {
        Some(CursorChangeReason::NotSet)
    } else if n == 1 {
        Some(CursorChangeReason::ContentFlush)
    } else if n == 2 {
        Some(CursorChangeReason::RecoverFromMarkers)
    } else if n == 3 {
        Some(CursorChangeReason::Explicit)
    } else if n == 4 {
        Some(CursorChangeReason::Paste)
    } else if n == 5 {
        Some(CursorChangeReason::Undo)
    } else if n == 6 {
        Some(CursorChangeReason::Redo)
    } else {
        None
    }
}

impl CursorChangeReason {
    /// The reason's wire number.
    pub fn code(&self) -> (n: u8)
        ensures
            n == reason_code(*self),
    {
        match self {
            CursorChangeReason::NotSet => 0,
            CursorChangeReason::ContentFlush => 1,
            CursorChangeReason::RecoverFromMarkers => 2,
            CursorChangeReason::Explicit => 3,
            CursorChangeReason::Paste => 4,
            CursorChangeReason::Undo => 5,
            CursorChangeReason::Redo => 6,
        }
    }

    /// The reason with wire number `n`; numbers above 6 name none.
    pub fn from_code(n: u8) -> (r: Option<CursorChangeReason>)
        ensures
            r == reason_of(n as u64),
            match r {
                Some(reason) => reason_code(reason) == n,
                None => n > 6,
            },
    {
        match n {
            0 => Some(CursorChangeReason::NotSet),
            1 => Some(CursorChangeReason::ContentFlush),
            2 => Some(CursorChangeReason::RecoverFromMarkers),
            3 => Some(CursorChangeReason::Explicit),
            4 => Some(CursorChangeReason::Paste),
            5 => Some(CursorChangeReason::Undo),
            6 => Some(CursorChangeReason::Redo),
            _ => None,
        }
    }
}

} // verus!
