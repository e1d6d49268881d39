//! The wire form of envelopes, as JSON documents.
//!
//! `Json` is a parsed JSON document; turning text into one and back is the
//! JSON library's work, done by the caller. Here an envelope is decoded from
//! a document and encoded into one:
//! `{"type": "edit" | "cursorSelectionChanged", "data": {...}}`, with
//! camelCase field names. Decoding ignores unknown fields, takes a missing or
//! `null` optional field as absent, and fails on anything else that does not
//! fit.
use crate::envelope::{
    ChangeView, CursorChangeReason, CursorView, EditView, Message, MessageView, ModelContentChange,
    ModelContentChangedEvent, CursorSelectionChangedEvent, Range, Selection, reason_of, reason_code,
};
use vstd::prelude::*;

verus! {

/// A JSON document.
pub enum Json {
    Null,
    Bool(bool),
    /// A non-negative integer.
    UInt(u64),
    /// A negative integer.
    NegInt(i64),
    /// A number with a fraction or an exponent; its value is not kept.
    Fraction,
    Str(String),
    Array(Vec<Json>),
    Object(Vec<Field>),
}

/// One member of a JSON object.
pub struct Field {
    pub key: String,
    pub value: Json,
}

/// A document that is not a well-formed envelope.
pub struct DecodeError;

/// The value of the first member of `fs` named `key`.
pub open spec fn field(fs: Seq<Field>, key: Seq<char>) -> Option<Json>
    decreases fs.len(),
{
    if fs.len() == 0 {
        None
    } else if fs[0].key@ == key {
        Some(fs[0].value)
    } else {
        field(fs.drop_first(), key)
    }
}

/// The document a reference points to, if any.
pub open spec fn deref(j: Option<&Json>) -> Option<Json> {
    match j {
        Some(x) => Some(*x),
        None => None,
    }
}

/// A number that fits in 32 bits.
pub open spec fn as_u32(j: Option<Json>) -> Option<u32> {
    match j {
        Some(Json::UInt(n)) => if n <= u32::MAX {
            Some(n as u32)
        } else {
            None
        },
        _ => None,
    }
}

/// A boolean.
pub open spec fn as_bool(j: Option<Json>) -> Option<bool> {
    match j {
        Some(Json::Bool(b)) => Some(b),
        _ => None,
    }
}

/// A string.
pub open spec fn as_text(j: Option<Json>) -> Option<Seq<char>> {
    match j {
        Some(Json::Str(s)) => Some(s@),
        _ => None,
    }
}

/// A cursor-change reason, written as its number.
pub open spec fn as_reason(j: Option<Json>) -> Option<CursorChangeReason> {
    match j {
        Some(Json::UInt(n)) => reason_of(n),
        _ => None,
    }
}

/// A range object.
pub open spec fn dec_range(j: Option<Json>) -> Option<Range> {
    match j {
        Some(Json::Object(fs)) => {
            let a = as_u32(field(fs@, "startLineNumber"@));
            let b = as_u32(field(fs@, "startColumn"@));
            let c = as_u32(field(fs@, "endLineNumber"@));
            let d = as_u32(field(fs@, "endColumn"@));
            if a is Some && b is Some && c is Some && d is Some {
                Some(Range { start_line_number: a->0, start_column: b->0, end_line_number: c->0, end_column: d->0 })
            } else {
                None
            }
        },
        _ => None,
    }
}

/// A selection object.
pub open spec fn dec_selection(j: Option<Json>) -> Option<Selection> {
    match j {
        Some(Json::Object(fs)) => {
            let a = as_u32(field(fs@, "startLineNumber"@));
            let b = as_u32(field(fs@, "startColumn"@));
            let c = as_u32(field(fs@, "endLineNumber"@));
            let d = as_u32(field(fs@, "endColumn"@));
            let e = as_u32(field(fs@, "selectionStartLineNumber"@));
            let f = as_u32(field(fs@, "selectionStartColumn"@));
            let g = as_u32(field(fs@, "positionLineNumber"@));
            let h = as_u32(field(fs@, "positionColumn"@));
            if a is Some && b is Some && c is Some && d is Some && e is Some && f is Some && g is Some && h is Some {
                Some(Selection {
                    start_line_number: a->0,
                    start_column: b->0,
                    end_line_number: c->0,
                    end_column: d->0,
                    selection_start_line_number: e->0,
                    selection_start_column: f->0,
                    position_line_number: g->0,
                    position_column: h->0,
                })
            } else {
                None
            }
        },
        _ => None,
    }
}

/// A change object.
pub open spec fn dec_change(j: Option<Json>) -> Option<ChangeView> {
    match j {
        Some(Json::Object(fs)) => {
            let r = dec_range(field(fs@, "range"@));
            let o = as_u32(field(fs@, "rangeOffset"@));
            let l = as_u32(field(fs@, "rangeLength"@));
            let t = as_text(field(fs@, "text"@));
            if r is Some && o is Some && l is Some && t is Some {
                Some(ChangeView { range: r->0, range_offset: o->0, range_length: l->0, text: t->0 })
            } else {
                None
            }
        },
        _ => None,
    }
}

/// An array of change objects.
pub open spec fn dec_changes(j: Option<Json>) -> Option<Seq<ChangeView>> {
    match j {
        Some(Json::Array(v)) => if forall|i: int| 0 <= i < v@.len() ==> #[trigger] dec_change(Some(v@[i])) is Some {
            Some(Seq::new(v@.len(), |i: int| dec_change(Some(v@[i]))->0))
        } else {
            None
        },
        _ => None,
    }
}

/// An array of selection objects.
pub open spec fn dec_selections(j: Option<Json>) -> Option<Seq<Selection>> {
    match j {
        Some(Json::Array(v)) => if forall|i: int| 0 <= i < v@.len() ==> #[trigger] dec_selection(Some(v@[i])) is Some {
            Some(Seq::new(v@.len(), |i: int| dec_selection(Some(v@[i]))->0))
        } else {
            None
        },
        _ => None,
    }
}

/// An array of 32-bit numbers.
pub open spec fn dec_u32s(j: Option<Json>) -> Option<Seq<u32>> {
    match j {
        Some(Json::Array(v)) => if forall|i: int| 0 <= i < v@.len() ==> #[trigger] as_u32(Some(v@[i])) is Some {
            Some(Seq::new(v@.len(), |i: int| as_u32(Some(v@[i]))->0))
        } else {
            None
        },
        _ => None,
    }
}

/// An optional array of selections: absent or `null` is `None`.
pub open spec fn dec_opt_selections(j: Option<Json>) -> Option<Option<Seq<Selection>>> {
    match j {
        None => Some(None),
        Some(Json::Null) => Some(None),
        _ => match dec_selections(j) {
            Some(s) => Some(Some(s)),
            None => None,
        },
    }
}

/// An optional array of numbers: absent or `null` is `None`.
pub open spec fn dec_opt_u32s(j: Option<Json>) -> Option<Option<Seq<u32>>> {
    match j {
        None => Some(None),
        Some(Json::Null) => Some(None),
        _ => match dec_u32s(j) {
            Some(s) => Some(Some(s)),
            None => None,
        },
    }
}

/// The payload of an `edit` envelope.
pub open spec fn dec_edit(j: Option<Json>) -> Option<EditView> {
    match j {
        Some(Json::Object(fs)) => {
            let a = dec_changes(field(fs@, "changes"@));
            let b = as_text(field(fs@, "eol"@));
            let c = as_u32(field(fs@, "versionId"@));
            let d = as_bool(field(fs@, "isUndoing"@));
            let e = as_bool(field(fs@, "isRedoing"@));
            let f = as_bool(field(fs@, "isFlush"@));
            let g = as_bool(field(fs@, "isEolChange"@));
            let h = dec_opt_u32s(field(fs@, "detailedReasonsChangeLengths"@));
            if a is Some && b is Some && c is Some && d is Some && e is Some && f is Some && g is Some && h is Some {
                Some(EditView {
                    changes: a->0,
                    eol: b->0,
                    version_id: c->0,
                    is_undoing: d->0,
                    is_redoing: e->0,
                    is_flush: f->0,
                    is_eol_change: g->0,
                    detailed_reasons_change_lengths: h->0,
                })
            } else {
                None
            }
        },
        _ => None,
    }
}

/// The payload of a `cursorSelectionChanged` envelope.
pub open spec fn dec_cursor(j: Option<Json>) -> Option<CursorView> {
    match j {
        Some(Json::Object(fs)) => {
            let a = dec_selection(field(fs@, "selection"@));
            let b = dec_selections(field(fs@, "secondarySelections"@));
            let c = as_u32(field(fs@, "modelVersionId"@));
            let d = dec_opt_selections(field(fs@, "oldSelections"@));
            let e = as_u32(field(fs@, "oldModelVersionId"@));
            let f = as_text(field(fs@, "source"@));
            let g = as_reason(field(fs@, "reason"@));
            if a is Some && b is Some && c is Some && d is Some && e is Some && f is Some && g is Some {
                Some(CursorView {
                    selection: a->0,
                    secondary_selections: b->0,
                    model_version_id: c->0,
                    old_selections: d->0,
                    old_model_version_id: e->0,
                    source: f->0,
                    reason: g->0,
                })
            } else {
                None
            }
        },
        _ => None,
    }
}

/// The envelope a document holds: its `type` names the variant and its
/// `data` carries the payload.
pub open spec fn dec_message(j: Json) -> Option<MessageView> {
    match j {
        Json::Object(fs) => {
            let tag = as_text(field(fs@, "type"@));
            let data = field(fs@, "data"@);
            if tag == Some("edit"@) {
                match dec_edit(data) {
                    Some(e) => Some(MessageView::Edit(e)),
                    None => None,
                }
            } else if tag == Some("cursorSelectionChanged"@) {
                match dec_cursor(data) {
                    Some(c) => Some(MessageView::CursorSelectionChanged(c)),
                    None => None,
                }
            } else {
                None
            }
        },
        _ => None,
    }
}

/// The first member of `fs` named `key`.
fn get<'a>(fs: &'a Vec<Field>, key: &str) -> (r: Option<&'a Json>)
    ensures
        deref(r) == field(fs@, key@),
{
    let k = key.to_string();
    let mut i: usize = 0;
    assert(fs@.skip(0) =~= fs@);
    while i < fs.len()
        invariant
            i <= fs@.len(),
            k@ == key@,
            field(fs@, key@) == field(fs@.skip(i as int), key@),
        decreases fs@.len() - i,
    {
        assert(fs@.skip(i as int)[0] == fs@[i as int]);
        if fs[i].key == k {
            return Some(&fs[i].value);
        }
        assert(fs@.skip(i as int).drop_first() =~= fs@.skip(i + 1));
        i = i + 1;
    }
    None
}

fn decode_u32(j: Option<&Json>) -> (r: Option<u32>)
    ensures
        r == as_u32(deref(j)),
{
    match j {
        Some(Json::UInt(n)) => if *n <= 0xffff_ffffu64 {
            Some(*n as u32)
        } else {
            None
        },
        _ => None,
    }
}

fn decode_bool(j: Option<&Json>) -> (r: Option<bool>)
    ensures
        r == as_bool(deref(j)),
{
    match j {
        Some(Json::Bool(b)) => Some(*b),
        _ => None,
    }
}

fn decode_text(j: Option<&Json>) -> (r: Option<String>)
    ensures
        opt_text(r) == as_text(deref(j)),
{
    match j {
        Some(Json::Str(s)) => Some(s.clone()),
        _ => None,
    }
}

/// The characters of an optional string.
pub open spec fn opt_text(s: Option<String>) -> Option<Seq<char>> {
    match s {
        Some(t) => Some(t@),
        None => None,
    }
}

fn decode_reason(j: Option<&Json>) -> (r: Option<CursorChangeReason>)
    ensures
        r == as_reason(deref(j)),
{
    match j {
        Some(Json::UInt(n)) => if *n <= 6 {
            CursorChangeReason::from_code(*n as u8)
        } else {
            None
        },
        _ => None,
    }
}

fn decode_range(j: Option<&Json>) -> (r: Option<Range>)
    ensures
        r == dec_range(deref(j)),
{
    match j {
        Some(Json::Object(fs)) => {
            let a = decode_u32(get(fs, "startLineNumber"));
            let b = decode_u32(get(fs, "startColumn"));
            let c = decode_u32(get(fs, "endLineNumber"));
            let d = decode_u32(get(fs, "endColumn"));
            match (a, b, c, d) {
                (Some(a), Some(b), Some(c), Some(d)) => Some(
                    Range { start_line_number: a, start_column: b, end_line_number: c, end_column: d },
                ),
                _ => None,
            }
        },
        _ => None,
    }
}

fn decode_selection(j: Option<&Json>) -> (r: Option<Selection>)
    ensures
        r == dec_selection(deref(j)),
{
    match j {
        Some(Json::Object(fs)) => {
            let a = decode_u32(get(fs, "startLineNumber"));
            let b = decode_u32(get(fs, "startColumn"));
            let c = decode_u32(get(fs, "endLineNumber"));
            let d = decode_u32(get(fs, "endColumn"));
            let e = decode_u32(get(fs, "selectionStartLineNumber"));
            let f = decode_u32(get(fs, "selectionStartColumn"));
            let g = decode_u32(get(fs, "positionLineNumber"));
            let h = decode_u32(get(fs, "positionColumn"));
            match (a, b, c, d, e, f, g, h) {
                (Some(a), Some(b), Some(c), Some(d), Some(e), Some(f), Some(g), Some(h)) => Some(
                    Selection {
                        start_line_number: a,
                        start_column: b,
                        end_line_number: c,
                        end_column: d,
                        selection_start_line_number: e,
                        selection_start_column: f,
                        position_line_number: g,
                        position_column: h,
                    },
                ),
                _ => None,
            }
        },
        _ => None,
    }
}

fn decode_change(j: Option<&Json>) -> (r: Option<ModelContentChange>)
    ensures
        match r {
            Some(c) => dec_change(deref(j)) == Some(c@),
            None => dec_change(deref(j)) is None,
        },
{
    match j {
        Some(Json::Object(fs)) => {
            let range = decode_range(get(fs, "range"));
            let offset = decode_u32(get(fs, "rangeOffset"));
            let length = decode_u32(get(fs, "rangeLength"));
            let text = decode_text(get(fs, "text"));
            match (range, offset, length, text) {
                (Some(range), Some(range_offset), Some(range_length), Some(text)) => Some(
                    ModelContentChange { range, range_offset, range_length, text },
                ),
                _ => None,
            }
        },
        _ => None,
    }
}

fn decode_changes(j: Option<&Json>) -> (r: Option<Vec<ModelContentChange>>)
    ensures
        match r {
            Some(v) => dec_changes(deref(j)) == Some(v@.map_values(|c: ModelContentChange| c@)),
            None => dec_changes(deref(j)) is None,
        },
{
    match j {
        Some(Json::Array(items)) => {
            let mut out: Vec<ModelContentChange> = Vec::new();
            let mut i: usize = 0;
            while i < items.len()
                invariant
                    deref(j) == Some(Json::Array(*items)),
                    i <= items@.len(),
                    out@.len() == i,
                    forall|k: int| 0 <= k < i ==> dec_change(Some(items@[k])) == Some(#[trigger] out@[k]@),
                decreases items@.len() - i,
            {
                match decode_change(Some(&items[i])) {
                    Some(c) => out.push(c),
                    None => {
                        assert(dec_change(Some(items@[i as int])) is None);
                        return None;
                    },
                }
                i = i + 1;
            }
            assert forall|k: int| 0 <= k < items@.len() implies (#[trigger] dec_change(Some(items@[k]))) is Some by {
                assert(dec_change(Some(items@[k])) == Some(out@[k]@));
            }
            assert(Seq::new(items@.len(), |k: int| dec_change(Some(items@[k]))->0) =~= out@.map_values(|c: ModelContentChange| c@));
            Some(out)
        },
        _ => None,
    }
}

fn decode_selections(j: Option<&Json>) -> (r: Option<Vec<Selection>>)
    ensures
        match r {
            Some(v) => dec_selections(deref(j)) == Some(v@),
            None => dec_selections(deref(j)) is None,
        },
{
    match j {
        Some(Json::Array(items)) => {
            let mut out: Vec<Selection> = Vec::new();
            let mut i: usize = 0;
            while i < items.len()
                invariant
                    deref(j) == Some(Json::Array(*items)),
                    i <= items@.len(),
                    out@.len() == i,
                    forall|k: int| 0 <= k < i ==> dec_selection(Some(items@[k])) == Some(#[trigger] out@[k]),
                decreases items@.len() - i,
            {
                match decode_selection(Some(&items[i])) {
                    Some(s) => out.push(s),
                    None => {
                        assert(dec_selection(Some(items@[i as int])) is None);
                        return None;
                    },
                }
                i = i + 1;
            }
            assert forall|k: int| 0 <= k < items@.len() implies (#[trigger] dec_selection(Some(items@[k]))) is Some by {
                assert(dec_selection(Some(items@[k])) == Some(out@[k]));
            }
            assert(Seq::new(items@.len(), |k: int| dec_selection(Some(items@[k]))->0) =~= out@);
            Some(out)
        },
        _ => None,
    }
}

fn decode_u32s(j: Option<&Json>) -> (r: Option<Vec<u32>>)
    ensures
        match r {
            Some(v) => dec_u32s(deref(j)) == Some(v@),
            None => dec_u32s(deref(j)) is None,
        },
{
    match j {
        Some(Json::Array(items)) => {
            let mut out: Vec<u32> = Vec::new();
            let mut i: usize = 0;
            while i < items.len()
                invariant
                    deref(j) == Some(Json::Array(*items)),
                    i <= items@.len(),
                    out@.len() == i,
                    forall|k: int| 0 <= k < i ==> as_u32(Some(items@[k])) == Some(#[trigger] out@[k]),
                decreases items@.len() - i,
            {
                match decode_u32(Some(&items[i])) {
                    Some(n) => out.push(n),
                    None => {
                        assert(as_u32(Some(items@[i as int])) is None);
                        return None;
                    },
                }
                i = i + 1;
            }
            assert forall|k: int| 0 <= k < items@.len() implies (#[trigger] as_u32(Some(items@[k]))) is Some by {
                assert(as_u32(Some(items@[k])) == Some(out@[k]));
            }
            assert(Seq::new(items@.len(), |k: int| as_u32(Some(items@[k]))->0) =~= out@);
            Some(out)
        },
        _ => None,
    }
}

/// The outer `Option` fails; the inner one is the optional value.
fn decode_opt_selections(j: Option<&Json>) -> (r: Option<Option<Vec<Selection>>>)
    ensures
        match r {
            Some(o) => dec_opt_selections(deref(j)) == Some(crate::envelope::opt_seq(o)),
            None => dec_opt_selections(deref(j)) is None,
        },
{
    match j {
        None => Some(None),
        Some(Json::Null) => Some(None),
        _ => match decode_selections(j) {
            Some(v) => Some(Some(v)),
            None => None,
        },
    }
}

fn decode_opt_u32s(j: Option<&Json>) -> (r: Option<Option<Vec<u32>>>)
    ensures
        match r {
            Some(o) => dec_opt_u32s(deref(j)) == Some(crate::envelope::opt_seq(o)),
            None => dec_opt_u32s(deref(j)) is None,
        },
{
    match j {
        None => Some(None),
        Some(Json::Null) => Some(None),
        _ => match decode_u32s(j) {
            Some(v) => Some(Some(v)),
            None => None,
        },
    }
}

fn decode_edit(j: Option<&Json>) -> (r: Option<ModelContentChangedEvent>)
    ensures
        match r {
            Some(e) => dec_edit(deref(j)) == Some(e@),
            None => dec_edit(deref(j)) is None,
        },
{
    match j {
        Some(Json::Object(fs)) => {
            let a = decode_changes(get(fs, "changes"));
            let b = decode_text(get(fs, "eol"));
            let c = decode_u32(get(fs, "versionId"));
            let d = decode_bool(get(fs, "isUndoing"));
            let e = decode_bool(get(fs, "isRedoing"));
            let f = decode_bool(get(fs, "isFlush"));
            let g = decode_bool(get(fs, "isEolChange"));
            let h = decode_opt_u32s(get(fs, "detailedReasonsChangeLengths"));
            match (a, b, c, d, e, f, g, h) {
                (Some(a), Some(b), Some(c), Some(d), Some(e), Some(f), Some(g), Some(h)) => Some(
                    ModelContentChangedEvent {
                        changes: a,
                        eol: b,
                        version_id: c,
                        is_undoing: d,
                        is_redoing: e,
                        is_flush: f,
                        is_eol_change: g,
                        detailed_reasons_change_lengths: h,
                    },
                ),
                _ => None,
            }
        },
        _ => None,
    }
}

fn decode_cursor(j: Option<&Json>) -> (r: Option<CursorSelectionChangedEvent>)
    ensures
        match r {
            Some(c) => dec_cursor(deref(j)) == Some(c@),
            None => dec_cursor(deref(j)) is None,
        },
{
    match j {
        Some(Json::Object(fs)) => {
            let a = decode_selection(get(fs, "selection"));
            let b = decode_selections(get(fs, "secondarySelections"));
            let c = decode_u32(get(fs, "modelVersionId"));
            let d = decode_opt_selections(get(fs, "oldSelections"));
            let e = decode_u32(get(fs, "oldModelVersionId"));
            let f = decode_text(get(fs, "source"));
            let g = decode_reason(get(fs, "reason"));
            match (a, b, c, d, e, f, g) {
                (Some(a), Some(b), Some(c), Some(d), Some(e), Some(f), Some(g)) => Some(
                    CursorSelectionChangedEvent {
                        selection: a,
                        secondary_selections: b,
                        model_version_id: c,
                        old_selections: d,
                        old_model_version_id: e,
                        source: f,
                        reason: g,
                    },
                ),
                _ => None,
            }
        },
        _ => None,
    }
}

/// Reads the envelope a document holds. It fails when the document is not
/// an object, when its `type` is neither `edit` nor `cursorSelectionChanged`,
/// or when its `data` is missing or does not fit that variant.
pub fn decode(j: &Json) -> (r: Result<Message, DecodeError>)
    ensures
        match r {
            Ok(m) => dec_message(*j) == Some(m@),
            Err(_) => dec_message(*j) is None,
        },
{
    match j {
        Json::Object(fs) => {
            let tag = decode_text(get(fs, "type"));
            let data = get(fs, "data");
            match tag {
                Some(t) => {
                    if t == "edit".to_string() {
                        match decode_edit(data) {
                            Some(e) => Ok(Message::Edit(e)),
                            None => Err(DecodeError),
                        }
                    } else if t == "cursorSelectionChanged".to_string() {
                        match decode_cursor(data) {
                            Some(c) => Ok(Message::CursorSelectionChanged(c)),
                            None => Err(DecodeError),
                        }
                    } else {
                        Err(DecodeError)
                    }
                },
                None => Err(DecodeError),
            }
        },
        _ => Err(DecodeError),
    }
}

/// A member named `key` holding `value`.
pub open spec fn member_is(f: Field, key: Seq<char>, value: Json) -> bool {
    f.key@ == key && f.value == value
}

/// The document of a 32-bit number.
pub open spec fn num(n: u32) -> Json {
    Json::UInt(n as u64)
}

/// Whether `j` is the string `s`.
pub open spec fn text_is(j: Json, s: Seq<char>) -> bool {
    match j {
        Json::Str(t) => t@ == s,
        _ => false,
    }
}

/// How `encode` writes a range.
pub open spec fn range_json(j: Json, r: Range) -> bool {
    match j {
        Json::Object(fs) => {
            &&& fs@.len() == 4
            &&& member_is(fs@[0], "startLineNumber"@, num(r.start_line_number))
            &&& member_is(fs@[1], "startColumn"@, num(r.start_column))
            &&& member_is(fs@[2], "endLineNumber"@, num(r.end_line_number))
            &&& member_is(fs@[3], "endColumn"@, num(r.end_column))
        },
        _ => false,
    }
}

/// How `encode` writes a selection.
pub open spec fn selection_json(j: Json, s: Selection) -> bool {
    match j {
        Json::Object(fs) => {
            &&& fs@.len() == 8
            &&& member_is(fs@[0], "startLineNumber"@, num(s.start_line_number))
            &&& member_is(fs@[1], "startColumn"@, num(s.start_column))
            &&& member_is(fs@[2], "endLineNumber"@, num(s.end_line_number))
            &&& member_is(fs@[3], "endColumn"@, num(s.end_column))
            &&& member_is(fs@[4], "selectionStartLineNumber"@, num(s.selection_start_line_number))
            &&& member_is(fs@[5], "selectionStartColumn"@, num(s.selection_start_column))
            &&& member_is(fs@[6], "positionLineNumber"@, num(s.position_line_number))
            &&& member_is(fs@[7], "positionColumn"@, num(s.position_column))
        },
        _ => false,
    }
}

/// How `encode` writes a change.
pub open spec fn change_json(j: Json, c: ChangeView) -> bool {
    match j {
        Json::Object(fs) => {
            &&& fs@.len() == 4
            &&& fs@[0].key@ == "range"@ && range_json(fs@[0].value, c.range)
            &&& member_is(fs@[1], "rangeOffset"@, num(c.range_offset))
            &&& member_is(fs@[2], "rangeLength"@, num(c.range_length))
            &&& fs@[3].key@ == "text"@ && text_is(fs@[3].value, c.text)
        },
        _ => false,
    }
}

/// How `encode` writes a list of changes.
pub open spec fn changes_json(j: Json, cs: Seq<ChangeView>) -> bool {
    match j {
        Json::Array(v) => v@.len() == cs.len() && forall|i: int|
            0 <= i < cs.len() ==> change_json(#[trigger] v@[i], cs[i]),
        _ => false,
    }
}

/// How `encode` writes a list of selections.
pub open spec fn selections_json(j: Json, ss: Seq<Selection>) -> bool {
    match j {
        Json::Array(v) => v@.len() == ss.len() && forall|i: int|
            0 <= i < ss.len() ==> selection_json(#[trigger] v@[i], ss[i]),
        _ => false,
    }
}

/// How `encode` writes a list of numbers.
pub open spec fn u32s_json(j: Json, ns: Seq<u32>) -> bool {
    match j {
        Json::Array(v) => v@.len() == ns.len() && forall|i: int|
            0 <= i < ns.len() ==> #[trigger] v@[i] == num(ns[i]),
        _ => false,
    }
}

/// How `encode` writes an optional list of selections: `null` when absent.
pub open spec fn opt_selections_json(j: Json, o: Option<Seq<Selection>>) -> bool {
    match o {
        Some(ss) => selections_json(j, ss),
        None => j == Json::Null,
    }
}

/// How `encode` writes an optional list of numbers: `null` when absent.
pub open spec fn opt_u32s_json(j: Json, o: Option<Seq<u32>>) -> bool {
    match o {
        Some(ns) => u32s_json(j, ns),
        None => j == Json::Null,
    }
}

/// How `encode` writes the payload of an edit.
pub open spec fn edit_json(j: Json, e: EditView) -> bool {
    match j {
        Json::Object(fs) => {
            &&& fs@.len() == 8
            &&& fs@[0].key@ == "changes"@ && changes_json(fs@[0].value, e.changes)
            &&& fs@[1].key@ == "eol"@ && text_is(fs@[1].value, e.eol)
            &&& member_is(fs@[2], "versionId"@, num(e.version_id))
            &&& member_is(fs@[3], "isUndoing"@, Json::Bool(e.is_undoing))
            &&& member_is(fs@[4], "isRedoing"@, Json::Bool(e.is_redoing))
            &&& member_is(fs@[5], "isFlush"@, Json::Bool(e.is_flush))
            &&& member_is(fs@[6], "isEolChange"@, Json::Bool(e.is_eol_change))
            &&& fs@[7].key@ == "detailedReasonsChangeLengths"@
            &&& opt_u32s_json(fs@[7].value, e.detailed_reasons_change_lengths)
        },
        _ => false,
    }
}

/// How `encode` writes the payload of a cursor change.
pub open spec fn cursor_json(j: Json, c: CursorView) -> bool {
    match j {
        Json::Object(fs) => {
            &&& fs@.len() == 7
            &&& fs@[0].key@ == "selection"@ && selection_json(fs@[0].value, c.selection)
            &&& fs@[1].key@ == "secondarySelections"@ && selections_json(fs@[1].value, c.secondary_selections)
            &&& member_is(fs@[2], "modelVersionId"@, num(c.model_version_id))
            &&& fs@[3].key@ == "oldSelections"@ && opt_selections_json(fs@[3].value, c.old_selections)
            &&& member_is(fs@[4], "oldModelVersionId"@, num(c.old_model_version_id))
            &&& fs@[5].key@ == "source"@ && text_is(fs@[5].value, c.source)
            &&& member_is(fs@[6], "reason"@, Json::UInt(reason_code(c.reason) as u64))
        },
        _ => false,
    }
}

/// How `encode` writes an envelope: the variant's name under `type`, its
/// payload under `data`.
pub open spec fn envelope_json(j: Json, m: MessageView) -> bool {
    match j {
        Json::Object(fs) => {
            &&& fs@.len() == 2
            &&& fs@[0].key@ == "type"@
            &&& fs@[1].key@ == "data"@
            &&& match m {
                MessageView::Edit(e) => text_is(fs@[0].value, "edit"@) && edit_json(fs@[1].value, e),
                MessageView::CursorSelectionChanged(c) => text_is(fs@[0].value, "cursorSelectionChanged"@)
                    && cursor_json(fs@[1].value, c),
            }
        },
        _ => false,
    }
}

fn member(key: &str, value: Json) -> (f: Field)
    ensures
        f.key@ == key@,
        f.value == value,
{
    Field { key: key.to_string(), value }
}

fn encode_range(r: &Range) -> (j: Json)
    ensures
        range_json(j, *r),
{
    let mut fs: Vec<Field> = Vec::new();
    fs.push(member("startLineNumber", Json::UInt(r.start_line_number as u64)));
    fs.push(member("startColumn", Json::UInt(r.start_column as u64)));
    fs.push(member("endLineNumber", Json::UInt(r.end_line_number as u64)));
    fs.push(member("endColumn", Json::UInt(r.end_column as u64)));
    Json::Object(fs)
}

fn encode_selection(s: &Selection) -> (j: Json)
    ensures
        selection_json(j, *s),
{
    let mut fs: Vec<Field> = Vec::new();
    fs.push(member("startLineNumber", Json::UInt(s.start_line_number as u64)));
    fs.push(member("startColumn", Json::UInt(s.start_column as u64)));
    fs.push(member("endLineNumber", Json::UInt(s.end_line_number as u64)));
    fs.push(member("endColumn", Json::UInt(s.end_column as u64)));
    fs.push(member("selectionStartLineNumber", Json::UInt(s.selection_start_line_number as u64)));
    fs.push(member("selectionStartColumn", Json::UInt(s.selection_start_column as u64)));
    fs.push(member("positionLineNumber", Json::UInt(s.position_line_number as u64)));
    fs.push(member("positionColumn", Json::UInt(s.position_column as u64)));
    Json::Object(fs)
}

fn encode_change(c: &ModelContentChange) -> (j: Json)
    ensures
        change_json(j, c@),
{
    let mut fs: Vec<Field> = Vec::new();
    fs.push(member("range", encode_range(&c.range)));
    fs.push(member("rangeOffset", Json::UInt(c.range_offset as u64)));
    fs.push(member("rangeLength", Json::UInt(c.range_length as u64)));
    fs.push(member("text", Json::Str(c.text.clone())));
    Json::Object(fs)
}

fn encode_changes(cs: &Vec<ModelContentChange>) -> (j: Json)
    ensures
        changes_json(j, cs@.map_values(|c: ModelContentChange| c@)),
{
    let mut out: Vec<Json> = Vec::new();
    let mut i: usize = 0;
    while i < cs.len()
        invariant
            i <= cs@.len(),
            out@.len() == i,
            forall|k: int| 0 <= k < i ==> change_json(#[trigger] out@[k], cs@[k]@),
        decreases cs@.len() - i,
    {
        out.push(encode_change(&cs[i]));
        i = i + 1;
    }
    Json::Array(out)
}

fn encode_selections(ss: &Vec<Selection>) -> (j: Json)
    ensures
        selections_json(j, ss@),
{
    let mut out: Vec<Json> = Vec::new();
    let mut i: usize = 0;
    while i < ss.len()
        invariant
            i <= ss@.len(),
            out@.len() == i,
            forall|k: int| 0 <= k < i ==> selection_json(#[trigger] out@[k], ss@[k]),
        decreases ss@.len() - i,
    {
        out.push(encode_selection(&ss[i]));
        i = i + 1;
    }
    Json::Array(out)
}

fn encode_u32s(ns: &Vec<u32>) -> (j: Json)
    ensures
        u32s_json(j, ns@),
{
    let mut out: Vec<Json> = Vec::new();
    let mut i: usize = 0;
    while i < ns.len()
        invariant
            i <= ns@.len(),
            out@.len() == i,
            forall|k: int| 0 <= k < i ==> #[trigger] out@[k] == num(ns@[k]),
        decreases ns@.len() - i,
    {
        out.push(Json::UInt(ns[i] as u64));
        i = i + 1;
    }
    Json::Array(out)
}

fn encode_edit(e: &ModelContentChangedEvent) -> (j: Json)
    ensures
        edit_json(j, e@),
{
    let mut fs: Vec<Field> = Vec::new();
    fs.push(member("changes", encode_changes(&e.changes)));
    fs.push(member("eol", Json::Str(e.eol.clone())));
    fs.push(member("versionId", Json::UInt(e.version_id as u64)));
    fs.push(member("isUndoing", Json::Bool(e.is_undoing)));
    fs.push(member("isRedoing", Json::Bool(e.is_redoing)));
    fs.push(member("isFlush", Json::Bool(e.is_flush)));
    fs.push(member("isEolChange", Json::Bool(e.is_eol_change)));
    let detailed = match &e.detailed_reasons_change_lengths {
        Some(ns) => encode_u32s(ns),
        None => Json::Null,
    };
    fs.push(member("detailedReasonsChangeLengths", detailed));
    Json::Object(fs)
}

fn encode_cursor(c: &CursorSelectionChangedEvent) -> (j: Json)
    ensures
        cursor_json(j, c@),
{
    let mut fs: Vec<Field> = Vec::new();
    fs.push(member("selection", encode_selection(&c.selection)));
    fs.push(member("secondarySelections", encode_selections(&c.secondary_selections)));
    fs.push(member("modelVersionId", Json::UInt(c.model_version_id as u64)));
    let old = match &c.old_selections {
        Some(ss) => encode_selections(ss),
        None => Json::Null,
    };
    fs.push(member("oldSelections", old));
    fs.push(member("oldModelVersionId", Json::UInt(c.old_model_version_id as u64)));
    fs.push(member("source", Json::Str(c.source.clone())));
    fs.push(member("reason", Json::UInt(c.reason.code() as u64)));
    Json::Object(fs)
}

/// Writes an envelope as a document: `{"type": <variant>, "data": <payload>}`.
pub fn encode(m: &Message) -> (j: Json)
    ensures
        envelope_json(j, m@),
{
    let mut fs: Vec<Field> = Vec::new();
    match m {
        Message::Edit(e) => {
            fs.push(member("type", Json::Str("edit".to_string())));
            fs.push(member("data", encode_edit(e)));
        },
        Message::CursorSelectionChanged(c) => {
            fs.push(member("type", Json::Str("cursorSelectionChanged".to_string())));
            fs.push(member("data", encode_cursor(c)));
        },
    }
    Json::Object(fs)
}

/// The value of the member at `i` when no earlier member has its name.
proof fn lemma_field_at(fs: Seq<Field>, i: int, key: Seq<char>)
    requires
        0 <= i < fs.len(),
        fs[i].key@ == key,
        forall|k: int| 0 <= k < i ==> (#[trigger] fs[k]).key@ != key,
    ensures
        field(fs, key) == Some(fs[i].value),
    decreases i,
{
    if i > 0 {
        assert(fs[0].key@ != key);
        assert forall|k: int| 0 <= k < i - 1 implies (#[trigger] fs.drop_first()[k]).key@ != key by {
            assert(fs.drop_first()[k] == fs[k + 1]);
        }
        lemma_field_at(fs.drop_first(), i - 1, key);
    }
}

/// Decoding a range written by `encode` gives the range back.
proof fn lemma_range_round_trip(j: Json, v: Range)
    requires
        range_json(j, v),
    ensures
        dec_range(Some(j)) == Some(v),
{
    reveal_strlit("startLineNumber");
    reveal_strlit("startColumn");
    reveal_strlit("endLineNumber");
    reveal_strlit("endColumn");
    assert("startLineNumber"@.len() == 15);
    assert("startColumn"@.len() == 11);
    assert("endLineNumber"@.len() == 13);
    assert("endColumn"@.len() == 9);
    let fs = j->Object_0@;
    lemma_field_at(fs, 0, "startLineNumber"@);
    assert forall|k: int| 0 <= k < 1 implies (#[trigger] fs[k]).key@ != "startColumn"@ by {
        {}
    }
    lemma_field_at(fs, 1, "startColumn"@);
    assert forall|k: int| 0 <= k < 2 implies (#[trigger] fs[k]).key@ != "endLineNumber"@ by {
        if k == 0 {} else {}
    }
    lemma_field_at(fs, 2, "endLineNumber"@);
    assert forall|k: int| 0 <= k < 3 implies (#[trigger] fs[k]).key@ != "endColumn"@ by {
        if k == 0 {} else if k == 1 {} else {}
    }
    lemma_field_at(fs, 3, "endColumn"@);
}

/// Decoding a selection written by `encode` gives it back.
proof fn lemma_selection_round_trip(j: Json, v: Selection)
    requires
        selection_json(j, v),
    ensures
        dec_selection(Some(j)) == Some(v),
{
    reveal_strlit("startLineNumber");
    reveal_strlit("startColumn");
    reveal_strlit("endLineNumber");
    reveal_strlit("endColumn");
    reveal_strlit("selectionStartLineNumber");
    reveal_strlit("selectionStartColumn");
    reveal_strlit("positionLineNumber");
    reveal_strlit("positionColumn");
    assert("startLineNumber"@.len() == 15);
    assert("startColumn"@.len() == 11);
    assert("endLineNumber"@.len() == 13);
    assert("endColumn"@.len() == 9);
    assert("selectionStartLineNumber"@.len() == 24);
    assert("selectionStartColumn"@.len() == 20);
    assert("positionLineNumber"@.len() == 18);
    assert("positionColumn"@.len() == 14);
    let fs = j->Object_0@;
    lemma_field_at(fs, 0, "startLineNumber"@);
    assert forall|k: int| 0 <= k < 1 implies (#[trigger] fs[k]).key@ != "startColumn"@ by {
        {}
    }
    lemma_field_at(fs, 1, "startColumn"@);
    assert forall|k: int| 0 <= k < 2 implies (#[trigger] fs[k]).key@ != "endLineNumber"@ by {
        if k == 0 {} else {}
    }
    lemma_field_at(fs, 2, "endLineNumber"@);
    assert forall|k: int| 0 <= k < 3 implies (#[trigger] fs[k]).key@ != "endColumn"@ by {
        if k == 0 {} else if k == 1 {} else {}
    }
    lemma_field_at(fs, 3, "endColumn"@);
    assert forall|k: int| 0 <= k < 4 implies (#[trigger] fs[k]).key@ != "selectionStartLineNumber"@ by {
        if k == 0 {} else if k == 1 {} else if k == 2 {} else {}
    }
    lemma_field_at(fs, 4, "selectionStartLineNumber"@);
    assert forall|k: int| 0 <= k < 5 implies (#[trigger] fs[k]).key@ != "selectionStartColumn"@ by {
        if k == 0 {} else if k == 1 {} else if k == 2 {} else if k == 3 {} else {}
    }
    lemma_field_at(fs, 5, "selectionStartColumn"@);
    assert forall|k: int| 0 <= k < 6 implies (#[trigger] fs[k]).key@ != "positionLineNumber"@ by {
        if k == 0 {} else if k == 1 {} else if k == 2 {} else if k == 3 {} else if k == 4 {} else {}
    }
    lemma_field_at(fs, 6, "positionLineNumber"@);
    assert forall|k: int| 0 <= k < 7 implies (#[trigger] fs[k]).key@ != "positionColumn"@ by {
        if k == 0 {} else if k == 1 {} else if k == 2 {} else if k == 3 {} else if k == 4 {} else if k == 5 {} else {}
    }
    lemma_field_at(fs, 7, "positionColumn"@);
}

/// Decoding a change written by `encode` gives it back.
proof fn lemma_change_round_trip(j: Json, v: ChangeView)
    requires
        change_json(j, v),
    ensures
        dec_change(Some(j)) == Some(v),
{
    reveal_strlit("range");
    reveal_strlit("rangeOffset");
    reveal_strlit("rangeLength");
    reveal_strlit("text");
    assert("range"@.len() == 5);
    assert("rangeOffset"@.len() == 11);
    assert("rangeLength"@.len() == 11);
    assert("text"@.len() == 4);
    assert("rangeLength"@[5] == 'L');
    assert("rangeOffset"@[5] == 'O');
    let fs = j->Object_0@;
    lemma_field_at(fs, 0, "range"@);
    assert forall|k: int| 0 <= k < 1 implies (#[trigger] fs[k]).key@ != "rangeOffset"@ by {
        {}
    }
    lemma_field_at(fs, 1, "rangeOffset"@);
    assert forall|k: int| 0 <= k < 2 implies (#[trigger] fs[k]).key@ != "rangeLength"@ by {
        if k == 0 {} else {}
    }
    lemma_field_at(fs, 2, "rangeLength"@);
    assert forall|k: int| 0 <= k < 3 implies (#[trigger] fs[k]).key@ != "text"@ by {
        if k == 0 {} else if k == 1 {} else {}
    }
    lemma_field_at(fs, 3, "text"@);
    lemma_range_round_trip(fs[0].value, v.range);
}

/// Decoding a list of changes written by `encode` gives it back.
proof fn lemma_changes_round_trip(j: Json, v: Seq<ChangeView>)
    requires
        changes_json(j, v),
    ensures
        dec_changes(Some(j)) == Some(v),
{
    let items = j->Array_0@;
    assert forall|i: int| 0 <= i < items.len() implies #[trigger] dec_change(Some(items[i])) == Some(v[i]) by {
        lemma_change_round_trip(items[i], v[i]);
    }
    assert(Seq::new(items.len(), |i: int| dec_change(Some(items[i]))->0) =~= v);
}

/// Decoding a list of selections written by `encode` gives it back.
proof fn lemma_selections_round_trip(j: Json, v: Seq<Selection>)
    requires
        selections_json(j, v),
    ensures
        dec_selections(Some(j)) == Some(v),
{
    let items = j->Array_0@;
    assert forall|i: int| 0 <= i < items.len() implies #[trigger] dec_selection(Some(items[i])) == Some(v[i]) by {
        lemma_selection_round_trip(items[i], v[i]);
    }
    assert(Seq::new(items.len(), |i: int| dec_selection(Some(items[i]))->0) =~= v);
}

/// Decoding a list of numbers written by `encode` gives it back.
proof fn lemma_u32s_round_trip(j: Json, v: Seq<u32>)
    requires
        u32s_json(j, v),
    ensures
        dec_u32s(Some(j)) == Some(v),
{
    let items = j->Array_0@;
    assert forall|i: int| 0 <= i < items.len() implies #[trigger] as_u32(Some(items[i])) == Some(v[i]) by {
        assert(items[i] == num(v[i]));
    }
    assert(Seq::new(items.len(), |i: int| as_u32(Some(items[i]))->0) =~= v);
}

/// Decoding an edit payload written by `encode` gives it back.
proof fn lemma_edit_round_trip(j: Json, v: EditView)
    requires
        edit_json(j, v),
    ensures
        dec_edit(Some(j)) == Some(v),
{
    reveal_strlit("changes");
    reveal_strlit("eol");
    reveal_strlit("versionId");
    reveal_strlit("isUndoing");
    reveal_strlit("isRedoing");
    reveal_strlit("isFlush");
    reveal_strlit("isEolChange");
    reveal_strlit("detailedReasonsChangeLengths");
    assert("changes"@.len() == 7);
    assert("eol"@.len() == 3);
    assert("versionId"@.len() == 9);
    assert("isUndoing"@.len() == 9);
    assert("isRedoing"@.len() == 9);
    assert("isFlush"@.len() == 7);
    assert("isEolChange"@.len() == 11);
    assert("detailedReasonsChangeLengths"@.len() == 28);
    assert("changes"@[0] == 'c');
    assert("isFlush"@[0] == 'i');
    assert("isUndoing"@[0] == 'i');
    assert("versionId"@[0] == 'v');
    assert("isRedoing"@[0] == 'i');
    assert("isRedoing"@[2] == 'R');
    assert("isUndoing"@[2] == 'U');
    let fs = j->Object_0@;
    lemma_field_at(fs, 0, "changes"@);
    assert forall|k: int| 0 <= k < 1 implies (#[trigger] fs[k]).key@ != "eol"@ by {
        {}
    }
    lemma_field_at(fs, 1, "eol"@);
    assert forall|k: int| 0 <= k < 2 implies (#[trigger] fs[k]).key@ != "versionId"@ by {
        if k == 0 {} else {}
    }
    lemma_field_at(fs, 2, "versionId"@);
    assert forall|k: int| 0 <= k < 3 implies (#[trigger] fs[k]).key@ != "isUndoing"@ by {
        if k == 0 {} else if k == 1 {} else {}
    }
    lemma_field_at(fs, 3, "isUndoing"@);
    assert forall|k: int| 0 <= k < 4 implies (#[trigger] fs[k]).key@ != "isRedoing"@ by {
        if k == 0 {} else if k == 1 {} else if k == 2 {} else {}
    }
    lemma_field_at(fs, 4, "isRedoing"@);
    assert forall|k: int| 0 <= k < 5 implies (#[trigger] fs[k]).key@ != "isFlush"@ by {
        if k == 0 {} else if k == 1 {} else if k == 2 {} else if k == 3 {} else {}
    }
    lemma_field_at(fs, 5, "isFlush"@);
    assert forall|k: int| 0 <= k < 6 implies (#[trigger] fs[k]).key@ != "isEolChange"@ by {
        if k == 0 {} else if k == 1 {} else if k == 2 {} else if k == 3 {} else if k == 4 {} else {}
    }
    lemma_field_at(fs, 6, "isEolChange"@);
    assert forall|k: int| 0 <= k < 7 implies (#[trigger] fs[k]).key@ != "detailedReasonsChangeLengths"@ by {
        if k == 0 {} else if k == 1 {} else if k == 2 {} else if k == 3 {} else if k == 4 {} else if k == 5 {} else {}
    }
    lemma_field_at(fs, 7, "detailedReasonsChangeLengths"@);
    lemma_changes_round_trip(fs[0].value, v.changes);
    match v.detailed_reasons_change_lengths {
        Some(ns) => lemma_u32s_round_trip(fs[7].value, ns),
        None => {},
    }
}

/// Decoding a cursor payload written by `encode` gives it back.
proof fn lemma_cursor_round_trip(j: Json, v: CursorView)
    requires
        cursor_json(j, v),
    ensures
        dec_cursor(Some(j)) == Some(v),
{
    reveal_strlit("selection");
    reveal_strlit("secondarySelections");
    reveal_strlit("modelVersionId");
    reveal_strlit("oldSelections");
    reveal_strlit("oldModelVersionId");
    reveal_strlit("source");
    reveal_strlit("reason");
    assert("selection"@.len() == 9);
    assert("secondarySelections"@.len() == 19);
    assert("modelVersionId"@.len() == 14);
    assert("oldSelections"@.len() == 13);
    assert("oldModelVersionId"@.len() == 17);
    assert("source"@.len() == 6);
    assert("reason"@.len() == 6);
    assert("reason"@[0] == 'r');
    assert("source"@[0] == 's');
    let fs = j->Object_0@;
    lemma_field_at(fs, 0, "selection"@);
    assert forall|k: int| 0 <= k < 1 implies (#[trigger] fs[k]).key@ != "secondarySelections"@ by {
        {}
    }
    lemma_field_at(fs, 1, "secondarySelections"@);
    assert forall|k: int| 0 <= k < 2 implies (#[trigger] fs[k]).key@ != "modelVersionId"@ by {
        if k == 0 {} else {}
    }
    lemma_field_at(fs, 2, "modelVersionId"@);
    assert forall|k: int| 0 <= k < 3 implies (#[trigger] fs[k]).key@ != "oldSelections"@ by {
        if k == 0 {} else if k == 1 {} else {}
    }
    lemma_field_at(fs, 3, "oldSelections"@);
    assert forall|k: int| 0 <= k < 4 implies (#[trigger] fs[k]).key@ != "oldModelVersionId"@ by {
        if k == 0 {} else if k == 1 {} else if k == 2 {} else {}
    }
    lemma_field_at(fs, 4, "oldModelVersionId"@);
    assert forall|k: int| 0 <= k < 5 implies (#[trigger] fs[k]).key@ != "source"@ by {
        if k == 0 {} else if k == 1 {} else if k == 2 {} else if k == 3 {} else {}
    }
    lemma_field_at(fs, 5, "source"@);
    assert forall|k: int| 0 <= k < 6 implies (#[trigger] fs[k]).key@ != "reason"@ by {
        if k == 0 {} else if k == 1 {} else if k == 2 {} else if k == 3 {} else if k == 4 {} else {}
    }
    lemma_field_at(fs, 6, "reason"@);
    lemma_selection_round_trip(fs[0].value, v.selection);
    lemma_selections_round_trip(fs[1].value, v.secondary_selections);
    match v.old_selections {
        Some(ss) => lemma_selections_round_trip(fs[3].value, ss),
        None => {},
    }
    let n = reason_code(v.reason);
    assert(reason_of(n as u64) == Some(v.reason));
}

/// Decoding what `encode` writes gives back the envelope it was given, for
/// every envelope: `decode(encode(m))` is `m`.
pub proof fn lemma_round_trip(j: Json, m: MessageView)
    requires
        envelope_json(j, m),
    ensures
        dec_message(j) == Some(m),
{
    reveal_strlit("type");
    reveal_strlit("data");
    reveal_strlit("edit");
    reveal_strlit("cursorSelectionChanged");
    assert("type"@.len() == 4);
    assert("data"@.len() == 4);
    assert("edit"@.len() == 4);
    assert("cursorSelectionChanged"@.len() == 22);
    assert("data"@[0] == 'd');
    assert("type"@[0] == 't');
    assert("edit"@[0] == 'e');
    let fs = j->Object_0@;
    lemma_field_at(fs, 0, "type"@);
    assert(fs[0].key@ != "data"@);
    lemma_field_at(fs, 1, "data"@);
    match m {
        MessageView::Edit(e) => lemma_edit_round_trip(fs[1].value, e),
        MessageView::CursorSelectionChanged(c) => {
            assert("cursorSelectionChanged"@ != "edit"@);
            lemma_cursor_round_trip(fs[1].value, c);
        },
    }
}

} // verus!