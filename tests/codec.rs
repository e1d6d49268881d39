use caduceus_collab::codec::{decode, encode, Field, Json};
use caduceus_collab::envelope::{
    CursorChangeReason, CursorSelectionChangedEvent, Message, ModelContentChange,
    ModelContentChangedEvent, Range, Selection,
};

fn edit() -> Message {
    Message::Edit(ModelContentChangedEvent {
        changes: vec![ModelContentChange {
            range: Range { start_line_number: 1, start_column: 2, end_line_number: 3, end_column: 4 },
            range_offset: 0,
            range_length: 0,
            text: "x".to_string(),
        }],
        eol: "\n".to_string(),
        version_id: 1,
        is_undoing: false,
        is_redoing: true,
        is_flush: false,
        is_eol_change: false,
        detailed_reasons_change_lengths: None,
    })
}

fn selection(n: u32) -> Selection {
    Selection {
        start_line_number: n,
        start_column: n + 1,
        end_line_number: n + 2,
        end_column: n + 3,
        selection_start_line_number: n + 4,
        selection_start_column: n + 5,
        position_line_number: n + 6,
        position_column: n + 7,
    }
}

fn cursor() -> Message {
    Message::CursorSelectionChanged(CursorSelectionChangedEvent {
        selection: selection(1),
        secondary_selections: vec![selection(10), selection(20)],
        model_version_id: 7,
        old_selections: Some(vec![selection(30)]),
        old_model_version_id: 6,
        source: "keyboard".to_string(),
        reason: CursorChangeReason::Paste,
    })
}

fn member(key: &str, value: Json) -> Field {
    Field { key: key.to_string(), value }
}

fn text(s: &str) -> Json {
    Json::Str(s.to_string())
}

fn key_of(j: &Json, i: usize) -> String {
    match j {
        Json::Object(fs) => fs[i].key.clone(),
        _ => panic!("not an object"),
    }
}

#[test]
fn edit_survives_encode_then_decode() {
    let j = encode(&edit());
    assert_eq!(key_of(&j, 0), "type");
    assert_eq!(key_of(&j, 1), "data");
    match decode(&j) {
        Ok(Message::Edit(e)) => {
            assert_eq!(e.changes.len(), 1);
            assert!(e.changes[0].range == Range { start_line_number: 1, start_column: 2, end_line_number: 3, end_column: 4 });
            assert_eq!(e.changes[0].text, "x");
            assert_eq!(e.eol, "\n");
            assert_eq!(e.version_id, 1);
            assert!(e.is_redoing && !e.is_undoing && !e.is_flush && !e.is_eol_change);
            assert_eq!(e.detailed_reasons_change_lengths, None);
        }
        _ => panic!("expected an edit"),
    }
}

#[test]
fn cursor_change_survives_encode_then_decode() {
    match decode(&encode(&cursor())) {
        Ok(Message::CursorSelectionChanged(c)) => {
            assert!(c.selection == selection(1));
            assert!(c.secondary_selections == vec![selection(10), selection(20)]);
            assert_eq!(c.model_version_id, 7);
            assert!(c.old_selections == Some(vec![selection(30)]));
            assert_eq!(c.old_model_version_id, 6);
            assert_eq!(c.source, "keyboard");
            assert!(c.reason == CursorChangeReason::Paste);
        }
        _ => panic!("expected a cursor change"),
    }
}

#[test]
fn reason_is_written_as_its_number() {
    match encode(&cursor()) {
        Json::Object(fs) => match &fs[1].value {
            Json::Object(data) => {
                assert_eq!(data[6].key, "reason");
                assert!(matches!(data[6].value, Json::UInt(4)));
            }
            _ => panic!("data is not an object"),
        },
        _ => panic!("not an object"),
    }
}

fn edit_doc(extra: Vec<Field>) -> Json {
    let mut data = vec![
        member("changes", Json::Array(vec![])),
        member("eol", text("\n")),
        member("versionId", Json::UInt(3)),
        member("isUndoing", Json::Bool(false)),
        member("isRedoing", Json::Bool(false)),
        member("isFlush", Json::Bool(true)),
        member("isEolChange", Json::Bool(false)),
    ];
    data.extend(extra);
    Json::Object(vec![member("data", Json::Object(data)), member("type", text("edit"))])
}

#[test]
fn member_order_and_unknown_members_do_not_matter() {
    let doc = edit_doc(vec![member("somethingElse", Json::Null)]);
    match decode(&doc) {
        Ok(Message::Edit(e)) => {
            assert!(e.changes.is_empty());
            assert_eq!(e.version_id, 3);
            assert!(e.is_flush);
            assert_eq!(e.detailed_reasons_change_lengths, None);
        }
        _ => panic!("expected an edit"),
    }
}

#[test]
fn optional_lengths_may_be_null_or_a_list() {
    let doc = edit_doc(vec![member("detailedReasonsChangeLengths", Json::Null)]);
    assert!(decode(&doc).is_ok());
    let doc = edit_doc(vec![member(
        "detailedReasonsChangeLengths",
        Json::Array(vec![Json::UInt(2), Json::UInt(5)]),
    )]);
    match decode(&doc) {
        Ok(Message::Edit(e)) => assert_eq!(e.detailed_reasons_change_lengths, Some(vec![2, 5])),
        _ => panic!("expected an edit"),
    }
    let doc = edit_doc(vec![member("detailedReasonsChangeLengths", Json::Bool(true))]);
    assert!(decode(&doc).is_err());
}

#[test]
fn unknown_type_is_rejected() {
    let doc = Json::Object(vec![member("type", text("chat")), member("data", Json::Object(vec![]))]);
    assert!(decode(&doc).is_err());
}

#[test]
fn missing_or_mistyped_fields_are_rejected() {
    assert!(decode(&Json::Null).is_err());
    assert!(decode(&Json::Object(vec![member("type", text("edit"))])).is_err());
    let mut doc = edit_doc(vec![]);
    if let Json::Object(fs) = &mut doc {
        if let Json::Object(data) = &mut fs[0].value {
            data[2] = member("versionId", Json::NegInt(-1));
        }
    }
    assert!(decode(&doc).is_err());
    let big = edit_doc(vec![]);
    let mut big = big;
    if let Json::Object(fs) = &mut big {
        if let Json::Object(data) = &mut fs[0].value {
            data[2] = member("versionId", Json::UInt(1 << 32));
        }
    }
    assert!(decode(&big).is_err());
}

#[test]
fn reason_out_of_range_is_rejected() {
    let mut doc = encode(&cursor());
    if let Json::Object(fs) = &mut doc {
        if let Json::Object(data) = &mut fs[1].value {
            data[6] = member("reason", Json::UInt(7));
        }
    }
    assert!(decode(&doc).is_err());
}
