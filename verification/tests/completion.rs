use piky::editor::style_scheme_id;
use piky::completion::CompletionSession;
use piky::completion::{
    char_offset_for_utf16, completion_edit, is_completion_trigger, line_index,
    proposal_column_text, proposals_from, resolved_insert_text, utf16_column, CompletionEdit,
    InsertTextFormat, ProposalColumn, TextEdit,
};

#[test]
fn placeholder_is_replaced_by_its_default_text() {
    assert_eq!(resolved_insert_text("class ${1:Name} {", InsertTextFormat::Snippet), "class Name {");
}

#[test]
fn tab_stops_are_dropped() {
    assert_eq!(resolved_insert_text("$1 --> $2$0", InsertTextFormat::Snippet), " --> ");
    assert_eq!(resolved_insert_text("a$12b", InsertTextFormat::Snippet), "ab");
}

#[test]
fn placeholder_without_default_is_dropped() {
    assert_eq!(resolved_insert_text("x${1}y", InsertTextFormat::Snippet), "xy");
}

#[test]
fn default_text_starts_after_the_first_colon() {
    assert_eq!(resolved_insert_text("${1:a:b}", InsertTextFormat::Snippet), "a:b");
}

#[test]
fn unterminated_placeholder_runs_to_the_end() {
    assert_eq!(resolved_insert_text("go ${1:there", InsertTextFormat::Snippet), "go there");
}

#[test]
fn nested_placeholders_come_down_to_plain_text() {
    assert_eq!(resolved_insert_text("${1:${2:x}}", InsertTextFormat::Snippet), "x");
    assert_eq!(resolved_insert_text("${1:a ${2:b} c}", InsertTextFormat::Snippet), "a b c");
    assert_eq!(resolved_insert_text("${1:$2}", InsertTextFormat::Snippet), "");
    assert_eq!(resolved_insert_text("${1:${2}y}z", InsertTextFormat::Snippet), "yz");
}

#[test]
fn plain_prefix_passes_through() {
    let rest = "${1:Name} {$0";
    let whole = format!("class {rest}");
    let resolved_rest = resolved_insert_text(rest, InsertTextFormat::Snippet);
    assert_eq!(resolved_insert_text(&whole, InsertTextFormat::Snippet), format!("class {resolved_rest}"));
    assert_eq!(resolved_rest, "Name {");
}

#[test]
fn braces_outside_placeholders_are_text() {
    assert_eq!(resolved_insert_text("${1:x}}", InsertTextFormat::Snippet), "x}");
    assert_eq!(resolved_insert_text("${1:{}}", InsertTextFormat::Snippet), "{}");
}

#[test]
fn lone_dollar_is_kept() {
    assert_eq!(resolved_insert_text("cost: $", InsertTextFormat::Snippet), "cost: $");
    assert_eq!(resolved_insert_text("$x", InsertTextFormat::Snippet), "$x");
    assert_eq!(resolved_insert_text("$$1", InsertTextFormat::Snippet), "$");
}

#[test]
fn plain_text_is_kept_as_it_stands() {
    assert_eq!(resolved_insert_text("${1:name} $0", InsertTextFormat::PlainText), "${1:name} $0");
}

#[test]
fn snippet_without_dollar_is_unchanged() {
    let text = "classDiagram\n  Animal <|-- Duck";
    assert_eq!(resolved_insert_text(text, InsertTextFormat::Snippet), text);
}

#[test]
fn utf16_column_counts_code_units() {
    assert_eq!(utf16_column(""), 0);
    assert_eq!(utf16_column("abc"), 3);
    assert_eq!(utf16_column("é"), 1);
    assert_eq!(utf16_column("a😀b"), 4);
}

#[test]
fn utf16_column_maps_back_to_characters() {
    let line = "x😀y😀z";
    assert_eq!(char_offset_for_utf16(line, 0), 0);
    assert_eq!(char_offset_for_utf16(line, 1), 1);
    assert_eq!(char_offset_for_utf16(line, 3), 2);
    assert_eq!(char_offset_for_utf16(line, 4), 3);
    // A column inside a surrogate pair rounds up to the next character.
    assert_eq!(char_offset_for_utf16(line, 2), 2);
    // A column past the end of the line stops at its end.
    assert_eq!(char_offset_for_utf16(line, 100), 5);
}

#[test]
fn utf16_round_trip_on_every_prefix() {
    let line = "a😀bé😀";
    let chars: Vec<char> = line.chars().collect();
    for k in 0..=chars.len() {
        let prefix: String = chars[..k].iter().collect();
        assert_eq!(char_offset_for_utf16(line, utf16_column(&prefix)), k);
    }
}

#[test]
fn triggers() {
    for c in ['a', 'Z', '7', 'é', '-', '>', '<', ':', '(', ')', '.', '_', '%'] {
        assert!(is_completion_trigger(c), "{c:?}");
    }
    for c in [' ', '\n', '{', '}', '|', '"', '+'] {
        assert!(!is_completion_trigger(c), "{c:?}");
    }
}

#[test]
fn column_text() {
    let label = "classDiagram".to_string();
    let detail = Some("Class diagram".to_string());
    assert_eq!(proposal_column_text(ProposalColumn::TypedText, &label, &detail), Some(Some(label.clone())));
    assert_eq!(proposal_column_text(ProposalColumn::Details, &label, &detail), Some(detail.clone()));
    assert_eq!(proposal_column_text(ProposalColumn::Comment, &label, &None), Some(None));
    assert_eq!(proposal_column_text(ProposalColumn::Icon, &label, &detail), None);
    assert_eq!(proposal_column_text(ProposalColumn::After, &label, &detail), None);
}

#[test]
fn proposal_with_edit_replaces_the_range() {
    let edit = TextEdit {
        start_line: 1,
        start_character: 2,
        end_line: 1,
        end_character: 5,
        new_text: "${1:Foo}".to_string(),
    };
    match completion_edit(&Some(edit), &Some("ignored".to_string()), InsertTextFormat::Snippet, false) {
        CompletionEdit::Replace { start_line, start_character, end_line, end_character, text } => {
            assert_eq!((start_line, start_character, end_line, end_character), (1, 2, 1, 5));
            assert_eq!(text, "Foo");
        }
        other => panic!("unexpected {other:?}"),
    }
}

#[test]
fn proposal_without_edit_inserts_at_the_cursor() {
    match completion_edit(&None, &Some("end$0".to_string()), InsertTextFormat::Snippet, true) {
        CompletionEdit::InsertAtCursor(text) => assert_eq!(text, "end"),
        other => panic!("unexpected {other:?}"),
    }
    assert!(matches!(
        completion_edit(&None, &Some("end".to_string()), InsertTextFormat::Snippet, false),
        CompletionEdit::Unchanged
    ));
    assert!(matches!(
        completion_edit(&None, &None, InsertTextFormat::PlainText, true),
        CompletionEdit::Unchanged
    ));
}

#[test]
fn negative_lines_count_as_the_first() {
    assert_eq!(line_index(-3), 0);
    assert_eq!(line_index(0), 0);
    assert_eq!(line_index(12), 12);
}

#[test]
fn style_schemes() {
    assert_eq!(style_scheme_id(true), "Adwaita-dark");
    assert_eq!(style_scheme_id(false), "Adwaita");
}

#[test]
fn session_versions_go_up_and_completions_come_back() {
    let mut session = CompletionSession::new();
    assert_eq!(session.current_version(), 0);
    let items = session.complete("flow", 0, 4);
    assert_eq!(session.current_version(), 1);
    assert!(items.iter().any(|item| item.label.starts_with("flowchart")));
    let _ = session.complete("flow", 0, 4);
    assert_eq!(session.current_version(), 2);
}

#[test]
fn engine_answers_become_proposals() {
    assert!(proposals_from(None).is_empty());
    let answer = vec![
        ("flowchart".to_string(), Some("Flowchart".to_string()), None, false, None),
        (
            "class".to_string(),
            None,
            Some("class ${1:Name}".to_string()),
            true,
            Some((0, 0, 0, 2, "class ${1:Name}".to_string())),
        ),
    ];
    let items = proposals_from(Some(answer));
    assert_eq!(items.len(), 2);
    assert_eq!(items[0].label, "flowchart");
    assert_eq!(items[0].detail.as_deref(), Some("Flowchart"));
    assert_eq!(items[0].insert_text, None);
    assert_eq!(items[0].format, InsertTextFormat::PlainText);
    assert!(items[0].text_edit.is_none());
    assert_eq!(items[1].label, "class");
    assert_eq!(items[1].format, InsertTextFormat::Snippet);
    let edit = items[1].text_edit.as_ref().expect("an edit");
    assert_eq!((edit.start_line, edit.start_character, edit.end_line, edit.end_character), (0, 0, 0, 2));
    assert_eq!(edit.new_text, "class ${1:Name}");
}
