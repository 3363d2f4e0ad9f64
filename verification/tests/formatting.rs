use lsp_completion::format::{
    display_label, doc_command, editor_completion, format_command, format_entry, max_label_len,
};
use lsp_completion::text::{decimal, editor_quote, escape_bar, snippet_prefix, unescape_markdown};
use lsp_completion::types::{
    CompletionItem, CompletionItemKind, CompletionList, CompletionResponse, Documentation,
    InsertTextFormat, MarkupContent, MarkupKind,
};

fn bare_item(label: &str) -> CompletionItem {
    CompletionItem {
        label: label.to_string(),
        kind: None,
        detail: None,
        documentation: None,
        insert_text: None,
        insert_text_format: None,
    }
}

/// The editor's field-splitting rule: split on `|`, where `\|` stands for a
/// literal `|` inside a field.
fn split_fields(s: &str) -> Vec<String> {
    let chars: Vec<char> = s.chars().collect();
    let mut fields: Vec<String> = vec![String::new()];
    let mut i = 0;
    while i < chars.len() {
        if chars[i] == '\\' && i + 1 < chars.len() && chars[i + 1] == '|' {
            let last = fields.last_mut().unwrap();
            last.push('\\');
            last.push('|');
            i += 2;
        } else if chars[i] == '|' {
            fields.push(String::new());
            i += 1;
        } else {
            fields.last_mut().unwrap().push(chars[i]);
            i += 1;
        }
    }
    fields
}

fn unescape_field(s: &str) -> String {
    let chars: Vec<char> = s.chars().collect();
    let mut out = String::new();
    let mut i = 0;
    while i < chars.len() {
        if chars[i] == '\\' && i + 1 < chars.len() && chars[i + 1] == '|' {
            out.push('|');
            i += 2;
        } else {
            out.push(chars[i]);
            i += 1;
        }
    }
    out
}

#[test]
fn minimal_candidate_emits_plain_entry() {
    let resp = CompletionResponse::Array(vec![bare_item("foo")]);
    let cmd = editor_completion(5, 3, 2, false, Some(resp));
    assert_eq!(
        cmd.unwrap(),
        "set window lsp_completions 5.3@2 'foo|info -style menu ''''|foo'\n"
    );
}

#[test]
fn absent_response_emits_nothing() {
    let cmd = editor_completion(1, 2, 3, false, None);
    assert!(cmd.is_none());
}

#[test]
fn empty_batch_emits_command_with_empty_list() {
    let cmd = editor_completion(1, 2, 3, false, Some(CompletionResponse::Array(vec![])));
    assert_eq!(cmd.unwrap(), "set window lsp_completions 1.2@3 \n");
}

#[test]
fn array_and_list_forms_are_equivalent() {
    let items = vec![bare_item("alpha"), bare_item("beta")];
    let a = editor_completion(1, 2, 3, false, Some(CompletionResponse::Array(items.clone())));
    let l = editor_completion(
        1,
        2,
        3,
        false,
        Some(CompletionResponse::List(CompletionList { is_incomplete: false, items })),
    );
    assert_eq!(a, l);
}

#[test]
fn formatting_twice_gives_identical_commands() {
    let mut item = bare_item("print");
    item.kind = Some(CompletionItemKind::Function);
    item.detail = Some("fn print(text: &str)".to_string());
    item.documentation = Some(Documentation::Plain("Prints text.".to_string()));
    let items = vec![item, bare_item("println")];
    let first = format_command(9, 4, 7, &items, true);
    let second = format_command(9, 4, 7, &items, true);
    assert_eq!(first, second);
}

#[test]
fn round_trip_of_escaped_fields() {
    let a = "in|sert";
    let b = "doc 'quoted' \\x |cmd";
    let c = "la|bel";
    let joined = format!("{}|{}|{}", escape_bar(a), escape_bar(b), escape_bar(c));
    let fields = split_fields(&joined);
    assert_eq!(fields.len(), 3);
    assert_eq!(fields[0], escape_bar(a));
    assert_eq!(fields[1], escape_bar(b));
    assert_eq!(fields[2], escape_bar(c));
    assert_eq!(unescape_field(&fields[0]), a);
    assert_eq!(unescape_field(&fields[1]), b);
    assert_eq!(unescape_field(&fields[2]), c);
}

fn undouble_quotes(s: &str) -> String {
    let chars: Vec<char> = s.chars().collect();
    let mut out = String::new();
    let mut i = 0;
    while i < chars.len() {
        if chars[i] == '\'' && i + 1 < chars.len() && chars[i + 1] == '\'' {
            out.push('\'');
            i += 2;
        } else {
            out.push(chars[i]);
            i += 1;
        }
    }
    out
}

#[test]
fn emitted_entry_round_trips_through_field_splitting() {
    let mut item = bare_item("la|bel");
    item.insert_text = Some("in|sert".to_string());
    item.documentation = Some(Documentation::Plain("doc's".to_string()));
    let entry = format_entry(&item, 6, false);
    assert!(entry.starts_with('\'') && entry.ends_with('\''));
    let body = undouble_quotes(&entry[1..entry.len() - 1]);
    let fields = split_fields(&body);
    assert_eq!(fields.len(), 3);
    assert_eq!(unescape_field(&fields[0]), "in|sert");
    assert_eq!(unescape_field(&fields[1]), "info -style menu 'doc''s'");
    assert_eq!(unescape_field(&fields[2]), "la|bel");
}

#[test]
fn escape_bar_escapes_every_separator() {
    assert_eq!(escape_bar("a|b|c"), "a\\|b\\|c");
    assert_eq!(escape_bar("no separators"), "no separators");
    assert_eq!(escape_bar(""), "");
}

#[test]
fn editor_quote_doubles_quotes() {
    assert_eq!(editor_quote(""), "''");
    assert_eq!(editor_quote("it's"), "'it''s'");
    assert_eq!(editor_quote("plain"), "'plain'");
}

#[test]
fn labels_align_to_longest_label() {
    let mut a = bare_item("a");
    a.kind = Some(CompletionItemKind::Variable);
    let mut bbbb = bare_item("bbbb");
    bbbb.kind = Some(CompletionItemKind::Function);
    let items = vec![a, bbbb, bare_item("cc")];
    let maxlen = max_label_len(&items);
    assert_eq!(maxlen, 4);
    let first = display_label(&items[0].label, &items[0].kind, maxlen);
    let second = display_label(&items[1].label, &items[1].kind, maxlen);
    let third = display_label(&items[2].label, &items[2].kind, maxlen);
    assert_eq!(first, "a    {MenuInfo}Variable");
    assert_eq!(second, "bbbb {MenuInfo}Function");
    // Without a kind the label is neither padded nor annotated.
    assert_eq!(third, "cc");
    // The padded part (before the annotation marker) is maxlen wide.
    assert_eq!(first.split(" {MenuInfo}").next().unwrap().len(), maxlen);
    assert_eq!(second.split(" {MenuInfo}").next().unwrap().len(), maxlen);
}

#[test]
fn label_width_counts_characters() {
    let mut accented = bare_item("héllo");
    accented.kind = Some(CompletionItemKind::Text);
    let items = vec![accented, bare_item("ab")];
    assert_eq!(max_label_len(&items), 5);
    let l = display_label(&items[0].label, &items[0].kind, 5);
    assert_eq!(l, "héllo {MenuInfo}Text");
    assert_eq!(escape_bar("é|é"), "é\\|é");
}

#[test]
fn markdown_documentation_is_unescaped() {
    assert_eq!(unescape_markdown("\\*bold\\*"), "*bold*");
    let markdown = doc_command(
        &None,
        &Some(Documentation::Markup(MarkupContent {
            kind: MarkupKind::Markdown,
            value: "\\*bold\\*".to_string(),
        })),
    );
    assert_eq!(markdown, "info -style menu '*bold*'");
    let plain = doc_command(
        &None,
        &Some(Documentation::Markup(MarkupContent {
            kind: MarkupKind::PlainText,
            value: "\\*bold\\*".to_string(),
        })),
    );
    assert_eq!(plain, "info -style menu '\\*bold\\*'");
}

#[test]
fn backslash_before_newline_is_kept() {
    assert_eq!(unescape_markdown("a\\\nb"), "a\\\nb");
    assert_eq!(unescape_markdown("tail\\"), "tail\\");
}

#[test]
fn detail_is_prepended_with_blank_line() {
    let r = doc_command(
        &Some("fn foo()".to_string()),
        &Some(Documentation::Plain("Does foo.".to_string())),
    );
    assert_eq!(r, "info -style menu 'fn foo()\n\nDoes foo.'");
}

#[test]
fn template_prefix_stops_at_placeholder() {
    assert_eq!(snippet_prefix("foo($1, $2)"), "foo");
    assert_eq!(snippet_prefix("map<$1>"), "map");
    assert_eq!(snippet_prefix("line\nbreak"), "line");
}

#[test]
fn empty_template_prefix_falls_back_to_whole_text() {
    assert_eq!(snippet_prefix("($1)"), "($1)");
    assert_eq!(snippet_prefix(""), "");
}

#[test]
fn snippet_entry_carries_pattern_escaped_prefix() {
    let mut item = bare_item("foo");
    item.insert_text = Some("foo.bar($1)".to_string());
    item.insert_text_format = Some(InsertTextFormat::Snippet);
    let entry = format_entry(&item, 3, true);
    let expected = "'foo.bar|eval ''info -style menu ''''''''\nlsp-snippets-insert-completion ''''foo\\.bar'''' ''''foo.bar($1)''''''|foo'";
    assert_eq!(entry, expected);
    // The dot is escaped for the pattern matcher; an unescaped copy would
    // mean the escaping wrapper handed its input back unchanged.
    assert!(entry.contains("foo\\.bar"));
}

#[test]
fn snippet_disabled_keeps_literal_insertion() {
    let mut item = bare_item("foo");
    item.insert_text = Some("foo.bar($1)".to_string());
    item.insert_text_format = Some(InsertTextFormat::Snippet);
    let entry = format_entry(&item, 3, false);
    assert_eq!(entry, "'foo.bar($1)|info -style menu ''''|foo'");
}

#[test]
fn plain_format_tag_never_templates() {
    let mut item = bare_item("foo");
    item.insert_text = Some("foo($1)".to_string());
    item.insert_text_format = Some(InsertTextFormat::PlainText);
    let entry = format_entry(&item, 3, true);
    assert_eq!(entry, "'foo($1)|info -style menu ''''|foo'");
}

#[test]
fn decimal_renders_position_numbers() {
    assert_eq!(decimal(0), "0");
    assert_eq!(decimal(7), "7");
    assert_eq!(decimal(907), "907");
    assert_eq!(decimal(18446744073709551615), "18446744073709551615");
}

#[test]
fn insertion_falls_back_to_label() {
    let mut item = bare_item("fallback");
    item.insert_text = None;
    let entry = format_entry(&item, 8, true);
    assert_eq!(entry, "'fallback|info -style menu ''''|fallback'");
}
