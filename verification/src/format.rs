//! The response formatter: normalizes each candidate into a three-part
//! display record, escapes and quotes every field, and assembles the one
//! command that populates the editor's completion menu.

use vstd::prelude::*;

use crate::pattern::{pattern_escape, spec_pattern_escape};
use crate::text::{
    decimal, editor_quote, escape_bar, snippet_prefix, spaces, spec_decimal, spec_editor_quote,
    spec_escape_bar, spec_snippet_prefix, spec_spaces, spec_unescape_markdown, unescape_markdown,
};
use crate::types::{
    CompletionItem, CompletionItemKind, CompletionResponse, Documentation, InsertTextFormat,
    MarkupKind,
};

verus! {

/// The documentation body derived from a candidate's documentation field:
/// absent becomes empty, a plain string or plain-text markup is used as is,
/// and markdown-tagged markup is unescaped.
pub open spec fn spec_doc_body(documentation: Option<Documentation>) -> Seq<char> {
    match documentation {
        Option::None => Seq::empty(),
        Option::Some(Documentation::Plain(s)) => s@,
        Option::Some(Documentation::Markup(m)) => match m.kind {
            MarkupKind::PlainText => m.value@,
            MarkupKind::Markdown => spec_unescape_markdown(m.value@),
        },
    }
}

/// The documentation text: the body, with the detail line prepended and
/// separated by a blank line when a detail is present.
pub open spec fn spec_doc_text(detail: Option<String>, documentation: Option<Documentation>) -> Seq<
    char,
> {
    match detail {
        Option::None => spec_doc_body(documentation),
        Option::Some(d) => d@ + "\n\n"@ + spec_doc_body(documentation),
    }
}

/// The documentation-display command: the quoted documentation text handed
/// to the menu-info command.
pub open spec fn spec_doc_command(
    detail: Option<String>,
    documentation: Option<Documentation>,
) -> Seq<char> {
    "info -style menu "@ + spec_editor_quote(spec_doc_text(detail, documentation))
}

/// Derives the documentation-display command for one candidate.
pub fn doc_command(detail: &Option<String>, documentation: &Option<Documentation>) -> (r: String)
    ensures
        r@ == spec_doc_command(*detail, *documentation),
{
    let body: String = match documentation {
        Option::None => String::new(),
        Option::Some(Documentation::Plain(s)) => s.clone(),
        Option::Some(Documentation::Markup(m)) => match m.kind {
            MarkupKind::PlainText => m.value.clone(),
            MarkupKind::Markdown => unescape_markdown(m.value.as_str()),
        },
    };
    let text: String = match detail {
        Option::None => body,
        Option::Some(d) => d.clone().concat("\n\n").concat(body.as_str()),
    };
    let r = String::from_str("info -style menu ").concat(editor_quote(text.as_str()).as_str());
    assert(text@ =~= spec_doc_text(*detail, *documentation));
    assert(r@ =~= spec_doc_command(*detail, *documentation));
    r
}

/// The textual name of a candidate kind, as it is shown in the menu
/// annotation.
pub open spec fn spec_kind_name(k: CompletionItemKind) -> Seq<char> {
    match k {
        CompletionItemKind::Text => "Text"@,
        CompletionItemKind::Method => "Method"@,
        CompletionItemKind::Function => "Function"@,
        CompletionItemKind::Constructor => "Constructor"@,
        CompletionItemKind::Field => "Field"@,
        CompletionItemKind::Variable => "Variable"@,
        CompletionItemKind::Class => "Class"@,
        CompletionItemKind::Interface => "Interface"@,
        CompletionItemKind::Module => "Module"@,
        CompletionItemKind::Property => "Property"@,
        CompletionItemKind::Unit => "Unit"@,
        CompletionItemKind::Value => "Value"@,
        CompletionItemKind::Enum => "Enum"@,
        CompletionItemKind::Keyword => "Keyword"@,
        CompletionItemKind::Snippet => "Snippet"@,
        CompletionItemKind::Color => "Color"@,
        CompletionItemKind::File => "File"@,
        CompletionItemKind::Reference => "Reference"@,
        CompletionItemKind::Folder => "Folder"@,
        CompletionItemKind::EnumMember => "EnumMember"@,
        CompletionItemKind::Constant => "Constant"@,
        CompletionItemKind::Struct => "Struct"@,
        CompletionItemKind::Event => "Event"@,
        CompletionItemKind::Operator => "Operator"@,
        CompletionItemKind::TypeParameter => "TypeParameter"@,
    }
}

/// Renders a candidate kind as the text of its menu annotation.
pub fn kind_name(k: CompletionItemKind) -> (r: String)
    ensures
        r@ == spec_kind_name(k),
{
    match k {
        CompletionItemKind::Text => String::from_str("Text"),
        CompletionItemKind::Method => String::from_str("Method"),
        CompletionItemKind::Function => String::from_str("Function"),
        CompletionItemKind::Constructor => String::from_str("Constructor"),
        CompletionItemKind::Field => String::from_str("Field"),
        CompletionItemKind::Variable => String::from_str("Variable"),
        CompletionItemKind::Class => String::from_str("Class"),
        CompletionItemKind::Interface => String::from_str("Interface"),
        CompletionItemKind::Module => String::from_str("Module"),
        CompletionItemKind::Property => String::from_str("Property"),
        CompletionItemKind::Unit => String::from_str("Unit"),
        CompletionItemKind::Value => String::from_str("Value"),
        CompletionItemKind::Enum => String::from_str("Enum"),
        CompletionItemKind::Keyword => String::from_str("Keyword"),
        CompletionItemKind::Snippet => String::from_str("Snippet"),
        CompletionItemKind::Color => String::from_str("Color"),
        CompletionItemKind::File => String::from_str("File"),
        CompletionItemKind::Reference => String::from_str("Reference"),
        CompletionItemKind::Folder => String::from_str("Folder"),
        CompletionItemKind::EnumMember => String::from_str("EnumMember"),
        CompletionItemKind::Constant => String::from_str("Constant"),
        CompletionItemKind::Struct => String::from_str("Struct"),
        CompletionItemKind::Event => String::from_str("Event"),
        CompletionItemKind::Operator => String::from_str("Operator"),
        CompletionItemKind::TypeParameter => String::from_str("TypeParameter"),
    }
}

/// The visible label of a candidate: the label itself when no kind is
/// present; otherwise the label padded with spaces to the width of the
/// longest label of the batch, followed by the menu annotation marker and
/// the kind's name.
pub open spec fn spec_display_label(
    label: Seq<char>,
    kind: Option<CompletionItemKind>,
    maxlen: nat,
) -> Seq<char> {
    match kind {
        Option::None => label,
        Option::Some(k) => label + spec_spaces((maxlen - label.len()) as nat) + " {MenuInfo}"@
            + spec_kind_name(k),
    }
}

/// Builds the visible label for one candidate.
pub fn display_label(label: &String, kind: &Option<CompletionItemKind>, maxlen: usize) -> (r:
    String)
    requires
        label@.len() <= maxlen,
    ensures
        r@ == spec_display_label(label@, *kind, maxlen as nat),
{
    match kind {
        Option::None => label.clone(),
        Option::Some(k) => {
            let pad = spaces(maxlen - label.as_str().unicode_len());
            let r = label.clone().concat(pad.as_str()).concat(" {MenuInfo}").concat(
                kind_name(*k).as_str(),
            );
            assert(r@ =~= spec_display_label(label@, *kind, maxlen as nat));
            r
        },
    }
}

/// The insertion text a candidate resolves to: its insertion payload when
/// present, else its label.
pub open spec fn spec_insert_text(item: CompletionItem) -> Seq<char> {
    match item.insert_text {
        Option::None => item.label@,
        Option::Some(t) => t@,
    }
}

/// The width of the longest label in the batch; zero for an empty batch.
pub open spec fn spec_max_label_len(items: Seq<CompletionItem>) -> nat
    decreases items.len(),
{
    if items.len() == 0 {
        0
    } else {
        let rest = spec_max_label_len(items.drop_first());
        if items[0].label@.len() > rest {
            items[0].label@.len()
        } else {
            rest
        }
    }
}

/// The batch maximum bounds every label's width and is attained by one of
/// them.
pub proof fn lemma_max_label_len(items: Seq<CompletionItem>)
    ensures
        forall|i: int|
            0 <= i < items.len() ==> #[trigger] items[i].label@.len() <= spec_max_label_len(items),
        items.len() > 0 ==> exists|i: int|
            0 <= i < items.len() && items[i].label@.len() == spec_max_label_len(items),
    decreases items.len(),
{
    if items.len() > 0 {
        lemma_max_label_len(items.drop_first());
        assert forall|i: int| 0 <= i < items.len() implies #[trigger] items[i].label@.len()
            <= spec_max_label_len(items) by {
            if i > 0 {
                assert(items.drop_first()[i - 1] == items[i]);
            }
        }
        if items.len() > 1 && spec_max_label_len(items) != items[0].label@.len() {
            let j = choose|j: int|
                0 <= j < items.drop_first().len() && items.drop_first()[j].label@.len()
                    == spec_max_label_len(items.drop_first());
            assert(items[j + 1].label@.len() == spec_max_label_len(items));
        }
    }
}

fn max_label_len_from(items: &Vec<CompletionItem>, i: usize) -> (r: usize)
    requires
        i <= items@.len(),
    ensures
        r as nat == spec_max_label_len(items@.skip(i as int)),
    decreases items@.len() - i as nat,
{
    if i == items.len() {
        assert(items@.skip(i as int) =~= Seq::<CompletionItem>::empty());
        0
    } else {
        let rest = max_label_len_from(items, i + 1);
        let l = items[i].label.as_str().unicode_len();
        proof {
            let t = items@.skip(i as int);
            assert(t[0] == items@[i as int]);
            assert(t.drop_first() =~= items@.skip(i + 1));
        }
        if l > rest {
            l
        } else {
            rest
        }
    }
}

/// Computes the width of the longest label in the batch, once per batch.
pub fn max_label_len(items: &Vec<CompletionItem>) -> (r: usize)
    ensures
        r as nat == spec_max_label_len(items@),
{
    let r = max_label_len_from(items, 0);
    assert(items@.skip(0) =~= items@);
    r
}

/// Whether templated insertion applies to a candidate: the session supports
/// it and the candidate's insertion payload is tagged as a template.
pub open spec fn spec_do_snippet(item: CompletionItem, snippet_support: bool) -> bool {
    snippet_support && item.insert_text_format == Option::Some(InsertTextFormat::Snippet)
}

/// The three fields of an entry before escaping and quoting: the insertion
/// text, the auxiliary payload and the visible label.
pub open spec fn spec_entry_fields(item: CompletionItem, maxlen: nat, snippet_support: bool) -> (
    Seq<char>,
    Seq<char>,
    Seq<char>,
) {
    let doc = spec_doc_command(item.detail, item.documentation);
    let label = spec_display_label(item.label@, item.kind, maxlen);
    let insert = spec_insert_text(item);
    if spec_do_snippet(item, snippet_support) {
        let prefix = spec_snippet_prefix(insert);
        let inner = doc + seq!['\n'] + "lsp-snippets-insert-completion "@ + spec_editor_quote(
            spec_pattern_escape(prefix),
        ) + seq![' '] + spec_editor_quote(insert);
        let command = "eval "@ + spec_editor_quote(inner);
        (prefix, command, label)
    } else {
        (insert, doc, label)
    }
}

/// One formatted entry: the quoted triple of insertion text, auxiliary
/// payload and visible label, each field with its separators escaped.
pub open spec fn spec_entry(item: CompletionItem, maxlen: nat, snippet_support: bool) -> Seq<
    char,
> {
    let f = spec_entry_fields(item, maxlen, snippet_support);
    spec_editor_quote(
        spec_escape_bar(f.0) + seq!['|'] + spec_escape_bar(f.1) + seq!['|'] + spec_escape_bar(f.2),
    )
}

/// Formats one candidate into its quoted three-field entry.
pub fn format_entry(item: &CompletionItem, maxlen: usize, snippet_support: bool) -> (r: String)
    requires
        item.label@.len() <= maxlen,
    ensures
        r@ == spec_entry(*item, maxlen as nat, snippet_support),
{
    let doc = doc_command(&item.detail, &item.documentation);
    let label = display_label(&item.label, &item.kind, maxlen);
    let insert: String = match &item.insert_text {
        Option::None => item.label.clone(),
        Option::Some(t) => t.clone(),
    };
    let do_snippet = snippet_support && (match &item.insert_text_format {
        Option::Some(f) => *f == InsertTextFormat::Snippet,
        Option::None => false,
    });
    assert(do_snippet == spec_do_snippet(*item, snippet_support));
    if do_snippet {
        let prefix = snippet_prefix(insert.as_str());
        let inner = doc.concat("\n").concat("lsp-snippets-insert-completion ").concat(
            editor_quote(pattern_escape(prefix.as_str()).as_str()).as_str(),
        ).concat(" ").concat(editor_quote(insert.as_str()).as_str());
        let command = String::from_str("eval ").concat(editor_quote(inner.as_str()).as_str());
        let triple = escape_bar(prefix.as_str()).concat("|").concat(
            escape_bar(command.as_str()).as_str(),
        ).concat("|").concat(escape_bar(label.as_str()).as_str());
        let r = editor_quote(triple.as_str());
        proof {
            reveal_strlit("\n");
            reveal_strlit(" ");
            reveal_strlit("|");
            let sinner = spec_doc_command(item.detail, item.documentation) + seq!['\n']
                + "lsp-snippets-insert-completion "@ + spec_editor_quote(
                spec_pattern_escape(spec_snippet_prefix(spec_insert_text(*item))),
            ) + seq![' '] + spec_editor_quote(spec_insert_text(*item));
            assert(inner@ =~= sinner);
            let scommand = "eval "@ + spec_editor_quote(sinner);
            assert(command@ =~= scommand);
            assert(triple@ =~= spec_escape_bar(spec_snippet_prefix(spec_insert_text(*item)))
                + seq!['|'] + spec_escape_bar(scommand) + seq!['|'] + spec_escape_bar(
                spec_display_label(item.label@, item.kind, maxlen as nat),
            ));
        }
        r
    } else {
        let triple = escape_bar(insert.as_str()).concat("|").concat(
            escape_bar(doc.as_str()).as_str(),
        ).concat("|").concat(escape_bar(label.as_str()).as_str());
        let r = editor_quote(triple.as_str());
        proof {
            reveal_strlit("|");
            assert(triple@ =~= spec_escape_bar(spec_insert_text(*item)) + seq!['|']
                + spec_escape_bar(spec_doc_command(item.detail, item.documentation)) + seq!['|']
                + spec_escape_bar(spec_display_label(item.label@, item.kind, maxlen as nat)));
        }
        r
    }
}

/// All entries of a batch, in order, joined with single spaces.
pub open spec fn spec_entries(
    items: Seq<CompletionItem>,
    maxlen: nat,
    snippet_support: bool,
) -> Seq<char>
    decreases items.len(),
{
    if items.len() == 0 {
        Seq::empty()
    } else if items.len() == 1 {
        spec_entry(items[0], maxlen, snippet_support)
    } else {
        spec_entry(items[0], maxlen, snippet_support) + seq![' '] + spec_entries(
            items.drop_first(),
            maxlen,
            snippet_support,
        )
    }
}

fn format_entries_from(
    items: &Vec<CompletionItem>,
    i: usize,
    maxlen: usize,
    snippet_support: bool,
) -> (r: String)
    requires
        i <= items@.len(),
        forall|j: int| 0 <= j < items@.len() ==> #[trigger] items@[j].label@.len() <= maxlen,
    ensures
        r@ == spec_entries(items@.skip(i as int), maxlen as nat, snippet_support),
    decreases items@.len() - i as nat,
{
    let n = items.len();
    if i == n {
        let r = String::new();
        assert(items@.skip(i as int) =~= Seq::<CompletionItem>::empty());
        r
    } else {
        let head = format_entry(&items[i], maxlen, snippet_support);
        proof {
            let t = items@.skip(i as int);
            assert(t[0] == items@[i as int]);
            assert(t.drop_first() =~= items@.skip(i + 1));
        }
        if i + 1 == n {
            head
        } else {
            let rest = format_entries_from(items, i + 1, maxlen, snippet_support);
            let r = head.concat(" ").concat(rest.as_str());
            proof {
                reveal_strlit(" ");
            }
            assert(r@ =~= spec_entries(items@.skip(i as int), maxlen as nat, snippet_support));
            r
        }
    }
}

/// The full completion command for a batch: the UI state variable keyed by
/// cursor line, request offset and version stamp, set to the space-joined
/// entry list.
pub open spec fn spec_command(
    line: u32,
    offset: u32,
    version: u64,
    items: Seq<CompletionItem>,
    snippet_support: bool,
) -> Seq<char> {
    "set window lsp_completions "@ + spec_decimal(line as nat) + seq!['.'] + spec_decimal(
        offset as nat,
    ) + seq!['@'] + spec_decimal(version as nat) + seq![' '] + spec_entries(
        items,
        spec_max_label_len(items),
        snippet_support,
    ) + seq!['\n']
}

/// Formats a whole candidate batch into the completion command.
pub fn format_command(
    line: u32,
    offset: u32,
    version: u64,
    items: &Vec<CompletionItem>,
    snippet_support: bool,
) -> (r: String)
    ensures
        r@ == spec_command(line, offset, version, items@, snippet_support),
{
    let maxlen = max_label_len(items);
    proof {
        lemma_max_label_len(items@);
    }
    let entries = format_entries_from(items, 0, maxlen, snippet_support);
    let r = String::from_str("set window lsp_completions ").concat(
        decimal(line as u64).as_str(),
    ).concat(".").concat(decimal(offset as u64).as_str()).concat("@").concat(
        decimal(version).as_str(),
    ).concat(" ").concat(entries.as_str()).concat("\n");
    proof {
        reveal_strlit(".");
        reveal_strlit("@");
        reveal_strlit(" ");
        reveal_strlit("\n");
        assert(items@.skip(0) =~= items@);
        assert(r@ =~= spec_command(line, offset, version, items@, snippet_support));
    }
    r
}

/// Consumes the optional response for one completion request. Absence of a
/// response is not an error and yields no command at all; a present response
/// of either form yields exactly the command that `spec_command` states for
/// its candidate sequence.
pub fn editor_completion(
    line: u32,
    offset: u32,
    version: u64,
    snippet_support: bool,
    result: Option<CompletionResponse>,
) -> (r: Option<String>)
    ensures
        r is Some <==> result is Some,
        match (result, r) {
            (Option::Some(resp), Option::Some(cmd)) => cmd@ == spec_command(
                line,
                offset,
                version,
                resp.spec_items(),
                snippet_support,
            ),
            (Option::None, Option::None) => true,
            _ => false,
        },
{
    match result {
        Option::None => Option::None,
        Option::Some(resp) => {
            let items = resp.into_items();
            Option::Some(format_command(line, offset, version, &items, snippet_support))
        },
    }
}

/// Formatting is a pure function of its inputs: two calls on the same
/// candidate list, position context and templating flag yield the same
/// command.
pub proof fn lemma_formatting_idempotent(
    line: u32,
    offset: u32,
    version: u64,
    snippet_support: bool,
    items1: Seq<CompletionItem>,
    items2: Seq<CompletionItem>,
)
    requires
        items1 == items2,
    ensures
        spec_command(line, offset, version, items1, snippet_support) == spec_command(
            line,
            offset,
            version,
            items2,
            snippet_support,
        ),
{
}

/// Round-trip of one emitted entry: stripping the outer quoting and
/// splitting what remains by the editor's field-splitting rule yields
/// exactly the three escaped fields, and unescaping each recovers the
/// original insertion text, auxiliary payload and visible label. The
/// insertion text may not end with a backslash: one that did would absorb
/// the separator after it.
pub proof fn lemma_entry_round_trip(item: CompletionItem, maxlen: nat, snippet_support: bool)
    requires
        ({
            let f = spec_entry_fields(item, maxlen, snippet_support);
            f.0.len() == 0 || f.0.last() != '\\'
        }),
    ensures
        ({
            let f = spec_entry_fields(item, maxlen, snippet_support);
            let e = spec_entry(item, maxlen, snippet_support);
            let body = e.subrange(1, e.len() - 1);
            &&& crate::fields::spec_split_fields(crate::text::spec_undouble_quotes(body))
                == seq![spec_escape_bar(f.0), spec_escape_bar(f.1), spec_escape_bar(f.2)]
            &&& crate::fields::spec_unescape_bar(spec_escape_bar(f.0)) == f.0
            &&& crate::fields::spec_unescape_bar(spec_escape_bar(f.1)) == f.1
            &&& crate::fields::spec_unescape_bar(spec_escape_bar(f.2)) == f.2
        }),
{
    let f = spec_entry_fields(item, maxlen, snippet_support);
    let e = spec_entry(item, maxlen, snippet_support);
    let triple = spec_escape_bar(f.0) + seq!['|'] + spec_escape_bar(f.1) + seq!['|']
        + spec_escape_bar(f.2);
    // The auxiliary payload always ends with the closing quote of an
    // interpolated command, never with a backslash.
    if spec_do_snippet(item, snippet_support) {
        let insert = spec_insert_text(item);
        let inner = spec_doc_command(item.detail, item.documentation) + seq!['\n']
            + "lsp-snippets-insert-completion "@ + spec_editor_quote(
            spec_pattern_escape(spec_snippet_prefix(insert)),
        ) + seq![' '] + spec_editor_quote(insert);
        assert(f.1 == "eval "@ + spec_editor_quote(inner));
        assert(f.1.last() == '\'');
    } else {
        let text = spec_doc_text(item.detail, item.documentation);
        assert(f.1 == "info -style menu "@ + spec_editor_quote(text));
        assert(f.1.last() == '\'');
    }
    assert(e == crate::text::spec_editor_quote(triple));
    assert(e.subrange(1, e.len() - 1) =~= crate::text::spec_quote_body(triple));
    crate::text::lemma_undouble_quote_body(triple);
    crate::fields::lemma_round_trip(f.0, f.1, f.2);
}

/// Alignment: the longest label's width bounds every label of the batch, is
/// attained by one of them, and every candidate that carries a kind shows a
/// padded label of exactly that width.
pub proof fn lemma_alignment(items: Seq<CompletionItem>)
    ensures
        forall|i: int|
            0 <= i < items.len() ==> #[trigger] items[i].label@.len() <= spec_max_label_len(items),
        items.len() > 0 ==> exists|i: int|
            0 <= i < items.len() && items[i].label@.len() == spec_max_label_len(items),
        forall|i: int|
            0 <= i < items.len() && items[i].kind is Some ==> (#[trigger] items[i].label@
                + spec_spaces(
                (spec_max_label_len(items) - items[i].label@.len()) as nat,
            )).len() == spec_max_label_len(items),
{
    lemma_max_label_len(items);
    assert forall|i: int| 0 <= i < items.len() && items[i].kind is Some implies (
    #[trigger] items[i].label@ + spec_spaces(
        (spec_max_label_len(items) - items[i].label@.len()) as nat,
    )).len() == spec_max_label_len(items) by {
        crate::text::lemma_spaces_len((spec_max_label_len(items) - items[i].label@.len()) as nat);
    }
}

} // verus!
