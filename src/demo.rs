//! The content a demo editor starts with: a short TypeScript class and its
//! highlight spans in the token JSON format.
use vstd::prelude::*;
use vstd::utf8::encode_utf8;
use crate::buffer::{Metrics, OriginalLine, TextBuffer};
use crate::token_json::{parse_tokens_json, parsed_spans, span_views};

verus! {

/// Texts of the initial lines.
pub open spec fn initial_texts() -> Seq<Seq<char>> {
    seq![
        "import { TextBuffer } from './buffer';"@,
        ""@,
        "export class Editor {"@,
        "  private buffer: TextBuffer;"@,
        "  private cursorLine: number = 0;"@,
        ""@,
        "  constructor(content: string) {"@,
        "    this.buffer = new TextBuffer(content);"@,
        "  }"@,
        ""@,
        "  // Insert text at the cursor position"@,
        "  insert(text: string): void {"@,
        "    this.buffer.insert(this.cursorLine, text);"@,
        "  }"@,
        "}"@,
    ]
}

/// Token JSON of the initial lines.
pub open spec fn initial_tokens_json() -> Seq<Seq<char>> {
    seq![
        "[{\"s\":0,\"e\":6,\"c\":\"#c586c0\",\"st\":\"normal\"},{\"s\":7,\"e\":8,\"c\":\"#d4d4d4\",\"st\":\"normal\"},{\"s\":9,\"e\":19,\"c\":\"#9cdcfe\",\"st\":\"normal\"},{\"s\":20,\"e\":21,\"c\":\"#d4d4d4\",\"st\":\"normal\"},{\"s\":22,\"e\":26,\"c\":\"#c586c0\",\"st\":\"normal\"},{\"s\":27,\"e\":37,\"c\":\"#ce9178\",\"st\":\"normal\"},{\"s\":37,\"e\":38,\"c\":\"#d4d4d4\",\"st\":\"normal\"}]"@,
        "[]"@,
        "[{\"s\":0,\"e\":6,\"c\":\"#569cd6\",\"st\":\"normal\"},{\"s\":7,\"e\":12,\"c\":\"#569cd6\",\"st\":\"normal\"},{\"s\":13,\"e\":19,\"c\":\"#4ec9b0\",\"st\":\"normal\"},{\"s\":20,\"e\":21,\"c\":\"#d4d4d4\",\"st\":\"normal\"}]"@,
        "[{\"s\":2,\"e\":9,\"c\":\"#569cd6\",\"st\":\"normal\"},{\"s\":10,\"e\":16,\"c\":\"#9cdcfe\",\"st\":\"normal\"},{\"s\":16,\"e\":17,\"c\":\"#d4d4d4\",\"st\":\"normal\"},{\"s\":18,\"e\":28,\"c\":\"#4ec9b0\",\"st\":\"normal\"},{\"s\":28,\"e\":29,\"c\":\"#d4d4d4\",\"st\":\"normal\"}]"@,
        "[{\"s\":2,\"e\":9,\"c\":\"#569cd6\",\"st\":\"normal\"},{\"s\":10,\"e\":20,\"c\":\"#9cdcfe\",\"st\":\"normal\"},{\"s\":20,\"e\":21,\"c\":\"#d4d4d4\",\"st\":\"normal\"},{\"s\":22,\"e\":28,\"c\":\"#4ec9b0\",\"st\":\"normal\"},{\"s\":29,\"e\":30,\"c\":\"#d4d4d4\",\"st\":\"normal\"},{\"s\":31,\"e\":32,\"c\":\"#b5cea8\",\"st\":\"normal\"}]"@,
        "[]"@,
        "[{\"s\":2,\"e\":13,\"c\":\"#569cd6\",\"st\":\"normal\"},{\"s\":13,\"e\":14,\"c\":\"#d4d4d4\",\"st\":\"normal\"},{\"s\":14,\"e\":21,\"c\":\"#9cdcfe\",\"st\":\"normal\"},{\"s\":21,\"e\":22,\"c\":\"#d4d4d4\",\"st\":\"normal\"},{\"s\":23,\"e\":29,\"c\":\"#4ec9b0\",\"st\":\"normal\"},{\"s\":29,\"e\":30,\"c\":\"#d4d4d4\",\"st\":\"normal\"},{\"s\":31,\"e\":32,\"c\":\"#d4d4d4\",\"st\":\"normal\"}]"@,
        "[{\"s\":4,\"e\":8,\"c\":\"#569cd6\",\"st\":\"normal\"},{\"s\":8,\"e\":9,\"c\":\"#d4d4d4\",\"st\":\"normal\"},{\"s\":9,\"e\":15,\"c\":\"#9cdcfe\",\"st\":\"normal\"},{\"s\":16,\"e\":17,\"c\":\"#d4d4d4\",\"st\":\"normal\"},{\"s\":18,\"e\":21,\"c\":\"#569cd6\",\"st\":\"normal\"},{\"s\":22,\"e\":32,\"c\":\"#4ec9b0\",\"st\":\"normal\"},{\"s\":32,\"e\":33,\"c\":\"#d4d4d4\",\"st\":\"normal\"},{\"s\":33,\"e\":40,\"c\":\"#9cdcfe\",\"st\":\"normal\"},{\"s\":40,\"e\":41,\"c\":\"#d4d4d4\",\"st\":\"normal\"},{\"s\":41,\"e\":42,\"c\":\"#d4d4d4\",\"st\":\"normal\"}]"@,
        "[{\"s\":2,\"e\":3,\"c\":\"#d4d4d4\",\"st\":\"normal\"}]"@,
        "[]"@,
        "[{\"s\":2,\"e\":40,\"c\":\"#6a9955\",\"st\":\"italic\"}]"@,
        "[{\"s\":2,\"e\":8,\"c\":\"#dcdcaa\",\"st\":\"normal\"},{\"s\":8,\"e\":9,\"c\":\"#d4d4d4\",\"st\":\"normal\"},{\"s\":9,\"e\":13,\"c\":\"#9cdcfe\",\"st\":\"normal\"},{\"s\":13,\"e\":14,\"c\":\"#d4d4d4\",\"st\":\"normal\"},{\"s\":15,\"e\":21,\"c\":\"#4ec9b0\",\"st\":\"normal\"},{\"s\":21,\"e\":22,\"c\":\"#d4d4d4\",\"st\":\"normal\"},{\"s\":23,\"e\":27,\"c\":\"#569cd6\",\"st\":\"normal\"},{\"s\":28,\"e\":29,\"c\":\"#d4d4d4\",\"st\":\"normal\"}]"@,
        "[{\"s\":4,\"e\":8,\"c\":\"#569cd6\",\"st\":\"normal\"},{\"s\":8,\"e\":9,\"c\":\"#d4d4d4\",\"st\":\"normal\"},{\"s\":9,\"e\":15,\"c\":\"#9cdcfe\",\"st\":\"normal\"},{\"s\":15,\"e\":16,\"c\":\"#d4d4d4\",\"st\":\"normal\"},{\"s\":16,\"e\":22,\"c\":\"#dcdcaa\",\"st\":\"normal\"},{\"s\":22,\"e\":23,\"c\":\"#d4d4d4\",\"st\":\"normal\"},{\"s\":23,\"e\":27,\"c\":\"#569cd6\",\"st\":\"normal\"},{\"s\":27,\"e\":28,\"c\":\"#d4d4d4\",\"st\":\"normal\"},{\"s\":28,\"e\":38,\"c\":\"#9cdcfe\",\"st\":\"normal\"},{\"s\":38,\"e\":39,\"c\":\"#d4d4d4\",\"st\":\"normal\"},{\"s\":40,\"e\":44,\"c\":\"#9cdcfe\",\"st\":\"normal\"},{\"s\":44,\"e\":45,\"c\":\"#d4d4d4\",\"st\":\"normal\"},{\"s\":45,\"e\":46,\"c\":\"#d4d4d4\",\"st\":\"normal\"}]"@,
        "[{\"s\":2,\"e\":3,\"c\":\"#d4d4d4\",\"st\":\"normal\"}]"@,
        "[{\"s\":0,\"e\":1,\"c\":\"#d4d4d4\",\"st\":\"normal\"}]"@,
    ]
}

/// The initial lines, each as (text, token JSON).
pub fn initial_content() -> (r: Vec<(String, String)>)
    ensures
        r@.len() == initial_texts().len(),
        forall|i: int|
            0 <= i < r@.len() ==> (#[trigger] r@[i]).0@ == initial_texts()[i] && r@[i].1@
                == initial_tokens_json()[i],
{
    let mut v: Vec<(String, String)> = Vec::new();
    v.push(("import { TextBuffer } from './buffer';".to_owned(), "[{\"s\":0,\"e\":6,\"c\":\"#c586c0\",\"st\":\"normal\"},{\"s\":7,\"e\":8,\"c\":\"#d4d4d4\",\"st\":\"normal\"},{\"s\":9,\"e\":19,\"c\":\"#9cdcfe\",\"st\":\"normal\"},{\"s\":20,\"e\":21,\"c\":\"#d4d4d4\",\"st\":\"normal\"},{\"s\":22,\"e\":26,\"c\":\"#c586c0\",\"st\":\"normal\"},{\"s\":27,\"e\":37,\"c\":\"#ce9178\",\"st\":\"normal\"},{\"s\":37,\"e\":38,\"c\":\"#d4d4d4\",\"st\":\"normal\"}]".to_owned()));
    v.push(("".to_owned(), "[]".to_owned()));
    v.push(("export class Editor {".to_owned(), "[{\"s\":0,\"e\":6,\"c\":\"#569cd6\",\"st\":\"normal\"},{\"s\":7,\"e\":12,\"c\":\"#569cd6\",\"st\":\"normal\"},{\"s\":13,\"e\":19,\"c\":\"#4ec9b0\",\"st\":\"normal\"},{\"s\":20,\"e\":21,\"c\":\"#d4d4d4\",\"st\":\"normal\"}]".to_owned()));
    v.push(("  private buffer: TextBuffer;".to_owned(), "[{\"s\":2,\"e\":9,\"c\":\"#569cd6\",\"st\":\"normal\"},{\"s\":10,\"e\":16,\"c\":\"#9cdcfe\",\"st\":\"normal\"},{\"s\":16,\"e\":17,\"c\":\"#d4d4d4\",\"st\":\"normal\"},{\"s\":18,\"e\":28,\"c\":\"#4ec9b0\",\"st\":\"normal\"},{\"s\":28,\"e\":29,\"c\":\"#d4d4d4\",\"st\":\"normal\"}]".to_owned()));
    v.push(("  private cursorLine: number = 0;".to_owned(), "[{\"s\":2,\"e\":9,\"c\":\"#569cd6\",\"st\":\"normal\"},{\"s\":10,\"e\":20,\"c\":\"#9cdcfe\",\"st\":\"normal\"},{\"s\":20,\"e\":21,\"c\":\"#d4d4d4\",\"st\":\"normal\"},{\"s\":22,\"e\":28,\"c\":\"#4ec9b0\",\"st\":\"normal\"},{\"s\":29,\"e\":30,\"c\":\"#d4d4d4\",\"st\":\"normal\"},{\"s\":31,\"e\":32,\"c\":\"#b5cea8\",\"st\":\"normal\"}]".to_owned()));
    v.push(("".to_owned(), "[]".to_owned()));
    v.push(("  constructor(content: string) {".to_owned(), "[{\"s\":2,\"e\":13,\"c\":\"#569cd6\",\"st\":\"normal\"},{\"s\":13,\"e\":14,\"c\":\"#d4d4d4\",\"st\":\"normal\"},{\"s\":14,\"e\":21,\"c\":\"#9cdcfe\",\"st\":\"normal\"},{\"s\":21,\"e\":22,\"c\":\"#d4d4d4\",\"st\":\"normal\"},{\"s\":23,\"e\":29,\"c\":\"#4ec9b0\",\"st\":\"normal\"},{\"s\":29,\"e\":30,\"c\":\"#d4d4d4\",\"st\":\"normal\"},{\"s\":31,\"e\":32,\"c\":\"#d4d4d4\",\"st\":\"normal\"}]".to_owned()));
    v.push(("    this.buffer = new TextBuffer(content);".to_owned(), "[{\"s\":4,\"e\":8,\"c\":\"#569cd6\",\"st\":\"normal\"},{\"s\":8,\"e\":9,\"c\":\"#d4d4d4\",\"st\":\"normal\"},{\"s\":9,\"e\":15,\"c\":\"#9cdcfe\",\"st\":\"normal\"},{\"s\":16,\"e\":17,\"c\":\"#d4d4d4\",\"st\":\"normal\"},{\"s\":18,\"e\":21,\"c\":\"#569cd6\",\"st\":\"normal\"},{\"s\":22,\"e\":32,\"c\":\"#4ec9b0\",\"st\":\"normal\"},{\"s\":32,\"e\":33,\"c\":\"#d4d4d4\",\"st\":\"normal\"},{\"s\":33,\"e\":40,\"c\":\"#9cdcfe\",\"st\":\"normal\"},{\"s\":40,\"e\":41,\"c\":\"#d4d4d4\",\"st\":\"normal\"},{\"s\":41,\"e\":42,\"c\":\"#d4d4d4\",\"st\":\"normal\"}]".to_owned()));
    v.push(("  }".to_owned(), "[{\"s\":2,\"e\":3,\"c\":\"#d4d4d4\",\"st\":\"normal\"}]".to_owned()));
    v.push(("".to_owned(), "[]".to_owned()));
    v.push(("  // Insert text at the cursor position".to_owned(), "[{\"s\":2,\"e\":40,\"c\":\"#6a9955\",\"st\":\"italic\"}]".to_owned()));
    v.push(("  insert(text: string): void {".to_owned(), "[{\"s\":2,\"e\":8,\"c\":\"#dcdcaa\",\"st\":\"normal\"},{\"s\":8,\"e\":9,\"c\":\"#d4d4d4\",\"st\":\"normal\"},{\"s\":9,\"e\":13,\"c\":\"#9cdcfe\",\"st\":\"normal\"},{\"s\":13,\"e\":14,\"c\":\"#d4d4d4\",\"st\":\"normal\"},{\"s\":15,\"e\":21,\"c\":\"#4ec9b0\",\"st\":\"normal\"},{\"s\":21,\"e\":22,\"c\":\"#d4d4d4\",\"st\":\"normal\"},{\"s\":23,\"e\":27,\"c\":\"#569cd6\",\"st\":\"normal\"},{\"s\":28,\"e\":29,\"c\":\"#d4d4d4\",\"st\":\"normal\"}]".to_owned()));
    v.push(("    this.buffer.insert(this.cursorLine, text);".to_owned(), "[{\"s\":4,\"e\":8,\"c\":\"#569cd6\",\"st\":\"normal\"},{\"s\":8,\"e\":9,\"c\":\"#d4d4d4\",\"st\":\"normal\"},{\"s\":9,\"e\":15,\"c\":\"#9cdcfe\",\"st\":\"normal\"},{\"s\":15,\"e\":16,\"c\":\"#d4d4d4\",\"st\":\"normal\"},{\"s\":16,\"e\":22,\"c\":\"#dcdcaa\",\"st\":\"normal\"},{\"s\":22,\"e\":23,\"c\":\"#d4d4d4\",\"st\":\"normal\"},{\"s\":23,\"e\":27,\"c\":\"#569cd6\",\"st\":\"normal\"},{\"s\":27,\"e\":28,\"c\":\"#d4d4d4\",\"st\":\"normal\"},{\"s\":28,\"e\":38,\"c\":\"#9cdcfe\",\"st\":\"normal\"},{\"s\":38,\"e\":39,\"c\":\"#d4d4d4\",\"st\":\"normal\"},{\"s\":40,\"e\":44,\"c\":\"#9cdcfe\",\"st\":\"normal\"},{\"s\":44,\"e\":45,\"c\":\"#d4d4d4\",\"st\":\"normal\"},{\"s\":45,\"e\":46,\"c\":\"#d4d4d4\",\"st\":\"normal\"}]".to_owned()));
    v.push(("  }".to_owned(), "[{\"s\":2,\"e\":3,\"c\":\"#d4d4d4\",\"st\":\"normal\"}]".to_owned()));
    v.push(("}".to_owned(), "[{\"s\":0,\"e\":1,\"c\":\"#d4d4d4\",\"st\":\"normal\"}]".to_owned()));
    assert(v@.len() == initial_texts().len());
    v
}

/// The original lines of the initial content, with their spans read from
/// the token JSON.
pub fn initial_original_lines() -> (r: Vec<OriginalLine>)
    ensures
        r@.len() == initial_texts().len(),
        forall|i: int|
            0 <= i < r@.len() ==> (#[trigger] r@[i]).text@ == initial_texts()[i] && span_views(
                r@[i].tokens@,
            ) == parsed_spans(encode_utf8(initial_tokens_json()[i])),
{
    let content = initial_content();
    let mut r: Vec<OriginalLine> = Vec::new();
    let mut i: usize = 0;
    while i < content.len()
        invariant
            content@.len() == initial_texts().len(),
            forall|j: int|
                0 <= j < content@.len() ==> (#[trigger] content@[j]).0@ == initial_texts()[j]
                    && content@[j].1@ == initial_tokens_json()[j],
            i <= content@.len(),
            r@.len() == i,
            forall|j: int|
                0 <= j < i ==> (#[trigger] r@[j]).text@ == initial_texts()[j] && span_views(
                    r@[j].tokens@,
                ) == parsed_spans(encode_utf8(initial_tokens_json()[j])),
        decreases content@.len() - i,
    {
        let tokens = parse_tokens_json(content[i].1.as_str());
        r.push(OriginalLine { text: content[i].0.clone(), tokens });
        i = i + 1;
    }
    r
}

/// A buffer holding the initial content, cursor at the start.
pub fn initial_buffer(metrics: Metrics) -> (r: TextBuffer)
    requires
        metrics.valid(),
    ensures
        r.wf(),
        r.spec_metrics() == metrics,
        r@.lines.len() == initial_texts().len(),
        forall|i: int|
            0 <= i < r@.lines.len() ==> #[trigger] r@.lines[i] == encode_utf8(initial_texts()[i]),
        forall|i: int| 0 <= i < r@.lines.len() ==> #[trigger] r@.origins[i] == i,
        r@.line == 0,
        r@.col == 0,
        r@.anchor is None,
        r@.scroll_y == 0,
{
    let lines = initial_original_lines();
    let b = TextBuffer::new(lines, metrics);
    b
}

} // verus!
