//! The three output formats: XML, JSON and plain text.

use crate::config::{Config, OutputFormat};
use crate::error::RepoError;
use crate::files::{FileMap, RepoFile};
use vstd::prelude::*;
use vstd::string::*;

verus! {

// ---------------------------------------------------------------- plain text

/// One file in plain text: a `# path` header line, the content verbatim and a blank line.
pub open spec fn text_entry(path: Seq<char>, content: Seq<char>) -> Seq<char> {
    "# "@ + path + "\n"@ + content + "\n\n"@
}

/// The plain-text document: the entries one after another, in order.
pub open spec fn text_doc(entries: Seq<(Seq<char>, Seq<char>)>) -> Seq<char>
    decreases entries.len(),
{
    if entries.len() == 0 {
        Seq::empty()
    } else {
        text_doc(entries.drop_last()) + text_entry(entries.last().0, entries.last().1)
    }
}

/// Formats the files as plain text, in the map's order.
pub fn format_as_text(files_map: &FileMap) -> (r: Result<String, RepoError>)
    ensures
        r matches Ok(s) && s@ == text_doc(files_map@),
{
    let entries = files_map.entries();
    let mut output = String::new();
    let mut i: usize = 0;
    while i < entries.len()
        invariant
            i <= entries@.len(),
            crate::files::pairs_of(entries@) == files_map@,
            output@ == text_doc(files_map@.subrange(0, i as int)),
        decreases entries.len() - i,
    {
        let f: &RepoFile = &entries[i];
        output.append("# ");
        output.append(f.path.as_str());
        output.append("\n");
        output.append(f.content.as_str());
        output.append("\n\n");
        proof {
            let prefix = files_map@.subrange(0, i + 1);
            assert(prefix.drop_last() =~= files_map@.subrange(0, i as int));
            assert(prefix.last() == (f.path@, f.content@));
            assert(output@ =~= text_doc(prefix));
        }
        i = i + 1;
    }
    proof {
        assert(files_map@.subrange(0, i as int) =~= files_map@);
    }
    Ok(output)
}

// ---------------------------------------------------------------- JSON

/// The lower-case hexadecimal digit of a value below 16.
pub open spec fn hex_digit(n: u32) -> char {
    "0123456789abcdef"@[n as int]
}

/// What `serde_json` writes for one character inside a string literal:
/// quote and backslash are escaped, control characters get a short escape
/// or `\u00XX`, every other character stands as it is.
pub open spec fn json_escape_char(c: char) -> Seq<char> {
    if c == '"' {
        "\\\""@
    } else if c == '\\' {
        "\\\\"@
    } else if c == '\u{8}' {
        "\\b"@
    } else if c == '\t' {
        "\\t"@
    } else if c == '\n' {
        "\\n"@
    } else if c == '\u{c}' {
        "\\f"@
    } else if c == '\r' {
        "\\r"@
    } else if (c as u32) < 0x20 {
        "\\u00"@ + seq![hex_digit((c as u32) / 16), hex_digit((c as u32) % 16)]
    } else {
        seq![c]
    }
}

/// The characters of a text escaped for a JSON string literal.
pub open spec fn json_escaped(s: Seq<char>) -> Seq<char>
    decreases s.len(),
{
    if s.len() == 0 {
        Seq::empty()
    } else {
        json_escaped(s.drop_last()) + json_escape_char(s.last())
    }
}

/// The JSON string literal for a text, quotes included.
pub open spec fn json_string_of(s: Seq<char>) -> Seq<char> {
    "\""@ + json_escaped(s) + "\""@
}

/// Relies on `serde_json::to_string` on a `str`: the text as a JSON string
/// literal. It writes into a `Vec`, which does not fail, so it returns `Ok`.
#[verifier::external_body]
fn json_quoted(s: &str) -> (r: Result<String, serde_json::Error>)
    ensures
        r is Ok,
        r matches Ok(q) ==> q@ == json_string_of(s@),
{
    serde_json::to_string(s)
}

/// The outside error of `serde_json`.
#[verifier::external_type_specification]
#[verifier::external_body]
pub struct ExJsonError(serde_json::Error);

/// One file object, from its quoted path and content.
pub open spec fn json_item(path: Seq<char>, content: Seq<char>, pretty: bool) -> Seq<char> {
    if pretty {
        "    {\n      \"path\": "@ + path + ",\n      \"content\": "@ + content + "\n    }"@
    } else {
        "{\"path\":"@ + path + ",\"content\":"@ + content + "}"@
    }
}

/// The separator between file objects.
pub open spec fn json_sep(pretty: bool) -> Seq<char> {
    if pretty {
        ",\n"@
    } else {
        ","@
    }
}

/// The file objects of the `files` array, joined by separators.
pub open spec fn json_items(quoted: Seq<(Seq<char>, Seq<char>)>, pretty: bool) -> Seq<char>
    decreases quoted.len(),
{
    if quoted.len() == 0 {
        Seq::empty()
    } else if quoted.len() == 1 {
        json_item(quoted[0].0, quoted[0].1, pretty)
    } else {
        json_items(quoted.drop_last(), pretty) + json_sep(pretty) + json_item(
            quoted.last().0,
            quoted.last().1,
            pretty,
        )
    }
}

/// The JSON document `{"files": [...]}` over already quoted paths and contents;
/// the pretty form puts each field on a line of its own, indented by two spaces a level.
pub open spec fn json_doc(quoted: Seq<(Seq<char>, Seq<char>)>, pretty: bool) -> Seq<char> {
    if !pretty {
        "{\"files\":["@ + json_items(quoted, false) + "]}"@
    } else if quoted.len() == 0 {
        "{\n  \"files\": []\n}"@
    } else {
        "{\n  \"files\": [\n"@ + json_items(quoted, true) + "\n  ]\n}"@
    }
}

/// The entries with path and content each written as a JSON string literal.
pub open spec fn json_quoted_entries(entries: Seq<(Seq<char>, Seq<char>)>) -> Seq<
    (Seq<char>, Seq<char>),
> {
    entries.map_values(|e: (Seq<char>, Seq<char>)| (json_string_of(e.0), json_string_of(e.1)))
}

/// The views of a list of string pairs.
pub open spec fn string_pairs(v: Seq<(String, String)>) -> Seq<(Seq<char>, Seq<char>)> {
    v.map_values(|p: (String, String)| (p.0@, p.1@))
}

/// Frames already quoted paths and contents as the JSON document
/// `{"files": [{"path": .., "content": ..}, ..]}`, pretty or compact.
pub fn json_document(quoted: &Vec<(String, String)>, pretty: bool) -> (r: String)
    ensures
        r@ == json_doc(string_pairs(quoted@), pretty),
{
    let ghost q = string_pairs(quoted@);
    let mut items = String::new();
    let mut i: usize = 0;
    while i < quoted.len()
        invariant
            i <= quoted@.len(),
            q == string_pairs(quoted@),
            items@ == json_items(q.subrange(0, i as int), pretty),
        decreases quoted.len() - i,
    {
        let (qp, qc) = &quoted[i];
        if i > 0 {
            if pretty {
                items.append(",\n");
            } else {
                items.append(",");
            }
        }
        if pretty {
            items.append("    {\n      \"path\": ");
            items.append(qp.as_str());
            items.append(",\n      \"content\": ");
            items.append(qc.as_str());
            items.append("\n    }");
        } else {
            items.append("{\"path\":");
            items.append(qp.as_str());
            items.append(",\"content\":");
            items.append(qc.as_str());
            items.append("}");
        }
        proof {
            let prefix = q.subrange(0, i + 1);
            assert(prefix.drop_last() =~= q.subrange(0, i as int));
            assert(prefix.last() == (qp@, qc@));
            if i == 0 {
                assert(prefix.len() == 1);
            }
            assert(items@ =~= json_items(prefix, pretty));
        }
        i = i + 1;
    }
    proof {
        assert(q.subrange(0, i as int) =~= q);
    }
    let mut output = String::new();
    if !pretty {
        output.append("{\"files\":[");
        output.append(items.as_str());
        output.append("]}");
    } else if quoted.len() == 0 {
        output.append("{\n  \"files\": []\n}");
    } else {
        output.append("{\n  \"files\": [\n");
        output.append(items.as_str());
        output.append("\n  ]\n}");
    }
    proof {
        assert(output@ =~= json_doc(q, pretty));
    }
    output
}

/// Formats the files as a JSON object holding a `files` array of
/// `{"path", "content"}` objects, in the map's order; pretty or compact.
/// Paths and contents are written as JSON strings by `serde_json`, and the
/// document is framed by [`json_document`].
pub fn format_as_json(files_map: &FileMap, pretty: bool) -> (r: Result<String, RepoError>)
    ensures
        r matches Ok(s) && s@ == json_doc(json_quoted_entries(files_map@), pretty),
{
    let entries = files_map.entries();
    let ghost target = json_quoted_entries(files_map@);
    let mut quoted: Vec<(String, String)> = Vec::new();
    let mut i: usize = 0;
    while i < entries.len()
        invariant
            i <= entries@.len(),
            crate::files::pairs_of(entries@) == files_map@,
            target == json_quoted_entries(files_map@),
            quoted@.len() == i,
            string_pairs(quoted@) == target.subrange(0, i as int),
        decreases entries.len() - i,
    {
        let f: &RepoFile = &entries[i];
        assert(files_map@[i as int] == (f.path@, f.content@));
        let qp = match json_quoted(f.path.as_str()) {
            Ok(q) => q,
            Err(_) => {
                return Err(RepoError::Serialization(f.path.clone()));
            },
        };
        let qc = match json_quoted(f.content.as_str()) {
            Ok(q) => q,
            Err(_) => {
                return Err(RepoError::Serialization(f.path.clone()));
            },
        };
        let ghost before = quoted@;
        let ghost pair = (qp@, qc@);
        quoted.push((qp, qc));
        proof {
            assert(quoted@ == before.push((qp, qc)));
            assert(pair == target[i as int]);
            assert(string_pairs(quoted@)[i as int] == pair);
            assert(string_pairs(quoted@) =~= target.subrange(0, i + 1));
        }
        i = i + 1;
    }
    proof {
        assert(target.subrange(0, i as int) =~= target);
    }
    Ok(json_document(&quoted, pretty))
}

/// A pretty JSON document is strictly longer than the compact one over the
/// same files: the pretty form only adds whitespace.
pub proof fn lemma_pretty_json_longer(quoted: Seq<(Seq<char>, Seq<char>)>)
    ensures
        json_doc(quoted, true).len() > json_doc(quoted, false).len(),
{
    lemma_pretty_items_longer(quoted);
    reveal_strlit("{\"files\":[");
    reveal_strlit("]}");
    reveal_strlit("{\n  \"files\": []\n}");
    reveal_strlit("{\n  \"files\": [\n");
    reveal_strlit("\n  ]\n}");
}

/// A text without line breaks.
pub open spec fn single_line(s: Seq<char>) -> bool {
    forall|i: int| 0 <= i < s.len() ==> s[i] != '\n'
}

proof fn lemma_single_line_concat(a: Seq<char>, b: Seq<char>)
    requires
        single_line(a),
        single_line(b),
    ensures
        single_line(a + b),
{
    assert forall|i: int| 0 <= i < (a + b).len() implies (a + b)[i] != '\n' by {
        if i < a.len() {
            assert((a + b)[i] == a[i]);
        } else {
            assert((a + b)[i] == b[i - a.len()]);
        }
    }
}

proof fn lemma_escape_char_single_line(c: char)
    ensures
        single_line(json_escape_char(c)),
{
    reveal_strlit("\\\"");
    reveal_strlit("\\\\");
    reveal_strlit("\\b");
    reveal_strlit("\\t");
    reveal_strlit("\\n");
    reveal_strlit("\\f");
    reveal_strlit("\\r");
    reveal_strlit("\\u00");
    reveal_strlit("0123456789abcdef");
    if c != '"' && c != '\\' && c != '\u{8}' && c != '\t' && c != '\n' && c != '\u{c}' && c
        != '\r' && (c as u32) < 0x20 {
        let hi = hex_digit((c as u32) / 16);
        let lo = hex_digit((c as u32) % 16);
        assert(hi != '\n');
        assert(lo != '\n');
        lemma_single_line_concat("\\u00"@, seq![hi, lo]);
    }
}

proof fn lemma_escaped_single_line(s: Seq<char>)
    ensures
        single_line(json_escaped(s)),
    decreases s.len(),
{
    if s.len() > 0 {
        lemma_escaped_single_line(s.drop_last());
        lemma_escape_char_single_line(s.last());
        lemma_single_line_concat(json_escaped(s.drop_last()), json_escape_char(s.last()));
    }
}

proof fn lemma_string_single_line(s: Seq<char>)
    ensures
        single_line(json_string_of(s)),
{
    reveal_strlit("\"");
    lemma_escaped_single_line(s);
    lemma_single_line_concat("\""@, json_escaped(s));
    lemma_single_line_concat("\""@ + json_escaped(s), "\""@);
}

proof fn lemma_compact_items_single_line(entries: Seq<(Seq<char>, Seq<char>)>)
    ensures
        single_line(json_items(json_quoted_entries(entries), false)),
    decreases entries.len(),
{
    let q = json_quoted_entries(entries);
    reveal_strlit("{\"path\":");
    reveal_strlit(",\"content\":");
    reveal_strlit("}");
    reveal_strlit(",");
    if entries.len() > 0 {
        let last = q.last();
        lemma_string_single_line(entries.last().0);
        lemma_string_single_line(entries.last().1);
        assert(last == (json_string_of(entries.last().0), json_string_of(entries.last().1)));
        lemma_single_line_concat("{\"path\":"@, last.0);
        lemma_single_line_concat("{\"path\":"@ + last.0, ",\"content\":"@);
        lemma_single_line_concat("{\"path\":"@ + last.0 + ",\"content\":"@, last.1);
        lemma_single_line_concat("{\"path\":"@ + last.0 + ",\"content\":"@ + last.1, "}"@);
        if entries.len() > 1 {
            lemma_compact_items_single_line(entries.drop_last());
            assert(q.drop_last() =~= json_quoted_entries(entries.drop_last()));
            lemma_single_line_concat(json_items(q.drop_last(), false), ","@);
            lemma_single_line_concat(
                json_items(q.drop_last(), false) + ","@,
                json_item(last.0, last.1, false),
            );
        } else {
            assert(q[0] == last);
        }
    }
}

/// Compact JSON is a single line, line breaks inside texts being escaped;
/// pretty JSON spans several lines.
pub proof fn lemma_compact_json_single_line(entries: Seq<(Seq<char>, Seq<char>)>)
    ensures
        single_line(json_doc(json_quoted_entries(entries), false)),
        !single_line(json_doc(json_quoted_entries(entries), true)),
{
    let q = json_quoted_entries(entries);
    reveal_strlit("{\"files\":[");
    reveal_strlit("]}");
    reveal_strlit("{\n  \"files\": []\n}");
    reveal_strlit("{\n  \"files\": [\n");
    lemma_compact_items_single_line(entries);
    lemma_single_line_concat("{\"files\":["@, json_items(q, false));
    lemma_single_line_concat("{\"files\":["@ + json_items(q, false), "]}"@);
    let p = json_doc(q, true);
    assert(p[1] == '\n');
}

proof fn lemma_pretty_items_longer(quoted: Seq<(Seq<char>, Seq<char>)>)
    ensures
        json_items(quoted, true).len() >= json_items(quoted, false).len(),
    decreases quoted.len(),
{
    reveal_strlit("    {\n      \"path\": ");
    reveal_strlit(",\n      \"content\": ");
    reveal_strlit("\n    }");
    reveal_strlit("{\"path\":");
    reveal_strlit(",\"content\":");
    reveal_strlit("}");
    reveal_strlit(",\n");
    reveal_strlit(",");
    if quoted.len() > 1 {
        lemma_pretty_items_longer(quoted.drop_last());
    }
}

// ---------------------------------------------------------------- XML

/// What `quick_xml::escape::partial_escape` writes for one character.
pub open spec fn xml_escape_char(c: char) -> Seq<char> {
    if c == '<' {
        "&lt;"@
    } else if c == '>' {
        "&gt;"@
    } else if c == '&' {
        "&amp;"@
    } else if c == '\r' {
        "&#13;"@
    } else {
        seq![c]
    }
}

/// A text with the characters that XML text content cannot hold as they
/// are replaced by their entities.
pub open spec fn xml_escaped(s: Seq<char>) -> Seq<char>
    decreases s.len(),
{
    if s.len() == 0 {
        Seq::empty()
    } else {
        xml_escaped(s.drop_last()) + xml_escape_char(s.last())
    }
}

/// Relies on `quick_xml::escape::partial_escape`: replaces `<`, `>`, `&` and
/// carriage return by their entities, leaving every other character.
#[verifier::external_body]
fn xml_escape(s: &str) -> (r: String)
    ensures
        r@ == xml_escaped(s@),
{
    quick_xml::escape::partial_escape(s).into_owned()
}

/// One `<files>` element with its `<path>` and `<content>` children, from
/// escaped texts; the pretty form puts each element on a line of its own.
pub open spec fn xml_item(path: Seq<char>, content: Seq<char>, pretty: bool) -> Seq<char> {
    if pretty {
        "  <files>\n    <path>"@ + path + "</path>\n    <content>"@ + content
            + "</content>\n  </files>\n"@
    } else {
        "<files><path>"@ + path + "</path><content>"@ + content + "</content></files>"@
    }
}

/// The `<files>` elements of the entries, in order.
pub open spec fn xml_items(entries: Seq<(Seq<char>, Seq<char>)>, pretty: bool) -> Seq<char>
    decreases entries.len(),
{
    if entries.len() == 0 {
        Seq::empty()
    } else {
        xml_items(entries.drop_last(), pretty) + xml_item(
            xml_escaped(entries.last().0),
            xml_escaped(entries.last().1),
            pretty,
        )
    }
}

/// The XML document: a `Repository` root element around the file elements.
pub open spec fn xml_doc(entries: Seq<(Seq<char>, Seq<char>)>, pretty: bool) -> Seq<char> {
    if pretty {
        "<Repository>\n"@ + xml_items(entries, true) + "</Repository>"@
    } else {
        "<Repository>"@ + xml_items(entries, false) + "</Repository>"@
    }
}

/// Formats the files as XML, in the map's order; pretty output indents each
/// element by two spaces a level.
pub fn format_as_xml(files_map: &FileMap, pretty: bool) -> (r: Result<String, RepoError>)
    ensures
        r matches Ok(s) && s@ == xml_doc(files_map@, pretty),
{
    let entries = files_map.entries();
    let mut output = String::new();
    if pretty {
        output.append("<Repository>\n");
    } else {
        output.append("<Repository>");
    }
    let ghost head = output@;
    let mut i: usize = 0;
    while i < entries.len()
        invariant
            i <= entries@.len(),
            crate::files::pairs_of(entries@) == files_map@,
            output@ == head + xml_items(files_map@.subrange(0, i as int), pretty),
        decreases entries.len() - i,
    {
        let f: &RepoFile = &entries[i];
        let path = xml_escape(f.path.as_str());
        let content = xml_escape(f.content.as_str());
        if pretty {
            output.append("  <files>\n    <path>");
            output.append(path.as_str());
            output.append("</path>\n    <content>");
            output.append(content.as_str());
            output.append("</content>\n  </files>\n");
        } else {
            output.append("<files><path>");
            output.append(path.as_str());
            output.append("</path><content>");
            output.append(content.as_str());
            output.append("</content></files>");
        }
        proof {
            let prefix = files_map@.subrange(0, i + 1);
            assert(prefix.drop_last() =~= files_map@.subrange(0, i as int));
            assert(prefix.last() == (f.path@, f.content@));
            assert(output@ =~= head + xml_items(prefix, pretty));
        }
        i = i + 1;
    }
    proof {
        assert(files_map@.subrange(0, i as int) =~= files_map@);
    }
    output.append("</Repository>");
    proof {
        assert(output@ =~= xml_doc(files_map@, pretty));
    }
    Ok(output)
}

// ---------------------------------------------------------------- dispatch

/// Formats the files in the configured format, with the configured pretty flag.
pub fn generate_output(files_map: &FileMap, config: &Config) -> (r: Result<String, RepoError>)
    ensures
        config.format == OutputFormat::Xml ==> (r matches Ok(s) && s@ == xml_doc(
            files_map@,
            config.pretty_print,
        )),
        config.format == OutputFormat::Json ==> (r matches Ok(s) && s@ == json_doc(
            json_quoted_entries(files_map@),
            config.pretty_print,
        )),
        config.format == OutputFormat::Text ==> (r matches Ok(s) && s@ == text_doc(files_map@)),
{
    match config.format {
        OutputFormat::Xml => format_as_xml(files_map, config.pretty_print),
        OutputFormat::Json => format_as_json(files_map, config.pretty_print),
        OutputFormat::Text => format_as_text(files_map),
    }
}

} // verus!
