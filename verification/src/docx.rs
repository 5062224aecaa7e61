//! The Word (DOCX) export: the WordprocessingML document built from the
//! cleaned text.

use vstd::prelude::*;

verus! {

/// How one character is written inside XML character data.
pub open spec fn escape_char(c: char) -> Seq<char> {
    if c == '&' {
        "&amp;"@
    } else if c == '<' {
        "&lt;"@
    } else if c == '>' {
        "&gt;"@
    } else if c == '"' {
        "&quot;"@
    } else if c == '\'' {
        "&apos;"@
    } else {
        seq![c]
    }
}

/// `s` with the five XML special characters written as entities.
pub open spec fn escaped(s: Seq<char>) -> Seq<char>
    decreases s.len(),
{
    if s.len() == 0 {
        Seq::empty()
    } else {
        escaped(s.drop_last()) + escape_char(s.last())
    }
}

/// Escapes `&`, `<`, `>`, `"` and `'` for use in XML text.
pub fn escape_xml(text: &str) -> (r: String)
    ensures
        r@ == escaped(text@),
{
    let mut escaped_text = String::new();
    for character in it: text.chars()
        invariant
            it.seq() == text@,
            escaped_text@ == escaped(it.seq().take(it.index() as int)),
    {
        proof {
            let next = it.seq().take(it.index() + 1);
            assert(next.drop_last() == it.seq().take(it.index() as int));
        }
        if character == '&' {
            escaped_text.append("&amp;");
        } else if character == '<' {
            escaped_text.append("&lt;");
        } else if character == '>' {
            escaped_text.append("&gt;");
        } else if character == '"' {
            escaped_text.append("&quot;");
        } else if character == '\'' {
            escaped_text.append("&apos;");
        } else {
            escaped_text.push(character);
        }
    }
    proof {
        assert(text@.take(text@.len() as int) == text@);
    }
    escaped_text
}

/// `c` is one of the characters that XML text may not hold as they are.
pub open spec fn is_markup_char(c: char) -> bool {
    c == '<' || c == '>' || c == '"' || c == '\''
}

/// Escaped text holds no `<`, `>`, `"` or `'`.
pub proof fn law_escaped_text_has_no_markup(s: Seq<char>)
    ensures
        forall|i: int| 0 <= i < escaped(s).len() ==> !is_markup_char(#[trigger] escaped(s)[i]),
    decreases s.len(),
{
    reveal_strlit("&amp;");
    reveal_strlit("&lt;");
    reveal_strlit("&gt;");
    reveal_strlit("&quot;");
    reveal_strlit("&apos;");
    if s.len() > 0 {
        law_escaped_text_has_no_markup(s.drop_last());
        let prev = escaped(s.drop_last());
        let last = escape_char(s.last());
        assert forall|i: int| 0 <= i < last.len() implies !is_markup_char(#[trigger] last[i]) by {
            if s.last() == '&' {
                assert(last == seq!['&', 'a', 'm', 'p', ';']);
            } else if s.last() == '<' {
                assert(last == seq!['&', 'l', 't', ';']);
            } else if s.last() == '>' {
                assert(last == seq!['&', 'g', 't', ';']);
            } else if s.last() == '"' {
                assert(last == seq!['&', 'q', 'u', 'o', 't', ';']);
            } else if s.last() == '\'' {
                assert(last == seq!['&', 'a', 'p', 'o', 's', ';']);
            }
        }
        assert forall|i: int| 0 <= i < escaped(s).len() implies !is_markup_char(
            #[trigger] escaped(s)[i],
        ) by {
            if i < prev.len() {
                assert(escaped(s)[i] == prev[i]);
            } else {
                assert(escaped(s)[i] == last[i - prev.len()]);
            }
        }
    }
}

/// Text read back from XML character data: the five entities are turned
/// back into their characters, from left to right.
pub open spec fn unescaped(t: Seq<char>) -> Seq<char>
    decreases t.len(),
{
    if t.len() == 0 {
        Seq::empty()
    } else if t.len() >= 5 && t.take(5) == seq!['&', 'a', 'm', 'p', ';'] {
        seq!['&'] + unescaped(t.skip(5))
    } else if t.len() >= 4 && t.take(4) == seq!['&', 'l', 't', ';'] {
        seq!['<'] + unescaped(t.skip(4))
    } else if t.len() >= 4 && t.take(4) == seq!['&', 'g', 't', ';'] {
        seq!['>'] + unescaped(t.skip(4))
    } else if t.len() >= 6 && t.take(6) == seq!['&', 'q', 'u', 'o', 't', ';'] {
        seq!['"'] + unescaped(t.skip(6))
    } else if t.len() >= 6 && t.take(6) == seq!['&', 'a', 'p', 'o', 's', ';'] {
        seq!['\''] + unescaped(t.skip(6))
    } else {
        seq![t[0]] + unescaped(t.skip(1))
    }
}

/// Escaping a text front to back: the first character's escape comes first.
proof fn lemma_escaped_front(s: Seq<char>)
    requires
        s.len() > 0,
    ensures
        escaped(s) == escape_char(s[0]) + escaped(s.skip(1)),
    decreases s.len(),
{
    if s.len() == 1 {
        assert(s.drop_last() =~= Seq::<char>::empty());
        assert(s.skip(1) =~= Seq::<char>::empty());
        assert(escaped(s.skip(1)) == Seq::<char>::empty());
        assert(escape_char(s[0]) + Seq::<char>::empty() =~= escape_char(s[0]));
    } else {
        lemma_escaped_front(s.drop_last());
        assert(s.drop_last().skip(1) =~= s.skip(1).drop_last());
        assert(s.skip(1).last() == s.last());
        assert(s.drop_last()[0] == s[0]);
        assert(escaped(s.skip(1)) == escaped(s.skip(1).drop_last()) + escape_char(s.last()));
        assert(escape_char(s[0]) + escaped(s.skip(1)) =~= escape_char(s[0]) + escaped(
            s.drop_last().skip(1),
        ) + escape_char(s.last()));
    }
}

/// Reading escaped text back gives the text that was escaped.
pub proof fn law_unescaping_undoes_escaping(s: Seq<char>)
    ensures
        unescaped(escaped(s)) == s,
    decreases s.len(),
{
    reveal_strlit("&amp;");
    reveal_strlit("&lt;");
    reveal_strlit("&gt;");
    reveal_strlit("&quot;");
    reveal_strlit("&apos;");
    if s.len() > 0 {
        lemma_escaped_front(s);
        law_unescaping_undoes_escaping(s.skip(1));
        let c = s[0];
        let e = escape_char(c);
        let rest = escaped(s.skip(1));
        let t = e + rest;
        assert(t.skip(e.len() as int) =~= rest);
        assert(t.take(e.len() as int) =~= e);
        if c == '&' {
            assert(e == seq!['&', 'a', 'm', 'p', ';']);
        } else if c == '<' {
            assert(e == seq!['&', 'l', 't', ';']);
            assert(t[1] == 'l');
        } else if c == '>' {
            assert(e == seq!['&', 'g', 't', ';']);
            assert(t[1] == 'g');
        } else if c == '"' {
            assert(e == seq!['&', 'q', 'u', 'o', 't', ';']);
            assert(t[1] == 'q');
        } else if c == '\'' {
            assert(e == seq!['&', 'a', 'p', 'o', 's', ';']);
            assert(t[2] == 'p');
        } else {
            assert(e == seq![c]);
            assert(t[0] == c);
        }
        assert(s =~= seq![c] + s.skip(1));
    }
}

/// The pieces of `s` between the occurrences of `sep`; always at least one.
pub open spec fn split_on(s: Seq<char>, sep: char) -> Seq<Seq<char>>
    decreases s.len(),
{
    if s.len() == 0 {
        seq![Seq::empty()]
    } else {
        let pieces = split_on(s.drop_last(), sep);
        if s.last() == sep {
            pieces.push(Seq::empty())
        } else {
            pieces.update(pieces.len() - 1, pieces.last().push(s.last()))
        }
    }
}

/// A text element for a run of characters without tabs; nothing when the
/// run is empty.
pub open spec fn text_element(chunk: Seq<char>) -> Seq<char> {
    if chunk.len() == 0 {
        Seq::empty()
    } else {
        "<w:t xml:space=\"preserve\">"@ + escaped(chunk) + "</w:t>"@
    }
}

/// The contents of a run: the text elements of the pieces between tabs, with
/// a tab element for each tab.
pub open spec fn run_contents(pieces: Seq<Seq<char>>) -> Seq<char>
    decreases pieces.len(),
{
    if pieces.len() == 0 {
        Seq::empty()
    } else if pieces.len() == 1 {
        text_element(pieces[0])
    } else {
        run_contents(pieces.drop_last()) + "<w:tab/>"@ + text_element(pieces.last())
    }
}

/// The contents of a run for a line of text.
pub open spec fn text_run(line: Seq<char>) -> Seq<char> {
    run_contents(split_on(line, '\t'))
}

/// Appends the text element for `text`, which holds no tab.
pub fn append_text_chunk(xml: &mut String, text: &str)
    ensures
        final(xml)@ == old(xml)@ + text_element(text@),
{
    if text.unicode_len() == 0 {
        return;
    }
    xml.append("<w:t xml:space=\"preserve\">");
    let escaped_text = escape_xml(text);
    xml.append(escaped_text.as_str());
    xml.append("</w:t>");
}

/// What the run writer has emitted for the pieces seen so far: all but the
/// last piece, each followed by its tab.
spec fn emitted_pieces(pieces: Seq<Seq<char>>) -> Seq<char> {
    if pieces.len() <= 1 {
        Seq::empty()
    } else {
        run_contents(pieces.drop_last()) + "<w:tab/>"@
    }
}

/// Appends the contents of a run for `text`: text elements, with a tab
/// element for each tab.
pub fn append_docx_text_run(xml: &mut String, text: &str)
    ensures
        final(xml)@ == old(xml)@ + text_run(text@),
{
    let mut chunk = String::new();
    for character in it: text.chars()
        invariant
            it.seq() == text@,
            split_on(it.seq().take(it.index() as int), '\t').len() >= 1,
            xml@ == old(xml)@ + emitted_pieces(split_on(it.seq().take(it.index() as int), '\t')),
            chunk@ == split_on(it.seq().take(it.index() as int), '\t').last(),
    {
        let ghost prefix = it.seq().take(it.index() as int);
        let ghost next = it.seq().take(it.index() + 1);
        let ghost pieces = split_on(prefix, '\t');
        proof {
            assert(next.drop_last() == prefix);
            assert(next.last() == character);
        }
        if character == '\t' {
            append_text_chunk(xml, chunk.as_str());
            chunk = String::new();
            xml.append("<w:tab/>");
            proof {
                let np = split_on(next, '\t');
                assert(np == pieces.push(Seq::empty()));
                assert(np.drop_last() == pieces);
                if pieces.len() == 1 {
                    assert(emitted_pieces(pieces) == Seq::<char>::empty());
                    assert(run_contents(pieces) == text_element(pieces.last()));
                }
                assert(run_contents(pieces) == emitted_pieces(pieces) + text_element(
                    pieces.last(),
                ));
            }
        } else {
            chunk.push(character);
            proof {
                let np = split_on(next, '\t');
                assert(np == pieces.update(pieces.len() - 1, pieces.last().push(character)));
                assert(np.drop_last() =~= pieces.drop_last());
            }
        }
    }
    append_text_chunk(xml, chunk.as_str());
    proof {
        let pieces = split_on(text@, '\t');
        assert(text@.take(text@.len() as int) == text@);
        if pieces.len() == 1 {
            assert(run_contents(pieces) == text_element(pieces.last()));
        }
        assert(run_contents(pieces) == emitted_pieces(pieces) + text_element(pieces.last()));
    }
}

/// `s` with every CR LF pair and every other CR turned into an LF.
pub open spec fn normalize_newlines(s: Seq<char>) -> Seq<char>
    decreases s.len(),
{
    if s.len() == 0 {
        Seq::empty()
    } else if s.len() >= 2 && s.last() == '\n' && s[s.len() - 2] == '\r' {
        normalize_newlines(s.take(s.len() - 2)).push('\n')
    } else if s.last() == '\r' {
        normalize_newlines(s.drop_last()).push('\n')
    } else {
        normalize_newlines(s.drop_last()).push(s.last())
    }
}

/// Turns CR LF and lone CR line ends into LF.
pub fn normalize_line_endings(text: &str) -> (r: String)
    ensures
        r@ == normalize_newlines(text@),
{
    let mut out = String::new();
    let mut pending_cr = false;
    for character in it: text.chars()
        invariant
            it.seq() == text@,
            pending_cr ==> it.index() > 0 && it.seq()[it.index() - 1] == '\r',
            !pending_cr ==> it.index() == 0 || it.seq()[it.index() - 1] != '\r',
            pending_cr ==> out@ == normalize_newlines(it.seq().take(it.index() - 1)),
            !pending_cr ==> out@ == normalize_newlines(it.seq().take(it.index() as int)),
    {
        let ghost prefix = it.seq().take(it.index() as int);
        let ghost next = it.seq().take(it.index() + 1);
        proof {
            assert(next.drop_last() == prefix);
            assert(next.last() == character);
            if it.index() > 0 {
                assert(next[next.len() - 2] == it.seq()[it.index() - 1]);
            }
            if pending_cr {
                assert(prefix.drop_last() == it.seq().take(it.index() - 1));
                assert(prefix.last() == '\r');
            }
        }
        if pending_cr {
            out.push('\n');
            pending_cr = false;
            proof {
                assert(normalize_newlines(prefix) == normalize_newlines(prefix.drop_last()).push('\n'));
            }
            if character == '\n' {
                proof {
                    assert(next.take(next.len() - 2) == prefix.drop_last());
                    assert(normalize_newlines(next) == normalize_newlines(prefix.drop_last()).push('\n'));
                }
            } else if character == '\r' {
                pending_cr = true;
            } else {
                out.push(character);
                proof {
                    assert(normalize_newlines(next) == normalize_newlines(prefix).push(character));
                }
            }
        } else if character == '\r' {
            pending_cr = true;
        } else {
            out.push(character);
            proof {
                assert(normalize_newlines(next) == normalize_newlines(prefix).push(character));
            }
        }
    }
    proof {
        assert(text@.take(text@.len() as int) == text@);
    }
    if pending_cr {
        out.push('\n');
        proof {
            assert(text@.drop_last() == text@.take(text@.len() - 1));
        }
    }
    out
}

/// The paragraph for one line: an empty paragraph for an empty line.
pub open spec fn paragraph(line: Seq<char>) -> Seq<char> {
    "\n    <w:p>"@ + (if line.len() == 0 {
        Seq::empty()
    } else {
        "<w:r>"@ + text_run(line) + "</w:r>"@
    }) + "</w:p>"@
}

/// The paragraphs for a sequence of lines.
pub open spec fn paragraphs(lines: Seq<Seq<char>>) -> Seq<char>
    decreases lines.len(),
{
    if lines.len() == 0 {
        Seq::empty()
    } else {
        paragraphs(lines.drop_last()) + paragraph(lines.last())
    }
}

/// The start of the document, up to the body's first paragraph.
pub open spec fn document_start() -> Seq<char> {
    "<?xml version=\"1.0\" encoding=\"UTF-8\" standalone=\"yes\"?>\n<w:document xmlns:w=\"http://schemas.openxmlformats.org/wordprocessingml/2006/main\">\n  <w:body>"@
}

/// The end of the document: a Letter page with one-inch margins.
pub open spec fn document_end() -> Seq<char> {
    "\n    <w:sectPr>\n      <w:pgSz w:w=\"12240\" w:h=\"15840\"/>\n      <w:pgMar w:top=\"1440\" w:right=\"1440\" w:bottom=\"1440\" w:left=\"1440\" w:header=\"720\" w:footer=\"720\" w:gutter=\"0\"/>\n    </w:sectPr>\n  </w:body>\n</w:document>"@
}

/// The WordprocessingML document for `text`: one paragraph per line.
pub open spec fn document_xml(text: Seq<char>) -> Seq<char> {
    document_start() + paragraphs(split_on(normalize_newlines(text), '\n')) + document_end()
}

/// Appends the paragraph for `line`.
fn append_paragraph(xml: &mut String, line: &str)
    ensures
        final(xml)@ == old(xml)@ + paragraph(line@),
{
    xml.append("\n    <w:p>");
    if line.unicode_len() != 0 {
        xml.append("<w:r>");
        append_docx_text_run(xml, line);
        xml.append("</w:r>");
    }
    xml.append("</w:p>");
}

/// Builds the WordprocessingML document (`word/document.xml`) for `text`:
/// line ends are normalized and each line becomes a paragraph.
pub fn build_document_xml(text: &str) -> (r: String)
    ensures
        r@ == document_xml(text@),
{
    let normalized = normalize_line_endings(text);
    let mut xml = String::new();
    xml.append(
        "<?xml version=\"1.0\" encoding=\"UTF-8\" standalone=\"yes\"?>\n<w:document xmlns:w=\"http://schemas.openxmlformats.org/wordprocessingml/2006/main\">\n  <w:body>",
    );
    let mut line = String::new();
    for character in it: normalized.as_str().chars()
        invariant
            it.seq() == normalized@,
            split_on(it.seq().take(it.index() as int), '\n').len() >= 1,
            xml@ == document_start() + paragraphs(
                split_on(it.seq().take(it.index() as int), '\n').drop_last(),
            ),
            line@ == split_on(it.seq().take(it.index() as int), '\n').last(),
    {
        let ghost prefix = it.seq().take(it.index() as int);
        let ghost next = it.seq().take(it.index() + 1);
        let ghost lines = split_on(prefix, '\n');
        proof {
            assert(next.drop_last() == prefix);
            assert(next.last() == character);
        }
        if character == '\n' {
            append_paragraph(&mut xml, line.as_str());
            line = String::new();
            proof {
                let nl = split_on(next, '\n');
                assert(nl == lines.push(Seq::empty()));
                assert(nl.drop_last() == lines);
                assert(lines == lines.drop_last().push(lines.last()));
            }
        } else {
            line.push(character);
            proof {
                let nl = split_on(next, '\n');
                assert(nl == lines.update(lines.len() - 1, lines.last().push(character)));
                assert(nl.drop_last() =~= lines.drop_last());
            }
        }
    }
    append_paragraph(&mut xml, line.as_str());
    xml.append(
        "\n    <w:sectPr>\n      <w:pgSz w:w=\"12240\" w:h=\"15840\"/>\n      <w:pgMar w:top=\"1440\" w:right=\"1440\" w:bottom=\"1440\" w:left=\"1440\" w:header=\"720\" w:footer=\"720\" w:gutter=\"0\"/>\n    </w:sectPr>\n  </w:body>\n</w:document>",
    );
    proof {
        let lines = split_on(normalized@, '\n');
        assert(normalized@.take(normalized@.len() as int) == normalized@);
        assert(lines == lines.drop_last().push(lines.last()));
    }
    xml
}

} // verus!
