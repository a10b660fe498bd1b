//! Emission of a document as a directed-graph description in the DOT language.
use vstd::prelude::*;

use crate::types::{Reference, Work, WorkId, Works};

verus! {

/// How one character is written inside a quoted string: quote and backslash
/// are preceded by a backslash, and line breaks become escapes.
pub open spec fn escape_char(c: char) -> Seq<char> {
    if c == '"' {
        seq!['\\', '"']
    } else if c == '\\' {
        seq!['\\', '\\']
    } else if c == '\n' {
        seq!['\\', 'n']
    } else if c == '\r' {
        seq!['\\', 'r']
    } else {
        seq![c]
    }
}

/// The text `s` as written inside a quoted string.
pub open spec fn escape(s: Seq<char>) -> Seq<char>
    decreases s.len(),
{
    if s.len() == 0 {
        Seq::empty()
    } else {
        escape(s.drop_last()) + escape_char(s.last())
    }
}

/// The text `s` as a quoted string.
pub open spec fn quoted(s: Seq<char>) -> Seq<char> {
    seq!['"'] + escape(s) + seq!['"']
}

/// Relies on `String::push`: appends the character `c` to the end of `s`.
#[verifier::external_body]
fn push_char(s: &mut String, c: char)
    ensures
        final(s)@ == old(s)@.push(c),
{
    s.push(c)
}

/// Appends `s` to `out`, escaped for a quoted string.
pub fn push_escaped(out: &mut String, s: &str)
    ensures
        final(out)@ == old(out)@ + escape(s@),
{
    let ghost start = out@;
    for c in it: s.chars()
        invariant
            it.seq() == s@,
            out@ == start + escape(s@.take(it.index() as int)),
    {
        let ghost k = it.index() as int;
        assert(s@.take(k + 1).drop_last() =~= s@.take(k));
        assert(s@.take(k + 1).last() == c);
        if c == '"' {
            proof {
                reveal_strlit("\\\"");
            }
            out.append("\\\"");
        } else if c == '\\' {
            proof {
                reveal_strlit("\\\\");
            }
            out.append("\\\\");
        } else if c == '\n' {
            proof {
                reveal_strlit("\\n");
            }
            out.append("\\n");
        } else if c == '\r' {
            proof {
                reveal_strlit("\\r");
            }
            out.append("\\r");
        } else {
            push_char(out, c);
        }
        assert(out@ =~= start + escape(s@.take(k + 1)));
    }
    assert(s@.take(s@.len() as int) =~= s@);
}

/// Appends `s` to `out` as a quoted string.
pub fn push_quoted(out: &mut String, s: &str)
    ensures
        final(out)@ == old(out)@ + quoted(s@),
{
    proof {
        reveal_strlit("\"");
    }
    out.append("\"");
    push_escaped(out, s);
    out.append("\"");
    assert(out@ =~= old(out)@ + quoted(s@));
}

/// The opening of the graph: its name and the style shared by all nodes.
pub open spec fn graph_header() -> Seq<char> {
    "digraph works {\n"@ + "node [\n"@ + "margin = \"0.5,0.15\",\n"@ + "]\n"@
}

/// The close of the graph.
pub open spec fn graph_footer() -> Seq<char> {
    "}\n"@
}

/// The statement of the edge from work `source` to work `target`.
pub open spec fn edge_text(source: Seq<char>, target: Seq<char>) -> Seq<char> {
    quoted(source) + " -> "@ + quoted(target) + ";\n"@
}

/// The edges from work `source` to the works that `refs` cite, in order.
pub open spec fn edges_text(source: Seq<char>, refs: Seq<Reference>) -> Seq<char>
    decreases refs.len(),
{
    if refs.len() == 0 {
        Seq::empty()
    } else {
        edges_text(source, refs.drop_last()) + edge_text(source, refs.last().work.0@)
    }
}

/// The link attribute of a node: the first URL of the work, if it has any.
pub open spec fn url_text(urls: Seq<String>) -> Seq<char> {
    if urls.len() == 0 {
        Seq::empty()
    } else {
        "URL = "@ + quoted(urls[0]@) + ",\n"@
    }
}

/// The statement of the node of work `id`: a box that links to the work and
/// whose label holds the title over the identifier.
pub open spec fn node_text(id: Seq<char>, work: Work) -> Seq<char> {
    quoted(id) + " [\n"@ + "shape = box,\n"@ + url_text(work.urls@) + "label = \""@ + escape(
        work.title@,
    ) + "\\n"@ + escape(id) + "\",\n"@ + "];\n"@
}

/// The statements of one work: its node, then one edge per reference.
pub open spec fn entry_text(id: Seq<char>, work: Work) -> Seq<char> {
    node_text(id, work) + edges_text(id, work.references@)
}

/// The statements of `entries`, in order.
pub open spec fn entries_text(entries: Seq<(WorkId, Work)>) -> Seq<char>
    decreases entries.len(),
{
    if entries.len() == 0 {
        Seq::empty()
    } else {
        entries_text(entries.drop_last()) + entry_text(entries.last().0.0@, entries.last().1)
    }
}

impl Works {
    /// The graph description of the document.
    pub open spec fn graph_text(self) -> Seq<char> {
        graph_header() + entries_text(self.works@) + graph_footer()
    }

    /// Appends the graph description of the document to `out`.
    pub fn write_graph(&self, out: &mut String)
        ensures
            final(out)@ == old(out)@ + self.graph_text(),
    {
        let ghost start = out@;
        out.append("digraph works {\n");
        out.append("node [\n");
        out.append("margin = \"0.5,0.15\",\n");
        out.append("]\n");
        assert(out@ =~= start + graph_header());
        let mut i: usize = 0;
        while i < self.works.len()
            invariant
                i <= self.works.len(),
                out@ == start + graph_header() + entries_text(self.works@.take(i as int)),
            decreases self.works.len() - i,
        {
            let ghost before = out@;
            let id = self.works[i].0.to_dot_name();
            let work = &self.works[i].1;
            write_node(out, id, work);
            write_edges(out, id, &work.references);
            assert(self.works@.take(i + 1).drop_last() =~= self.works@.take(i as int));
            assert(out@ =~= before + entry_text(id@, *work));
            i += 1;
            assert(out@ =~= start + graph_header() + entries_text(self.works@.take(i as int)));
        }
        assert(self.works@.take(i as int) =~= self.works@);
        out.append("}\n");
        assert(out@ =~= start + self.graph_text());
    }
}

/// Appends the node statement of work `id` to `out`.
fn write_node(out: &mut String, id: &str, work: &Work)
    ensures
        final(out)@ == old(out)@ + node_text(id@, *work),
{
    let ghost start = out@;
    push_quoted(out, id);
    out.append(" [\n");
    out.append("shape = box,\n");
    let ghost mid = out@;
    if work.urls.len() > 0 {
        out.append("URL = ");
        push_quoted(out, work.urls[0].as_str());
        out.append(",\n");
    }
    assert(out@ =~= mid + url_text(work.urls@));
    out.append("label = \"");
    push_escaped(out, work.title.as_str());
    out.append("\\n");
    push_escaped(out, id);
    out.append("\",\n");
    out.append("];\n");
    assert(out@ =~= start + node_text(id@, *work));
}

/// Appends to `out` the edges from work `source` to the works that `refs` cite.
fn write_edges(out: &mut String, source: &str, refs: &Vec<Reference>)
    ensures
        final(out)@ == old(out)@ + edges_text(source@, refs@),
{
    let ghost start = out@;
    let mut j: usize = 0;
    while j < refs.len()
        invariant
            j <= refs.len(),
            out@ == start + edges_text(source@, refs@.take(j as int)),
        decreases refs.len() - j,
    {
        let ghost before = out@;
        push_quoted(out, source);
        out.append(" -> ");
        push_quoted(out, refs[j].work.to_dot_name());
        out.append(";\n");
        assert(refs@.take(j + 1).drop_last() =~= refs@.take(j as int));
        assert(out@ =~= before + edge_text(source@, refs@[j as int].work.0@));
        j += 1;
        assert(out@ =~= start + edges_text(source@, refs@.take(j as int)));
    }
    assert(refs@.take(j as int) =~= refs@);
}

/// Where a quoted string ends in `t`, the text after its opening quote: the
/// position of the closing quote. A backslash takes the character after it
/// along, so an escaped quote does not close the string.
pub open spec fn closing_quote(t: Seq<char>) -> Option<nat>
    decreases t.len(),
{
    if t.len() == 0 {
        None
    } else if t[0] == '"' {
        Some(0)
    } else if t[0] == '\\' && t.len() >= 2 {
        match closing_quote(t.subrange(2, t.len() as int)) {
            Some(k) => Some(k + 2),
            None => None,
        }
    } else {
        match closing_quote(t.drop_first()) {
            Some(k) => Some(k + 1),
            None => None,
        }
    }
}

/// Escaping a text that starts with `c` escapes `c`, then the rest.
pub proof fn lemma_escape_prepend(c: char, s: Seq<char>)
    ensures
        escape(seq![c] + s) == escape_char(c) + escape(s),
    decreases s.len(),
{
    if s.len() == 0 {
        assert((seq![c] + s).drop_last() =~= Seq::<char>::empty());
        assert((seq![c] + s).last() == c);
        assert(escape(Seq::<char>::empty()) == Seq::<char>::empty());
        assert(s =~= Seq::<char>::empty());
        assert(escape(seq![c] + s) =~= escape_char(c) + escape(s));
    } else {
        lemma_escape_prepend(c, s.drop_last());
        assert((seq![c] + s).drop_last() =~= seq![c] + s.drop_last());
        assert((seq![c] + s).last() == s.last());
        assert(escape(seq![c] + s) == escape(seq![c] + s.drop_last()) + escape_char(s.last()));
        assert(escape(s) == escape(s.drop_last()) + escape_char(s.last()));
        assert(escape(seq![c] + s) =~= escape_char(c) + escape(s));
    }
}

/// An escaped text holds no line break.
pub proof fn lemma_escape_single_line(s: Seq<char>)
    ensures
        forall|k: int| 0 <= k < escape(s).len() ==> escape(s)[k] != '\n',
    decreases s.len(),
{
    if s.len() > 0 {
        lemma_escape_single_line(s.drop_last());
        let p = escape(s.drop_last());
        let e = escape_char(s.last());
        assert(escape(s) == p + e);
        assert forall|k: int| 0 <= k < escape(s).len() implies escape(s)[k] != '\n' by {
            if k >= p.len() {
                assert(escape(s)[k] == e[k - p.len()]);
            } else {
                assert(escape(s)[k] == p[k]);
            }
        }
    }
}

/// In an escaped text followed by a quote, the string closes at that quote.
pub proof fn lemma_escaped_closes(s: Seq<char>, rest: Seq<char>)
    ensures
        closing_quote(escape(s) + seq!['"'] + rest) == Some(escape(s).len()),
    decreases s.len(),
{
    let t = escape(s) + seq!['"'] + rest;
    if s.len() == 0 {
        assert(t[0] == '"');
    } else {
        let c = s[0];
        let tail = s.drop_first();
        assert(s =~= seq![c] + tail);
        lemma_escape_prepend(c, tail);
        lemma_escaped_closes(tail, rest);
        let u = escape(tail) + seq!['"'] + rest;
        let e = escape_char(c);
        assert(t =~= e + u);
        if e.len() == 1 {
            assert(t.drop_first() =~= u);
        } else {
            assert(t.subrange(2, t.len() as int) =~= u);
        }
    }
}

/// Quoting is safe against injection: whatever the text `s` holds (quotes,
/// backslashes, line breaks) and whatever follows, the quoted string read from
/// its opening quote closes exactly at its own closing quote, and holds no
/// line break.
pub proof fn lemma_quoted_is_one_token(s: Seq<char>, rest: Seq<char>)
    ensures
        closing_quote((quoted(s) + rest).drop_first()) == Some(escape(s).len()),
        (quoted(s) + rest)[escape(s).len() as int + 1] == '"',
        forall|k: int| 0 <= k < quoted(s).len() ==> quoted(s)[k] != '\n',
{
    lemma_escaped_closes(s, rest);
    lemma_escape_single_line(s);
    assert((quoted(s) + rest).drop_first() =~= escape(s) + seq!['"'] + rest);
    assert forall|k: int| 0 <= k < quoted(s).len() implies quoted(s)[k] != '\n' by {
        if 0 < k < quoted(s).len() - 1 {
            assert(quoted(s)[k] == escape(s)[k - 1]);
        }
    }
}

/// The number of line breaks in `t`.
pub open spec fn line_breaks(t: Seq<char>) -> nat
    decreases t.len(),
{
    if t.len() == 0 {
        0
    } else {
        line_breaks(t.drop_last()) + if t.last() == '\n' {
            1nat
        } else {
            0nat
        }
    }
}

/// Line breaks add up over a concatenation.
pub proof fn lemma_line_breaks_concat(a: Seq<char>, b: Seq<char>)
    ensures
        line_breaks(a + b) == line_breaks(a) + line_breaks(b),
    decreases b.len(),
{
    if b.len() == 0 {
        assert(a + b =~= a);
    } else {
        lemma_line_breaks_concat(a, b.drop_last());
        assert((a + b).drop_last() =~= a + b.drop_last());
        assert((a + b).last() == b.last());
    }
}

/// A text whose only line break is its last character holds one; a text
/// without any holds none.
pub proof fn lemma_line_breaks_of_line(t: Seq<char>)
    ensures
        (forall|k: int| 0 <= k < t.len() ==> t[k] != '\n') ==> line_breaks(t) == 0,
        (t.len() > 0 && t.last() == '\n' && forall|k: int| 0 <= k < t.len() - 1 ==> t[k] != '\n')
            ==> line_breaks(t) == 1,
    decreases t.len(),
{
    if t.len() > 0 {
        lemma_line_breaks_of_line(t.drop_last());
    }
}

/// The number of lines of a node statement for a work with `urls`.
pub open spec fn node_lines(urls: Seq<String>) -> nat {
    if urls.len() == 0 {
        4
    } else {
        5
    }
}

/// The number of lines of the statements of `entries`: those of each node,
/// plus one per reference.
pub open spec fn entries_lines(entries: Seq<(WorkId, Work)>) -> nat
    decreases entries.len(),
{
    if entries.len() == 0 {
        0
    } else {
        entries_lines(entries.drop_last()) + node_lines(entries.last().1.urls@)
            + entries.last().1.references@.len()
    }
}

/// Lines of a quoted string: none, whatever the text holds.
proof fn lemma_quoted_lines(s: Seq<char>)
    ensures
        line_breaks(quoted(s)) == 0,
{
    lemma_quoted_is_one_token(s, Seq::empty());
    lemma_line_breaks_of_line(quoted(s));
}

/// Lines of an escaped text: none.
proof fn lemma_escape_lines(s: Seq<char>)
    ensures
        line_breaks(escape(s)) == 0,
{
    lemma_escape_single_line(s);
    lemma_line_breaks_of_line(escape(s));
}

/// An edge statement is one line, whatever the identifiers hold.
pub proof fn lemma_edge_lines(source: Seq<char>, target: Seq<char>)
    ensures
        line_breaks(edge_text(source, target)) == 1,
{
    reveal_strlit(" -> ");
    reveal_strlit(";\n");
    lemma_line_breaks_of_line(" -> "@);
    lemma_line_breaks_of_line(";\n"@);
    lemma_quoted_lines(source);
    lemma_quoted_lines(target);
    lemma_line_breaks_concat(quoted(source), " -> "@);
    lemma_line_breaks_concat(quoted(source) + " -> "@, quoted(target));
    lemma_line_breaks_concat(quoted(source) + " -> "@ + quoted(target), ";\n"@);
}

/// The edges of a work take one line each.
pub proof fn lemma_edges_lines(source: Seq<char>, refs: Seq<Reference>)
    ensures
        line_breaks(edges_text(source, refs)) == refs.len(),
    decreases refs.len(),
{
    if refs.len() > 0 {
        lemma_edges_lines(source, refs.drop_last());
        lemma_edge_lines(source, refs.last().work.0@);
        lemma_line_breaks_concat(
            edges_text(source, refs.drop_last()),
            edge_text(source, refs.last().work.0@),
        );
    }
}

/// A node statement takes four lines, five with a link, whatever the
/// identifier, title and link hold.
pub proof fn lemma_node_lines(id: Seq<char>, work: Work)
    ensures
        line_breaks(node_text(id, work)) == node_lines(work.urls@),
{
    reveal_strlit(" [\n");
    reveal_strlit("shape = box,\n");
    reveal_strlit("URL = ");
    reveal_strlit(",\n");
    reveal_strlit("label = \"");
    reveal_strlit("\\n");
    reveal_strlit("\",\n");
    reveal_strlit("];\n");
    lemma_line_breaks_of_line(" [\n"@);
    lemma_line_breaks_of_line("shape = box,\n"@);
    lemma_line_breaks_of_line("URL = "@);
    lemma_line_breaks_of_line(",\n"@);
    lemma_line_breaks_of_line("label = \""@);
    lemma_line_breaks_of_line("\\n"@);
    lemma_line_breaks_of_line("\",\n"@);
    lemma_line_breaks_of_line("];\n"@);
    lemma_quoted_lines(id);
    lemma_escape_lines(id);
    lemma_escape_lines(work.title@);
    if work.urls.len() > 0 {
        lemma_quoted_lines(work.urls@[0]@);
        lemma_line_breaks_concat("URL = "@, quoted(work.urls@[0]@));
        lemma_line_breaks_concat("URL = "@ + quoted(work.urls@[0]@), ",\n"@);
    }
    let parts = seq![
        quoted(id),
        " [\n"@,
        "shape = box,\n"@,
        url_text(work.urls@),
        "label = \""@,
        escape(work.title@),
        "\\n"@,
        escape(id),
        "\",\n"@,
        "];\n"@,
    ];
    let mut acc = Seq::<char>::empty();
    assert(line_breaks(acc) == 0);
    lemma_line_breaks_concat(acc, parts[0]);
    acc = acc + parts[0];
    lemma_line_breaks_concat(acc, parts[1]);
    acc = acc + parts[1];
    lemma_line_breaks_concat(acc, parts[2]);
    acc = acc + parts[2];
    lemma_line_breaks_concat(acc, parts[3]);
    acc = acc + parts[3];
    lemma_line_breaks_concat(acc, parts[4]);
    acc = acc + parts[4];
    lemma_line_breaks_concat(acc, parts[5]);
    acc = acc + parts[5];
    lemma_line_breaks_concat(acc, parts[6]);
    acc = acc + parts[6];
    lemma_line_breaks_concat(acc, parts[7]);
    acc = acc + parts[7];
    lemma_line_breaks_concat(acc, parts[8]);
    acc = acc + parts[8];
    lemma_line_breaks_concat(acc, parts[9]);
    acc = acc + parts[9];
    assert(acc =~= node_text(id, work));
}

/// The statements of `entries` take the lines that their shape gives.
pub proof fn lemma_entries_lines(entries: Seq<(WorkId, Work)>)
    ensures
        line_breaks(entries_text(entries)) == entries_lines(entries),
    decreases entries.len(),
{
    if entries.len() > 0 {
        let (id, w) = entries.last();
        lemma_entries_lines(entries.drop_last());
        lemma_node_lines(id.0@, w);
        lemma_edges_lines(id.0@, w.references@);
        lemma_line_breaks_concat(node_text(id.0@, w), edges_text(id.0@, w.references@));
        lemma_line_breaks_concat(entries_text(entries.drop_last()), entry_text(id.0@, w));
    }
}

/// Emission is safe against injection: the graph description of a document
/// has as many lines as its shape gives (four for the header, one for the
/// close, four or five per node, one per edge), whatever its identifiers,
/// titles and links hold. No text can add or break a statement.
pub proof fn lemma_graph_lines(d: Works)
    ensures
        line_breaks(d.graph_text()) == 5 + entries_lines(d.works@),
{
    reveal_strlit("digraph works {\n");
    reveal_strlit("node [\n");
    reveal_strlit("margin = \"0.5,0.15\",\n");
    reveal_strlit("]\n");
    reveal_strlit("}\n");
    lemma_line_breaks_of_line("digraph works {\n"@);
    lemma_line_breaks_of_line("node [\n"@);
    lemma_line_breaks_of_line("margin = \"0.5,0.15\",\n"@);
    lemma_line_breaks_of_line("]\n"@);
    lemma_line_breaks_of_line("}\n"@);
    lemma_line_breaks_concat("digraph works {\n"@, "node [\n"@);
    lemma_line_breaks_concat("digraph works {\n"@ + "node [\n"@, "margin = \"0.5,0.15\",\n"@);
    lemma_line_breaks_concat(
        "digraph works {\n"@ + "node [\n"@ + "margin = \"0.5,0.15\",\n"@,
        "]\n"@,
    );
    lemma_entries_lines(d.works@);
    lemma_line_breaks_concat(graph_header(), entries_text(d.works@));
    lemma_line_breaks_concat(graph_header() + entries_text(d.works@), graph_footer());
}

/// Emission depends on the document alone: two emissions of equal documents,
/// onto equal text, leave equal text.
pub proof fn lemma_emission_deterministic(d1: Works, d2: Works, out1: Seq<char>, out2: Seq<char>)
    requires
        d1 == d2,
        out1 == out2,
    ensures
        out1 + d1.graph_text() == out2 + d2.graph_text(),
{
}

} // verus!
