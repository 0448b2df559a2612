//! Whole pages: an optional title line, and the parsed body in an HTML shell.
use vstd::prelude::*;
use crate::parser::{initial_state, parse, parse_spec, run_from};
use crate::text::{chars_of, push_char, push_text, trim_spec, trim_str};

verus! {

/// The index of the first newline of `s`, or its length when it has none.
pub open spec fn line_end(s: Seq<char>) -> int
    decreases s.len(),
{
    if s.len() == 0 || s[0] == '\n' {
        0
    } else {
        1 + line_end(s.drop_first())
    }
}

/// The title of the document `s` and the markup of its body.
///
/// A first line that starts with `!` is the title, trimmed, and the body is
/// every later line, each ended by a newline. A first line that starts with
/// a backslash loses that character and stays in the body. Otherwise the
/// whole document is the body and the title is empty.
pub open spec fn page_parts(s: Seq<char>) -> (Seq<char>, Seq<char>) {
    let n = line_end(s);
    let rest = if n > 0 { s.subrange(1, n) } else { Seq::empty() };
    let after = if n < s.len() { s.subrange(n + 1, s.len() as int) + "\n"@ } else { Seq::empty() };
    if n > 0 && s[0] == '!' {
        (trim_spec(rest), after)
    } else if n > 0 && s[0] == '\\' {
        (Seq::empty(), rest + "\n"@ + after)
    } else {
        (Seq::empty(), s)
    }
}

/// The HTML page for the document `s`, linking the stylesheet at `style`.
pub open spec fn page_spec(s: Seq<char>, style: Seq<char>) -> Seq<char> {
    let (title, source) = page_parts(s);
    "<!DOCTYPE html><html><head><title>"@ + title + "</title><link rel='stylesheet' href='"@
        + style + "' /></head><body>"@ + parse_spec(source) + "</body></html>"@
}

proof fn lemma_line_end(s: Seq<char>, n: int)
    requires
        0 <= n <= s.len(),
        forall|k: int| 0 <= k < n ==> s[k] != '\n',
        n < s.len() ==> s[n] == '\n',
    ensures
        line_end(s) == n,
    decreases s.len(),
{
    if s.len() > 0 && s[0] != '\n' {
        assert(n > 0);
        lemma_line_end(s.drop_first(), n - 1);
    }
}

/// A first line `!t` gives the title `t`, trimmed, and the page body is the
/// reading of the rest of the document.
pub proof fn law_title_line(t: Seq<char>, rest: Seq<char>, style: Seq<char>)
    requires
        forall|i: int| 0 <= i < t.len() ==> t[i] != '\n',
    ensures
        page_spec(seq!['!'] + t + seq!['\n'] + rest, style)
            == "<!DOCTYPE html><html><head><title>"@ + trim_spec(t)
            + "</title><link rel='stylesheet' href='"@ + style + "' /></head><body>"@
            + parse_spec(rest) + "</body></html>"@,
{
    let s = seq!['!'] + t + seq!['\n'] + rest;
    let n: int = t.len() as int + 1;
    assert forall|k: int| 0 <= k < n implies s[k] != '\n' by {
        if k > 0 {
            assert(s[k] == t[k - 1]);
        }
    }
    lemma_line_end(s, n);
    assert(s.subrange(1, n) =~= t);
    assert(s.subrange(n + 1, s.len() as int) =~= rest);
    reveal_strlit("\n");
    let st = run_from(initial_state(), rest);
    assert((rest + "\n"@).drop_last() =~= rest);
    assert(run_from(initial_state(), rest + "\n"@) == crate::parser::step(st, '\n'));
}

fn text_of(cs: &Vec<char>, from: usize, to: usize) -> (r: String)
    requires
        from <= to <= cs@.len(),
    ensures
        r@ == cs@.subrange(from as int, to as int),
{
    let mut out = String::new();
    let mut i: usize = from;
    while i < to
        invariant
            from <= i <= to <= cs@.len(),
            out@ == cs@.subrange(from as int, i as int),
        decreases to - i,
    {
        push_char(&mut out, cs[i]);
        assert(out@ =~= cs@.subrange(from as int, i + 1));
        i = i + 1;
    }
    out
}

/// Builds the HTML page for the document `str`, linking the stylesheet at
/// `style`.
pub fn gen_page(str: String, style: &String) -> (r: String)
    ensures
        r@ == page_spec(str@, style@),
{
    let cs = chars_of(str.as_str());
    let mut n: usize = 0;
    while n < cs.len() && cs[n] != '\n'
        invariant
            n <= cs@.len(),
            forall|k: int| 0 <= k < n ==> cs@[k] != '\n',
        decreases cs@.len() - n,
    {
        n = n + 1;
    }
    proof {
        lemma_line_end(str@, n as int);
    }
    let rest = if n > 0 { text_of(&cs, 1, n) } else { String::new() };
    let mut after = String::new();
    if n < cs.len() {
        after = text_of(&cs, n + 1, cs.len());
        push_text(&mut after, "\n");
    }
    let first = if n > 0 { cs[0] } else { ' ' };
    let (title, source) = if first == '!' {
        (trim_str(rest.as_str()).to_owned(), after)
    } else if first == '\\' {
        let mut source = rest;
        push_text(&mut source, "\n");
        push_text(&mut source, after.as_str());
        (String::new(), source)
    } else {
        (String::new(), str)
    };
    let mut page = "<!DOCTYPE html><html><head><title>".to_owned();
    push_text(&mut page, title.as_str());
    push_text(&mut page, "</title><link rel='stylesheet' href='");
    push_text(&mut page, style.as_str());
    push_text(&mut page, "' /></head><body>");
    let body = parse(source);
    push_text(&mut page, body.as_str());
    push_text(&mut page, "</body></html>");
    page
}

} // verus!
