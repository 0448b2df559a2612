//! What holds of the reader on whole families of inputs.
use vstd::prelude::*;
use crate::parser::{initial_state, line_break, parse_spec, run_from, spacer, step, Pen, ScanState};
use crate::tag::{known_kind, render};
use crate::text::trim_spec;

verus! {

/// A character with no special meaning to the reader.
pub open spec fn plain_char(c: char) -> bool {
    c != '[' && c != ']' && c != ';' && c != ':' && c != '~' && c != '`' && c != '\\' && c != '\n'
}

/// Text made of characters with no special meaning to the reader.
pub open spec fn plain(s: Seq<char>) -> bool {
    forall|i: int| 0 <= i < s.len() ==> plain_char(#[trigger] s[i])
}

/// The markup of one tag: kind `k`, arguments `a`, content `b`.
pub open spec fn tag_markup(k: Seq<char>, a: Seq<char>, b: Seq<char>) -> Seq<char> {
    seq!['['] + k + seq![';'] + a + seq![':'] + b + seq![']']
}

proof fn lemma_run_concat(st: ScanState, p: Seq<char>, q: Seq<char>)
    ensures
        run_from(st, p + q) == run_from(run_from(st, p), q),
    decreases q.len(),
{
    if q.len() == 0 {
        assert(p + q =~= p);
    } else {
        lemma_run_concat(st, p, q.drop_last());
        assert((p + q).drop_last() =~= p + q.drop_last());
        assert((p + q).last() == q.last());
    }
}

proof fn lemma_run_one(st: ScanState, c: char)
    ensures
        run_from(st, seq![c]) == step(st, c),
{
    assert(seq![c].drop_last() =~= Seq::<char>::empty());
    assert(run_from(st, Seq::<char>::empty()) == st);
    assert(seq![c].last() == c);
}

proof fn lemma_plain_output(st: ScanState, s: Seq<char>)
    requires
        st.pen == Pen::Output,
        st.prev != '\\',
        plain(s),
    ensures
        run_from(st, s).out == st.out + s,
        run_from(st, s).stack == st.stack,
        run_from(st, s).pen == Pen::Output,
        run_from(st, s).prev != '\\',
    decreases s.len(),
{
    if s.len() == 0 {
        assert(st.out + s =~= st.out);
    } else {
        let c = s.last();
        assert(plain_char(s[s.len() - 1]));
        assert(plain(s.drop_last()));
        lemma_plain_output(st, s.drop_last());
        assert((st.out + s.drop_last()).push(c) =~= st.out + s);
    }
}

proof fn lemma_plain_kind(st: ScanState, s: Seq<char>)
    requires
        st.pen == Pen::Kind,
        st.stack.len() > 0,
        st.prev != '\\',
        plain(s),
    ensures
        run_from(st, s).out == st.out,
        run_from(st, s).stack == st.stack.drop_last().push((st.stack.last().0 + s, st.stack.last().1)),
        run_from(st, s).pen == Pen::Kind,
        run_from(st, s).prev != '\\',
    decreases s.len(),
{
    if s.len() == 0 {
        assert(st.stack.last().0 + s =~= st.stack.last().0);
        assert(st.stack.drop_last().push(st.stack.last()) =~= st.stack);
    } else {
        let c = s.last();
        assert(plain_char(s[s.len() - 1]));
        assert(plain(s.drop_last()));
        lemma_plain_kind(st, s.drop_last());
        assert((st.stack.last().0 + s.drop_last()).push(c) =~= st.stack.last().0 + s);
        let mid = run_from(st, s.drop_last());
        assert(mid.stack.drop_last() =~= st.stack.drop_last());
    }
}

proof fn lemma_plain_args(st: ScanState, s: Seq<char>)
    requires
        st.pen == Pen::Args,
        st.stack.len() > 0,
        st.prev != '\\',
        plain(s),
    ensures
        run_from(st, s).out == st.out,
        run_from(st, s).stack == st.stack.drop_last().push((st.stack.last().0, st.stack.last().1 + s)),
        run_from(st, s).pen == Pen::Args,
        run_from(st, s).prev != '\\',
    decreases s.len(),
{
    if s.len() == 0 {
        assert(st.stack.last().1 + s =~= st.stack.last().1);
        assert(st.stack.drop_last().push(st.stack.last()) =~= st.stack);
    } else {
        let c = s.last();
        assert(plain_char(s[s.len() - 1]));
        assert(plain(s.drop_last()));
        lemma_plain_args(st, s.drop_last());
        assert((st.stack.last().1 + s.drop_last()).push(c) =~= st.stack.last().1 + s);
        let mid = run_from(st, s.drop_last());
        assert(mid.stack.drop_last() =~= st.stack.drop_last());
    }
}

/// Reading a tag header `[k;a:` from plain text writes the tag's open
/// fragment and opens the tag.
proof fn lemma_open_tag(st: ScanState, k: Seq<char>, a: Seq<char>)
    requires
        st.pen == Pen::Output,
        st.prev != '\\',
        plain(k),
        plain(a),
    ensures
        run_from(st, seq!['['] + k + seq![';'] + a + seq![':']).out == st.out + render(k, a).0,
        run_from(st, seq!['['] + k + seq![';'] + a + seq![':']).stack == st.stack.push((k, a)),
        run_from(st, seq!['['] + k + seq![';'] + a + seq![':']).pen == Pen::Output,
        run_from(st, seq!['['] + k + seq![';'] + a + seq![':']).prev != '\\',
{
    let p1 = seq!['['];
    let p2 = p1 + k;
    let p3 = p2 + seq![';'];
    let p4 = p3 + a;
    lemma_run_one(st, '[');
    let s1 = run_from(st, p1);
    lemma_run_concat(st, p1, k);
    lemma_plain_kind(s1, k);
    let s2 = run_from(st, p2);
    assert(s2.stack =~= st.stack.push((k, Seq::<char>::empty())));
    lemma_run_concat(st, p2, seq![';']);
    lemma_run_one(s2, ';');
    let s3 = run_from(st, p3);
    lemma_run_concat(st, p3, a);
    lemma_plain_args(s3, a);
    let s4 = run_from(st, p4);
    assert(Seq::<char>::empty() + a =~= a);
    assert(s4.stack =~= st.stack.push((k, a)));
    lemma_run_concat(st, p4, seq![':']);
    lemma_run_one(s4, ':');
}

/// Reading `]` with the tag `(k, a)` innermost and no escape before it
/// writes the tag's close fragment and closes the tag.
proof fn lemma_close_tag(st: ScanState)
    requires
        st.pen == Pen::Output,
        st.prev != '\\',
        st.stack.len() > 0,
    ensures
        run_from(st, seq![']']).out == st.out + render(st.stack.last().0, st.stack.last().1).1,
        run_from(st, seq![']']).stack == st.stack.drop_last(),
        run_from(st, seq![']']).pen == Pen::Output,
        run_from(st, seq![']']).prev != '\\',
{
    lemma_run_one(st, ']');
}

/// A tag with plain kind, arguments and content reads as its open fragment,
/// the content, and its close fragment.
pub proof fn law_single_tag(k: Seq<char>, a: Seq<char>, b: Seq<char>)
    requires
        plain(k),
        plain(a),
        plain(b),
    ensures
        parse_spec(tag_markup(k, a, b)) == render(k, a).0 + b + render(k, a).1,
{
    let st = initial_state();
    let h = seq!['['] + k + seq![';'] + a + seq![':'];
    lemma_open_tag(st, k, a);
    let s1 = run_from(st, h);
    lemma_run_concat(st, h, b);
    lemma_plain_output(s1, b);
    let s2 = run_from(st, h + b);
    lemma_run_concat(st, h + b, seq![']']);
    assert(s2.stack.last() == (k, a));
    lemma_close_tag(s2);
    assert(Seq::<char>::empty() + render(k, a).0 =~= render(k, a).0);
}

/// A tag with no arguments reads as the tag with empty arguments.
pub proof fn law_tag_without_args(k: Seq<char>, b: Seq<char>)
    requires
        plain(k),
        plain(b),
    ensures
        parse_spec(seq!['['] + k + seq![':'] + b + seq![']'])
            == render(k, Seq::empty()).0 + b + render(k, Seq::empty()).1,
{
    let e = Seq::<char>::empty();
    let st = initial_state();
    let h = seq!['['] + k + seq![':'];
    lemma_run_one(st, '[');
    lemma_run_concat(st, seq!['['], k);
    lemma_plain_kind(run_from(st, seq!['[']), k);
    let s2 = run_from(st, seq!['['] + k);
    assert(s2.stack =~= seq![(k, e)]);
    lemma_run_concat(st, seq!['['] + k, seq![':']);
    lemma_run_one(s2, ':');
    let s3 = run_from(st, h);
    lemma_run_concat(st, h, b);
    lemma_plain_output(s3, b);
    let s4 = run_from(st, h + b);
    lemma_run_concat(st, h + b, seq![']']);
    lemma_close_tag(s4);
    assert(e + render(k, e).0 =~= render(k, e).0);
}

/// A `HEADING` tag with no arguments is a first-level heading.
pub proof fn law_heading_default()
    ensures
        render("HEADING"@, Seq::empty()) == ("<h1>"@, "</h1>"@),
{
    reveal_strlit("HEADING");
    reveal_strlit("<h");
    reveal_strlit("</h");
    reveal_strlit("1");
    reveal_strlit(">");
    reveal_strlit("<h1>");
    reveal_strlit("</h1>");
    let k = "HEADING"@;
    assert(trim_spec(k) == k);
    assert("<h"@ + "1"@ + ">"@ =~= "<h1>"@);
    assert("</h"@ + "1"@ + ">"@ =~= "</h1>"@);
}

/// A tag whose kind names no markup leaves only its content.
pub proof fn law_unknown_kind(k: Seq<char>, a: Seq<char>, b: Seq<char>)
    requires
        plain(k),
        plain(a),
        plain(b),
        !known_kind(trim_spec(k)),
    ensures
        parse_spec(tag_markup(k, a, b)) == b,
{
    law_single_tag(k, a, b);
    assert(Seq::<char>::empty() + b + Seq::<char>::empty() =~= b);
}

/// Tags close innermost first: a tag inside another reads as the outer open
/// fragment, the inner open fragment, the content, the inner close fragment
/// and the outer close fragment.
pub proof fn law_nested_tags(
    k1: Seq<char>,
    a1: Seq<char>,
    k2: Seq<char>,
    a2: Seq<char>,
    b: Seq<char>,
)
    requires
        plain(k1),
        plain(a1),
        plain(k2),
        plain(a2),
        plain(b),
    ensures
        parse_spec(
            seq!['['] + k1 + seq![';'] + a1 + seq![':'] + tag_markup(k2, a2, b) + seq![']'],
        ) == render(k1, a1).0 + render(k2, a2).0 + b + render(k2, a2).1 + render(k1, a1).1,
{
    let st = initial_state();
    let h1 = seq!['['] + k1 + seq![';'] + a1 + seq![':'];
    let h2 = seq!['['] + k2 + seq![';'] + a2 + seq![':'];
    lemma_open_tag(st, k1, a1);
    let s1 = run_from(st, h1);
    lemma_run_concat(st, h1, h2);
    lemma_open_tag(s1, k2, a2);
    let s2 = run_from(st, h1 + h2);
    lemma_run_concat(st, h1 + h2, b);
    lemma_plain_output(s2, b);
    let s3 = run_from(st, h1 + h2 + b);
    lemma_run_concat(st, h1 + h2 + b, seq![']']);
    assert(s3.stack.last() == (k2, a2));
    lemma_close_tag(s3);
    let s4 = run_from(st, h1 + h2 + b + seq![']']);
    assert(s4.stack.last() == (k1, a1));
    lemma_run_concat(st, h1 + h2 + b + seq![']'], seq![']']);
    lemma_close_tag(s4);
    let whole = h1 + h2 + b + seq![']'] + seq![']'];
    assert(whole =~= seq!['['] + k1 + seq![';'] + a1 + seq![':'] + tag_markup(k2, a2, b) + seq![']']);
    assert(Seq::<char>::empty() + render(k1, a1).0 =~= render(k1, a1).0);
}

/// A tag that is never closed writes its open fragment and its content, and
/// no close fragment.
pub proof fn law_unclosed_tag(k: Seq<char>, b: Seq<char>)
    requires
        plain(k),
        plain(b),
    ensures
        parse_spec(seq!['['] + k + seq![':'] + b) == render(k, Seq::empty()).0 + b,
{
    let e = Seq::<char>::empty();
    let st = initial_state();
    let h = seq!['['] + k + seq![':'];
    lemma_run_one(st, '[');
    lemma_run_concat(st, seq!['['], k);
    lemma_plain_kind(run_from(st, seq!['[']), k);
    let s2 = run_from(st, seq!['['] + k);
    assert(s2.stack =~= seq![(k, e)]);
    lemma_run_concat(st, seq!['['] + k, seq![':']);
    lemma_run_one(s2, ':');
    lemma_run_concat(st, h, b);
    lemma_plain_output(run_from(st, h), b);
    assert(e + render(k, e).0 =~= render(k, e).0);
}

/// A close marker with no tag open and no escape before it changes nothing.
pub proof fn law_unmatched_close(s: Seq<char>)
    requires
        run_from(initial_state(), s).stack.len() == 0,
        run_from(initial_state(), s).prev != '\\',
    ensures
        parse_spec(s + seq![']']) == parse_spec(s),
{
    lemma_run_concat(initial_state(), s, seq![']']);
    lemma_run_one(run_from(initial_state(), s), ']');
}

/// Between plain text, `~` reads as a line break and a backtick as a
/// fixed-width spacer.
pub proof fn law_literal_substitutions(a: Seq<char>, b: Seq<char>)
    requires
        plain(a),
        plain(b),
    ensures
        parse_spec(a + seq!['~'] + b) == a + line_break() + b,
        parse_spec(a + seq!['`'] + b) == a + spacer() + b,
{
    let st = initial_state();
    lemma_plain_output(st, a);
    let s1 = run_from(st, a);
    assert(Seq::<char>::empty() + a =~= a);
    lemma_run_concat(st, a, seq!['~']);
    lemma_run_one(s1, '~');
    lemma_run_concat(st, a + seq!['~'], b);
    lemma_plain_output(run_from(st, a + seq!['~']), b);
    lemma_run_concat(st, a, seq!['`']);
    lemma_run_one(s1, '`');
    lemma_run_concat(st, a + seq!['`'], b);
    lemma_plain_output(run_from(st, a + seq!['`']), b);
}

} // verus!
