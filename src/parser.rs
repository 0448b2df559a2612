//! The single-pass markup reader: a state machine over the characters of
//! the input, with a stack of open tags.
use vstd::prelude::*;
use crate::tag::{render, Tag};
use crate::text::{chars_of, pop_char, push_char, push_text};

verus! {

/// Where the characters of plain text go.
#[derive(Clone, Copy, PartialEq, Eq, Structural)]
pub enum Pen {
    /// To the output.
    Output,
    /// To the kind of the innermost open tag.
    Kind,
    /// To the arguments of the innermost open tag.
    Args,
}

/// The state of the reader after some prefix of the input: what has been
/// written, the open tags (innermost last) as (kind, arguments), where plain
/// characters go, and the last character that was taken as plain text.
pub struct ScanState {
    pub out: Seq<char>,
    pub stack: Seq<(Seq<char>, Seq<char>)>,
    pub pen: Pen,
    pub prev: char,
}

/// The line-break element written for an unescaped `~`.
pub open spec fn line_break() -> Seq<char> {
    "<br />"@
}

/// The fixed-width spacer element written for an unescaped backtick.
pub open spec fn spacer() -> Seq<char> {
    "<div style='width:2em;display:inline-block;'></div>"@
}

/// `s` without its last character, if it has one.
pub open spec fn drop_last_if_any(s: Seq<char>) -> Seq<char> {
    if s.len() > 0 { s.drop_last() } else { s }
}

/// The state before the first character.
pub open spec fn initial_state() -> ScanState {
    ScanState { out: Seq::empty(), stack: Seq::empty(), pen: Pen::Output, prev: ' ' }
}

/// `c` written where the pen points; dropped when it points into a tag and
/// no tag is open.
pub open spec fn write(st: ScanState, c: char) -> ScanState {
    match st.pen {
        Pen::Output => ScanState { out: st.out.push(c), ..st },
        Pen::Kind => if st.stack.len() > 0 {
            let top = st.stack.last();
            ScanState { stack: st.stack.drop_last().push((top.0.push(c), top.1)), ..st }
        } else {
            st
        },
        Pen::Args => if st.stack.len() > 0 {
            let top = st.stack.last();
            ScanState { stack: st.stack.drop_last().push((top.0, top.1.push(c))), ..st }
        } else {
            st
        },
    }
}

/// The work an escaped control character does before it is written as
/// plain text: an escaped `:` in the arguments removes their last character;
/// an escaped `]`, `~` or backtick removes the last character of the output.
pub open spec fn unescape(st: ScanState, c: char) -> ScanState {
    if c == ':' && st.pen == Pen::Args {
        if st.stack.len() > 0 {
            let top = st.stack.last();
            ScanState { stack: st.stack.drop_last().push((top.0, drop_last_if_any(top.1))), ..st }
        } else {
            st
        }
    } else if c == ']' || c == '~' || c == '`' {
        ScanState { out: drop_last_if_any(st.out), ..st }
    } else {
        st
    }
}

/// The state after reading `c` in state `st`.
pub open spec fn step(st: ScanState, c: char) -> ScanState {
    let escaped = st.prev == '\\';
    if c == '[' && !escaped {
        ScanState { stack: st.stack.push((Seq::empty(), Seq::empty())), pen: Pen::Kind, ..st }
    } else if c == ';' && st.pen == Pen::Kind {
        ScanState { pen: Pen::Args, ..st }
    } else if c == ':' && st.pen != Pen::Output && !(escaped && st.pen == Pen::Args) {
        let open = if st.stack.len() > 0 {
            render(st.stack.last().0, st.stack.last().1).0
        } else {
            Seq::empty()
        };
        ScanState { out: st.out + open, pen: Pen::Output, ..st }
    } else if c == ']' && !escaped {
        if st.stack.len() > 0 {
            let close = render(st.stack.last().0, st.stack.last().1).1;
            ScanState { out: st.out + close, stack: st.stack.drop_last(), ..st }
        } else {
            st
        }
    } else if c == '~' && !escaped {
        ScanState { out: st.out + line_break(), ..st }
    } else if c == '`' && !escaped {
        ScanState { out: st.out + spacer(), ..st }
    } else {
        let st1 = unescape(st, c);
        let st2 = if c == '\n' { st1 } else { write(st1, c) };
        ScanState { prev: c, ..st2 }
    }
}

/// The state after reading `s` from state `st`.
pub open spec fn run_from(st: ScanState, s: Seq<char>) -> ScanState
    decreases s.len(),
{
    if s.len() == 0 {
        st
    } else {
        step(run_from(st, s.drop_last()), s.last())
    }
}

/// The HTML that the markup `s` reads as.
pub open spec fn parse_spec(s: Seq<char>) -> Seq<char> {
    run_from(initial_state(), s).out
}

/// The open tags of a stack of tag records, as (kind, arguments).
pub open spec fn stack_view(v: Seq<Tag>) -> Seq<(Seq<char>, Seq<char>)> {
    v.map_values(|t: Tag| t@)
}

/// The reader's working state: output, open tags, pen and last plain character.
struct Scanner {
    output: String,
    stack: Vec<Tag>,
    pen: Pen,
    prev: char,
}

impl Scanner {
    spec fn state(&self) -> ScanState {
        ScanState { out: self.output@, stack: stack_view(self.stack@), pen: self.pen, prev: self.prev }
    }

    fn write(&mut self, c: char)
        ensures
            final(self).state() == write(old(self).state(), c),
            final(self).prev == old(self).prev,
    {
        let ghost st = self.state();
        match self.pen {
            Pen::Output => push_char(&mut self.output, c),
            Pen::Kind => {
                if self.stack.len() > 0 {
                    let mut top = self.stack.pop().unwrap();
                    top.push_kind(c);
                    self.stack.push(top);
                }
            },
            Pen::Args => {
                if self.stack.len() > 0 {
                    let mut top = self.stack.pop().unwrap();
                    top.push_args(c);
                    self.stack.push(top);
                }
            },
        }
        proof {
            if st.pen != Pen::Output && st.stack.len() > 0 {
                assert(stack_view(self.stack@) =~= write(st, c).stack);
            }
        }
    }

    fn unescape(&mut self, c: char)
        ensures
            final(self).state() == unescape(old(self).state(), c),
            final(self).prev == old(self).prev,
    {
        let ghost st = self.state();
        if c == ':' && self.pen == Pen::Args {
            if self.stack.len() > 0 {
                let mut top = self.stack.pop().unwrap();
                top.pop_args();
                self.stack.push(top);
                proof {
                    assert(stack_view(self.stack@) =~= unescape(st, c).stack);
                }
            }
        } else if c == ']' || c == '~' || c == '`' {
            pop_char(&mut self.output);
        }
    }

    fn step(&mut self, c: char)
        ensures
            final(self).state() == step(old(self).state(), c),
    {
        let ghost st = self.state();
        let escaped = self.prev == '\\';
        if c == '[' && !escaped {
            self.stack.push(Tag::new());
            self.pen = Pen::Kind;
            proof {
                assert(stack_view(self.stack@) =~= step(st, c).stack);
            }
        } else if c == ';' && self.pen == Pen::Kind {
            self.pen = Pen::Args;
        } else if c == ':' && self.pen != Pen::Output && !(escaped && self.pen == Pen::Args) {
            if self.stack.len() > 0 {
                let (open, _) = self.stack[self.stack.len() - 1].construct();
                push_text(&mut self.output, open.as_str());
            } else {
                proof {
                    assert(self.output@ + Seq::<char>::empty() =~= self.output@);
                }
            }
            self.pen = Pen::Output;
        } else if c == ']' && !escaped {
            if self.stack.len() > 0 {
                let top = self.stack.pop().unwrap();
                let (_, close) = top.construct();
                push_text(&mut self.output, close.as_str());
                proof {
                    assert(stack_view(self.stack@) =~= st.stack.drop_last());
                }
            }
        } else if c == '~' && !escaped {
            push_text(&mut self.output, "<br />");
        } else if c == '`' && !escaped {
            push_text(&mut self.output, "<div style='width:2em;display:inline-block;'></div>");
        } else {
            self.unescape(c);
            if c != '\n' {
                self.write(c);
            }
            self.prev = c;
        }
    }
}

/// Reads the markup `str` and returns the HTML it stands for.
pub fn parse(str: String) -> (r: String)
    ensures
        r@ == parse_spec(str@),
{
    let cs = chars_of(str.as_str());
    let mut sc = Scanner { output: String::new(), stack: Vec::new(), pen: Pen::Output, prev: ' ' };
    proof {
        assert(stack_view(sc.stack@) =~= Seq::empty());
    }
    let mut i: usize = 0;
    while i < cs.len()
        invariant
            i <= cs@.len(),
            cs@ == str@,
            sc.state() == run_from(initial_state(), cs@.subrange(0, i as int)),
        decreases cs@.len() - i,
    {
        sc.step(cs[i]);
        proof {
            let pre = cs@.subrange(0, i + 1);
            assert(pre.drop_last() =~= cs@.subrange(0, i as int));
        }
        i = i + 1;
    }
    assert(cs@.subrange(0, cs@.len() as int) =~= cs@);
    sc.output
}

} // verus!
