//! Tag records and the table that renders them to HTML fragments.
use vstd::prelude::*;
use crate::text::{chars_of, lower_of, lowercase, push_char, push_text, pop_char, trim_spec, trim_str};

verus! {

/// A tag being read or waiting for its close marker: the text of its kind
/// and of its arguments.
pub struct Tag {
    pub kind: String,
    pub args: String,
}

impl View for Tag {
    type V = (Seq<char>, Seq<char>);

    open spec fn view(&self) -> (Seq<char>, Seq<char>) {
        (self.kind@, self.args@)
    }
}

/// The class name that one style letter of an `E` tag stands for; empty for
/// a letter with no meaning.
pub open spec fn class_word(c: char) -> Seq<char> {
    if c == 'B' {
        "bold"@
    } else if c == 'I' {
        "italic"@
    } else if c == 'U' {
        "underlined"@
    } else if c == 'S' {
        "secondary"@
    } else {
        Seq::empty()
    }
}

/// The class words of the style letters `a`, joined with single spaces.
pub open spec fn class_list(a: Seq<char>) -> Seq<char>
    decreases a.len(),
{
    if a.len() == 0 {
        Seq::empty()
    } else if a.len() == 1 {
        class_word(a[0])
    } else {
        class_list(a.drop_last()) + " "@ + class_word(a.last())
    }
}

/// Whether `k`, already trimmed, names one of the kinds with markup.
pub open spec fn known_kind(k: Seq<char>) -> bool {
    k == "HEADING"@ || k == "SUBTITLE"@ || k == "LINK"@ || k == "E"@ || k == "ALIGN"@
}

/// The open and close fragments of a tag of kind `kind` with arguments `args`.
pub open spec fn render(kind: Seq<char>, args: Seq<char>) -> (Seq<char>, Seq<char>) {
    let k = trim_spec(kind);
    if k == "HEADING"@ {
        let size = if args.len() == 0 { "1"@ } else { args };
        ("<h"@ + size + ">"@, "</h"@ + size + ">"@)
    } else if k == "SUBTITLE"@ {
        ("<div class='subtitle'>"@, "</div>"@)
    } else if k == "LINK"@ {
        ("<a href='"@ + args + "'>"@, "</a>"@)
    } else if k == "E"@ {
        ("<span class='"@ + class_list(args) + "'>"@, "</span>"@)
    } else if k == "ALIGN"@ {
        ("<div style='text-align: "@ + lower_of(trim_spec(args)) + "'>"@, "</div>"@)
    } else {
        (Seq::empty(), Seq::empty())
    }
}

fn text_is(s: &String, name: &str) -> (r: bool)
    ensures
        r == (s@ == name@),
{
    let n = name.to_owned();
    *s == n
}

fn word_of(c: char) -> (r: &'static str)
    ensures
        r@ == class_word(c),
{
    if c == 'B' {
        "bold"
    } else if c == 'I' {
        "italic"
    } else if c == 'U' {
        "underlined"
    } else if c == 'S' {
        "secondary"
    } else {
        proof {
            reveal_strlit("");
        }
        ""
    }
}

/// The class attribute of an `E` tag with style letters `letters`.
pub fn class_names(letters: &str) -> (r: String)
    ensures
        r@ == class_list(letters@),
{
    let cs = chars_of(letters);
    let mut out = String::new();
    let mut i: usize = 0;
    while i < cs.len()
        invariant
            i <= cs@.len(),
            cs@ == letters@,
            out@ == class_list(cs@.subrange(0, i as int)),
        decreases cs@.len() - i,
    {
        let ghost pre = cs@.subrange(0, i as int);
        if i > 0 {
            push_text(&mut out, " ");
        }
        push_text(&mut out, word_of(cs[i]));
        proof {
            let now = cs@.subrange(0, i + 1);
            assert(now.drop_last() =~= pre);
            assert(now.last() == cs@[i as int]);
            if i == 0 {
                assert(pre.len() == 0);
                assert(out@ =~= class_word(cs@[0]));
            }
        }
        i = i + 1;
    }
    assert(cs@.subrange(0, cs@.len() as int) =~= cs@);
    out
}

impl Tag {
    /// A tag with empty kind and arguments.
    pub fn new() -> (r: Tag)
        ensures
            r@ == (Seq::<char>::empty(), Seq::<char>::empty()),
    {
        Tag { kind: String::new(), args: String::new() }
    }

    /// Removes the last character of the arguments, if there is one.
    pub fn pop_args(&mut self)
        ensures
            final(self).kind@ == old(self).kind@,
            old(self).args@.len() == 0 ==> final(self).args@ == old(self).args@,
            old(self).args@.len() > 0 ==> final(self).args@ == old(self).args@.drop_last(),
    {
        pop_char(&mut self.args);
    }

    /// Appends `c` to the kind.
    pub fn push_kind(&mut self, c: char)
        ensures
            final(self)@ == (old(self).kind@.push(c), old(self).args@),
    {
        push_char(&mut self.kind, c);
    }

    /// Appends `c` to the arguments.
    pub fn push_args(&mut self, c: char)
        ensures
            final(self)@ == (old(self).kind@, old(self).args@.push(c)),
    {
        push_char(&mut self.args, c);
    }

    /// The open and close fragments of this tag.
    pub fn construct(&self) -> (r: (String, String))
        ensures
            (r.0@, r.1@) == render(self.kind@, self.args@),
    {
        let key = trim_str(self.kind.as_str()).to_owned();
        if text_is(&key, "HEADING") {
            let size = if self.args.as_str().is_empty() { "1".to_owned() } else { self.args.clone() };
            let mut open = "<h".to_owned();
            push_text(&mut open, size.as_str());
            push_text(&mut open, ">");
            let mut close = "</h".to_owned();
            push_text(&mut close, size.as_str());
            push_text(&mut close, ">");
            (open, close)
        } else if text_is(&key, "SUBTITLE") {
            ("<div class='subtitle'>".to_owned(), "</div>".to_owned())
        } else if text_is(&key, "LINK") {
            let mut open = "<a href='".to_owned();
            push_text(&mut open, self.args.as_str());
            push_text(&mut open, "'>");
            (open, "</a>".to_owned())
        } else if text_is(&key, "E") {
            let class = class_names(self.args.as_str());
            let mut open = "<span class='".to_owned();
            push_text(&mut open, class.as_str());
            push_text(&mut open, "'>");
            (open, "</span>".to_owned())
        } else if text_is(&key, "ALIGN") {
            let align = lowercase(trim_str(self.args.as_str()));
            let mut open = "<div style='text-align: ".to_owned();
            push_text(&mut open, align.as_str());
            push_text(&mut open, "'>");
            (open, "</div>".to_owned())
        } else {
            (String::new(), String::new())
        }
    }
}

} // verus!
