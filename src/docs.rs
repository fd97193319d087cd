use vstd::prelude::*;

use crate::formatter::{fmt_wrapped_lines, push_char, put_str, strs, wrapped_lines, Formatter};

verus! {

/// The pieces of `s` between line breaks: one more than it has line breaks.
pub open spec fn segments(s: Seq<char>) -> Seq<Seq<char>>
    decreases s.len(),
{
    if s.len() == 0 {
        seq![Seq::empty()]
    } else {
        let p = segments(s.drop_last());
        if s.last() == '\n' {
            p.push(Seq::empty())
        } else {
            p.update(p.len() - 1, p.last().push(s.last()))
        }
    }
}

/// A line without the carriage return that ends it, if any.
pub open spec fn strip_cr(l: Seq<char>) -> Seq<char> {
    if l.len() > 0 && l.last() == '\r' {
        l.drop_last()
    } else {
        l
    }
}

/// The lines of `s`: each piece that a line break ends, without a carriage
/// return before that break, then the last piece unless it is empty.
pub open spec fn lines_of(s: Seq<char>) -> Seq<Seq<char>> {
    let seg = segments(s);
    let ended = Seq::new((seg.len() - 1) as nat, |i: int| strip_cr(seg[i]));
    if seg.last().len() == 0 {
        ended
    } else {
        ended.push(seg.last())
    }
}

pub proof fn lemma_segments_len(s: Seq<char>)
    ensures
        segments(s).len() >= 1,
    decreases s.len(),
{
    if s.len() > 0 {
        lemma_segments_len(s.drop_last());
    }
}

/// Documentation text, kept as its lines.
#[derive(Debug)]
pub struct Docs {
    lines: Vec<String>,
}

/// The lines of a documentation text.
pub closed spec fn doc_lines(d: Docs) -> Seq<Seq<char>> {
    strs(d.lines@)
}

/// How documentation reads: each line after `/// `.
pub open spec fn docs_text(d: Docs) -> Seq<char> {
    wrapped_lines(doc_lines(d), "/// "@, "\n"@)
}

impl Docs {
    /// Documentation holding the lines of `docs`.
    pub fn new(docs: &str) -> (r: Docs)
        ensures
            doc_lines(r) == lines_of(docs@),
    {
        broadcast use vstd::string::group_string_axioms;

        let mut lines: Vec<String> = Vec::new();
        let mut cur = String::new();
        let mut pending_cr = false;
        for c in it: docs.chars()
            invariant
                it.seq() == docs@,
                ({
                    let seg = segments(docs@.take(it.index() as int));
                    &&& seg.len() >= 1
                    &&& lines.len() == seg.len() - 1
                    &&& forall|i: int| 0 <= i < lines.len() ==> #[trigger] lines@[i]@ == strip_cr(seg[i])
                    &&& seg.last() == if pending_cr { cur@.push('\r') } else { cur@ }
                    &&& !pending_cr ==> (cur@.len() == 0 || cur@.last() != '\r')
                }),
        {
            let ghost p = docs@.take(it.index() as int);
            let ghost q = docs@.take(it.index() + 1);
            proof {
                assert(q.drop_last() =~= p);
                lemma_segments_len(p);
            }
            if c == '\n' {
                lines.push(cur);
                cur = String::new();
                pending_cr = false;
            } else if c == '\r' {
                if pending_cr {
                    push_char(&mut cur, '\r');
                }
                pending_cr = true;
            } else {
                if pending_cr {
                    push_char(&mut cur, '\r');
                }
                push_char(&mut cur, c);
                pending_cr = false;
            }
            proof {
                let seg = segments(q);
                assert(seg.len() >= 1);
                assert forall|i: int| 0 <= i < lines.len() implies #[trigger] lines@[i]@ == strip_cr(seg[i]) by {}
                if c != '\n' {
                    assert(seg.last() =~= (if pending_cr { cur@.push('\r') } else { cur@ }));
                }
            }
        }
        if pending_cr {
            push_char(&mut cur, '\r');
        }
        let ghost seg = segments(docs@);
        proof {
            assert(docs@.take(docs@.len() as int) =~= docs@);
        }
        if cur.as_str().unicode_len() > 0 {
            lines.push(cur);
        }
        let r = Docs { lines };
        proof {
            assert(doc_lines(r) =~= lines_of(docs@));
        }
        r
    }

    /// Writes each line after `/// `.
    pub fn fmt(&self, fmt: &mut Formatter)
        ensures
            final(fmt)@ == put_str(old(fmt)@, docs_text(*self)),
            final(fmt)@.depth == old(fmt)@.depth,
    {
        fmt_wrapped_lines(&self.lines, "/// ", "\n", fmt);
    }
}

} // verus!
