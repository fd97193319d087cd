use vstd::prelude::*;

use crate::formatter::{lemma_put_str_concat, open_block_out, put_str, FmtState, Formatter};

verus! {

broadcast use vstd::seq::group_seq_axioms, vstd::std_specs::vec::group_vec_axioms;

/// A block of code: optional text before the opening brace, the lines and
/// nested blocks inside, and optional text after the closing brace.
#[derive(Debug)]
pub struct Block {
    before: Option<String>,
    after: Option<String>,
    body: Vec<Body>,
}

/// What goes inside a function body or a block.
#[derive(Debug)]
pub enum Body {
    /// A line of code.
    String(String),
    /// A nested block.
    Block(Block),
}

/// Text written before the block's opening brace.
pub closed spec fn block_before(b: Block) -> Option<String> {
    b.before
}

/// Text written after the block's closing brace.
pub closed spec fn block_after(b: Block) -> Option<String> {
    b.after
}

/// What the block holds, in order.
pub closed spec fn block_body(b: Block) -> Seq<Body> {
    b.body@
}

/// What writing a block does: the text before it, the block opened, its
/// contents one level deeper, `}`, the text after it and a line break.
pub open spec fn block_out(st: FmtState, b: Block) -> FmtState
    decreases b, 1nat,
{
    let s1 = match block_before(b) {
        Some(t) => put_str(st, t@),
        None => st,
    };
    let s2 = bodies_out(open_block_out(s1), block_body(b));
    let tail = match block_after(b) {
        Some(t) => "}"@ + t@ + "\n"@,
        None => "}"@ + "\n"@,
    };
    put_str(FmtState { text: s2.text, depth: (s2.depth - 1) as nat }, tail)
}

/// What writing lines and blocks one after the other does.
pub open spec fn bodies_out(st: FmtState, bs: Seq<Body>) -> FmtState
    decreases bs, 0nat,
{
    if bs.len() == 0 {
        st
    } else {
        body_out(bodies_out(st, bs.drop_last()), bs.last())
    }
}

/// What writing one line or block does: a line ends with a line break.
pub open spec fn body_out(st: FmtState, x: Body) -> FmtState
    decreases x, 0nat,
{
    match x {
        Body::String(s) => put_str(st, s@ + "\n"@),
        Body::Block(b) => block_out(st, b),
    }
}

/// How deep a block nests: one level for itself and those of its deepest
/// content.
pub open spec fn block_height(b: Block) -> nat
    decreases b, 1nat,
{
    1 + bodies_height(block_body(b))
}

/// How deep the deepest of several lines and blocks nests.
pub open spec fn bodies_height(bs: Seq<Body>) -> nat
    decreases bs, 0nat,
{
    if bs.len() == 0 {
        0
    } else {
        let a = bodies_height(bs.drop_last());
        let b = body_height(bs.last());
        if a >= b { a } else { b }
    }
}

/// How deep a line (not at all) or a block nests.
pub open spec fn body_height(x: Body) -> nat
    decreases x, 0nat,
{
    match x {
        Body::String(_) => 0,
        Body::Block(b) => block_height(b),
    }
}

pub proof fn lemma_bodies_height(bs: Seq<Body>, i: int)
    requires
        0 <= i < bs.len(),
    ensures
        body_height(bs[i]) <= bodies_height(bs),
        bodies_height(bs.take(i)) <= bodies_height(bs),
    decreases bs.len(),
{
    if i < bs.len() - 1 {
        lemma_bodies_height(bs.drop_last(), i);
        assert(bs.drop_last()[i] == bs[i]);
        assert(bs.drop_last().take(i) =~= bs.take(i));
    } else {
        assert(bs.drop_last() =~= bs.take(i));
    }
}

impl Block {
    /// An empty block with `before` written before its opening brace.
    pub fn new(before: &str) -> (r: Block)
        ensures
            block_before(r) is Some,
            block_before(r)->0@ == before@,
            block_after(r) is None,
            block_body(r).len() == 0,
    {
        Block { before: Some(String::from_str(before)), after: None, body: Vec::new() }
    }

    /// Pushes a line.
    pub fn line(&mut self, line: &str) -> (r: &mut Self)
        ensures
            block_before(*r) == block_before(*old(self)),
            block_after(*r) == block_after(*old(self)),
            block_body(*r).len() == block_body(*old(self)).len() + 1,
            block_body(*r).drop_last() == block_body(*old(self)),
            block_body(*r).last() is String,
            block_body(*r).last()->String_0@ == line@,
            *final(self) == *final(r),
    {
        self.body.push(Body::String(String::from_str(line)));
        assert(self.body@.drop_last() =~= old(self).body@);
        self
    }

    /// Pushes a nested block.
    pub fn push_block(&mut self, block: Block) -> (r: &mut Self)
        ensures
            block_before(*r) == block_before(*old(self)),
            block_after(*r) == block_after(*old(self)),
            block_body(*r) == block_body(*old(self)).push(Body::Block(block)),
            *final(self) == *final(r),
    {
        self.body.push(Body::Block(block));
        self
    }

    /// Sets the text written after the closing brace.
    pub fn after(&mut self, after: &str) -> (r: &mut Self)
        ensures
            block_before(*r) == block_before(*old(self)),
            block_after(*r) is Some,
            block_after(*r)->0@ == after@,
            block_body(*r) == block_body(*old(self)),
            *final(self) == *final(r),
    {
        self.after = Some(String::from_str(after));
        self
    }

    /// Writes the block as `block_out` says.
    pub fn fmt(&self, fmt: &mut Formatter)
        requires
            old(fmt)@.depth + block_height(*self) <= usize::MAX,
        ensures
            final(fmt)@ == block_out(old(fmt)@, *self),
            final(fmt)@.depth == old(fmt)@.depth,
        decreases self, 1nat,
    {
        if let Some(before) = &self.before {
            fmt.write_string(before);
        }
        fmt.open_block();
        fmt_bodies(&self.body, fmt);
        fmt.dedent();
        let ghost st = fmt@;
        fmt.write("}");
        if let Some(after) = &self.after {
            fmt.write_string(after);
            proof {
                lemma_put_str_concat(st, "}"@, after@);
            }
        }
        fmt.write("\n");
        proof {
            if block_after(*self) is Some {
                lemma_put_str_concat(st, "}"@ + block_after(*self)->0@, "\n"@);
            } else {
                lemma_put_str_concat(st, "}"@, "\n"@);
            }
        }
    }
}

/// Writes lines and blocks one after the other.
pub fn fmt_bodies(bs: &Vec<Body>, fmt: &mut Formatter)
    requires
        old(fmt)@.depth + bodies_height(bs@) <= usize::MAX,
    ensures
        final(fmt)@ == bodies_out(old(fmt)@, bs@),
        final(fmt)@.depth == old(fmt)@.depth,
    decreases bs, 0nat,
{
    let mut i: usize = 0;
    while i < bs.len()
        invariant
            i <= bs.len(),
            fmt@ == bodies_out(old(fmt)@, bs@.take(i as int)),
            fmt@.depth == old(fmt)@.depth,
            old(fmt)@.depth + bodies_height(bs@) <= usize::MAX,
        decreases bs.len() - i,
    {
        proof {
            lemma_bodies_height(bs@, i as int);
        }
        bs[i].fmt(fmt);
        assert(bs@.take(i + 1).drop_last() =~= bs@.take(i as int));
        i = i + 1;
    }
    assert(bs@.take(bs.len() as int) =~= bs@);
}

impl Body {
    /// Writes a line with its line break, or a block.
    pub fn fmt(&self, fmt: &mut Formatter)
        requires
            old(fmt)@.depth + body_height(*self) <= usize::MAX,
        ensures
            final(fmt)@ == body_out(old(fmt)@, *self),
            final(fmt)@.depth == old(fmt)@.depth,
        decreases self, 0nat,
    {
        match self {
            Body::String(s) => {
                fmt.write_string(s);
                fmt.write("\n");
                proof {
                    lemma_put_str_concat(old(fmt)@, s@, "\n"@);
                }
            },
            Body::Block(b) => b.fmt(fmt),
        }
    }
}

pub proof fn lemma_block_out_depth(st: FmtState, b: Block)
    ensures
        block_out(st, b).depth == st.depth,
    decreases b, 1nat,
{
    crate::formatter::lemma_put_str_depth(st, block_before(b)->0@);
    let s1 = match block_before(b) {
        Some(t) => put_str(st, t@),
        None => st,
    };
    crate::formatter::lemma_block_depth(s1);
    lemma_bodies_out_depth(open_block_out(s1), block_body(b));
    let s2 = bodies_out(open_block_out(s1), block_body(b));
    let tail = match block_after(b) {
        Some(t) => "}"@ + t@ + "\n"@,
        None => "}"@ + "\n"@,
    };
    crate::formatter::lemma_put_str_depth(FmtState { text: s2.text, depth: (s2.depth - 1) as nat }, tail);
}

pub proof fn lemma_bodies_out_depth(st: FmtState, bs: Seq<Body>)
    ensures
        bodies_out(st, bs).depth == st.depth,
    decreases bs, 0nat,
{
    if bs.len() > 0 {
        lemma_bodies_out_depth(st, bs.drop_last());
        let prev = bodies_out(st, bs.drop_last());
        match bs.last() {
            Body::String(s) => crate::formatter::lemma_put_str_depth(prev, s@ + "\n"@),
            Body::Block(b) => lemma_block_out_depth(prev, b),
        }
        assert(body_out(prev, bs.last()).depth == prev.depth);
        assert(bodies_out(st, bs) == body_out(prev, bs.last()));
    }
}

} // verus!
