use vstd::prelude::*;

verus! {

/// Number of spaces that one level of indentation stands for.
pub const INDENT: usize = 4;

/// What a formatter holds: the text written so far and the current
/// indentation depth.
pub struct FmtState {
    pub text: Seq<char>,
    pub depth: nat,
}

/// True when the next character written starts a new line.
pub open spec fn at_line_start(text: Seq<char>) -> bool {
    text.len() == 0 || text.last() == '\n'
}

/// `n` spaces.
pub open spec fn spaces(n: nat) -> Seq<char> {
    Seq::new(n, |i: int| ' ')
}

/// Writes one character: the first character of a non-empty line is
/// preceded by the indentation of the current depth.
pub open spec fn put_char(st: FmtState, c: char) -> FmtState {
    if c != '\n' && at_line_start(st.text) {
        FmtState { text: st.text + spaces(st.depth * INDENT as nat) + seq![c], depth: st.depth }
    } else {
        FmtState { text: st.text.push(c), depth: st.depth }
    }
}

/// Writes a sequence of characters, one after the other.
pub open spec fn put_str(st: FmtState, s: Seq<char>) -> FmtState
    decreases s.len(),
{
    if s.len() == 0 {
        st
    } else {
        put_char(put_str(st, s.drop_last()), s.last())
    }
}

/// Opens a block: a separating space unless at the start of a line, the
/// opening brace and a line break, then one more level of indentation.
pub open spec fn open_block_out(st: FmtState) -> FmtState {
    let st1 = if at_line_start(st.text) { st } else { put_str(st, " "@) };
    let st2 = put_str(st1, "{\n"@);
    FmtState { text: st2.text, depth: st2.depth + 1 }
}

/// Closes a block: one level less of indentation, then the closing brace
/// and a line break.
pub open spec fn close_block_out(st: FmtState) -> FmtState {
    put_str(FmtState { text: st.text, depth: (st.depth - 1) as nat }, "}\n"@)
}

/// Writing never changes the depth.
pub broadcast proof fn lemma_put_str_depth(st: FmtState, s: Seq<char>)
    ensures
        #[trigger] put_str(st, s).depth == st.depth,
    decreases s.len(),
{
    if s.len() > 0 {
        lemma_put_str_depth(st, s.drop_last());
    }
}

/// Opening a block goes one level deeper; closing one, one level back.
pub proof fn lemma_block_depth(st: FmtState)
    ensures
        open_block_out(st).depth == st.depth + 1,
        st.depth > 0 ==> close_block_out(st).depth == st.depth - 1,
{
    lemma_put_str_depth(st, " "@);
    let s0 = if at_line_start(st.text) { st } else { put_str(st, " "@) };
    lemma_put_str_depth(s0, "{\n"@);
    lemma_put_str_depth(FmtState { text: st.text, depth: (st.depth - 1) as nat }, "}\n"@);
}

/// At depth zero text is written as it is.
pub proof fn lemma_put_str_depth_zero(st: FmtState, s: Seq<char>)
    requires
        st.depth == 0,
    ensures
        put_str(st, s) == (FmtState { text: st.text + s, depth: 0 }),
    decreases s.len(),
{
    if s.len() == 0 {
        assert(st.text + s =~= st.text);
    } else {
        lemma_put_str_depth_zero(st, s.drop_last());
        assert(spaces(0) =~= Seq::<char>::empty());
        assert(st.text + s.drop_last() + seq![s.last()] =~= st.text + s);
        assert((st.text + s.drop_last()).push(s.last()) =~= st.text + s);
    }
}

/// Writing `a` and then `b` is writing `a + b`.
pub broadcast proof fn lemma_put_str_concat(st: FmtState, a: Seq<char>, b: Seq<char>)
    ensures
        #[trigger] put_str(put_str(st, a), b) == put_str(st, a + b),
    decreases b.len(),
{
    if b.len() == 0 {
        assert(a + b =~= a);
    } else {
        lemma_put_str_concat(st, a, b.drop_last());
        assert((a + b).drop_last() =~= a + b.drop_last());
        assert((a + b).last() == b.last());
    }
}

/// The characters of each string.
pub open spec fn strs(v: Seq<String>) -> Seq<Seq<char>> {
    v.map_values(|s: String| s@)
}

/// Each string on a line of its own, between `pre` and `post`.
pub open spec fn wrapped_lines(ss: Seq<Seq<char>>, pre: Seq<char>, post: Seq<char>) -> Seq<char>
    decreases ss.len(),
{
    if ss.len() == 0 {
        Seq::empty()
    } else {
        wrapped_lines(ss.drop_last(), pre, post) + pre + ss.last() + post
    }
}

/// Strings written one after the other, `sep` between each two.
pub open spec fn strs_joined(ss: Seq<Seq<char>>, sep: Seq<char>) -> Seq<char>
    decreases ss.len(),
{
    if ss.len() == 0 {
        Seq::empty()
    } else if ss.len() == 1 {
        ss[0]
    } else {
        strs_joined(ss.drop_last(), sep) + sep + ss.last()
    }
}

/// Relies on String::push: appends one character at the end.
#[verifier::external_body]
pub(crate) fn push_char(dst: &mut String, c: char)
    ensures
        final(dst)@ == old(dst)@.push(c),
{
    dst.push(c)
}

/// Appends `c` to `dst` as `put_char` says, `at_start` telling whether
/// `dst` stands at the start of a line.
fn put_into(dst: &mut String, depth: usize, at_start: bool, c: char)
    requires
        at_start == at_line_start(old(dst)@),
    ensures
        final(dst)@ == put_char(FmtState { text: old(dst)@, depth: depth as nat }, c).text,
{
    if c != '\n' && at_start {
        let mut level: usize = 0;
        while level < depth
            invariant
                level <= depth,
                dst@ == old(dst)@ + spaces((level * INDENT) as nat),
            decreases depth - level,
        {
            let mut k: usize = 0;
            while k < INDENT
                invariant
                    k <= INDENT,
                    level < depth,
                    dst@ == old(dst)@ + spaces((level * INDENT + k) as nat),
                decreases INDENT - k,
            {
                push_char(dst, ' ');
                k = k + 1;
                assert(dst@ =~= old(dst)@ + spaces((level * INDENT + k) as nat));
            }
            level = level + 1;
        }
        push_char(dst, c);
        assert(dst@ =~= old(dst)@ + spaces(depth as nat * INDENT as nat) + seq![c]);
    } else {
        push_char(dst, c);
    }
}

/// Text sink that tracks indentation depth and whether it stands at the
/// start of a line.
pub struct Formatter {
    dst: String,
    depth: usize,
    line_start: bool,
}

impl View for Formatter {
    type V = FmtState;

    closed spec fn view(&self) -> FmtState {
        FmtState { text: self.dst@, depth: self.depth as nat }
    }
}

impl Formatter {
    #[verifier::type_invariant]
    spec fn tracks_line_start(&self) -> bool {
        self.line_start == at_line_start(self.dst@)
    }

    /// An empty formatter at depth zero.
    pub fn new() -> (r: Formatter)
        ensures
            r@ == (FmtState { text: Seq::empty(), depth: 0 }),
    {
        let r = Formatter { dst: String::new(), depth: 0, line_start: true };
        assert(r@.text =~= Seq::<char>::empty());
        r
    }

    /// The text written so far.
    pub fn as_str(&self) -> (r: &str)
        ensures
            r@ == self@.text,
    {
        self.dst.as_str()
    }

    /// The current indentation depth.
    pub fn depth(&self) -> (r: usize)
        ensures
            r == self@.depth,
    {
        self.depth
    }

    /// True when nothing follows the last line break written.
    pub fn is_start_of_line(&self) -> (r: bool)
        ensures
            r == at_line_start(self@.text),
    {
        proof {
            use_type_invariant(self);
        }
        self.line_start
    }

    fn put(&mut self, c: char)
        ensures
            final(self)@ == put_char(old(self)@, c),
    {
        let mut taken = Formatter { dst: String::new(), depth: 0, line_start: true };
        core::mem::swap(self, &mut taken);
        proof {
            use_type_invariant(&taken);
        }
        let Formatter { mut dst, depth, line_start } = taken;
        put_into(&mut dst, depth, line_start, c);
        *self = Formatter { dst, depth, line_start: c == '\n' };
    }

    /// Writes `s`; every non-empty line that starts within it is indented.
    pub fn write(&mut self, s: &str)
        ensures
            final(self)@ == put_str(old(self)@, s@),
            final(self)@.depth == old(self)@.depth,
    {
        proof {
            lemma_put_str_depth(self@, s@);
        }
        broadcast use vstd::string::group_string_axioms;

        for c in it: s.chars()
            invariant
                it.seq() == s@,
                self@ == put_str(old(self)@, s@.take(it.index() as int)),
        {
            proof {
                let i = it.index() as int;
                assert(s@.take(i + 1).drop_last() =~= s@.take(i));
            }
            self.put(c);
        }
        assert(s@.take(s@.len() as int) =~= s@);
    }

    /// Writes an owned string; see `write`.
    pub fn write_string(&mut self, s: &String)
        ensures
            final(self)@ == put_str(old(self)@, s@),
            final(self)@.depth == old(self)@.depth,
    {
        self.write(s.as_str());
    }

    /// Enters a block: writes a separating space unless at the start of a
    /// line, then `{` and a line break, and indents one level deeper.
    pub fn open_block(&mut self)
        requires
            old(self)@.depth < usize::MAX,
        ensures
            final(self)@ == open_block_out(old(self)@),
            final(self)@.depth == old(self)@.depth + 1,
    {
        if !self.is_start_of_line() {
            self.write(" ");
        }
        self.write("{\n");
        proof {
            use_type_invariant(&*self);
        }
        self.depth = self.depth + 1;
    }

    /// Leaves a block: one level less of indentation, then `}` and a line
    /// break.
    pub fn close_block(&mut self)
        requires
            old(self)@.depth > 0,
        ensures
            final(self)@ == close_block_out(old(self)@),
            final(self)@.depth == old(self)@.depth - 1,
    {
        proof {
            use_type_invariant(&*self);
        }
        self.depth = self.depth - 1;
        self.write("}\n");
    }

    /// One level deeper.
    pub fn indent(&mut self)
        requires
            old(self)@.depth < usize::MAX,
        ensures
            final(self)@ == (FmtState { text: old(self)@.text, depth: old(self)@.depth + 1 }),
    {
        proof {
            use_type_invariant(&*self);
        }
        self.depth = self.depth + 1;
    }

    /// One level less deep.
    pub fn dedent(&mut self)
        requires
            old(self)@.depth > 0,
        ensures
            final(self)@ == (FmtState { text: old(self)@.text, depth: (old(self)@.depth - 1) as nat }),
    {
        proof {
            use_type_invariant(&*self);
        }
        self.depth = self.depth - 1;
    }

    /// The text written so far, taken out of the formatter.
    pub fn into_string(self) -> (r: String)
        ensures
            r@ == self@.text,
    {
        self.dst
    }
}

/// Writes each string of `v` between `pre` and `post`.
pub fn fmt_wrapped_lines(v: &Vec<String>, pre: &str, post: &str, fmt: &mut Formatter)
    ensures
        final(fmt)@ == put_str(old(fmt)@, wrapped_lines(strs(v@), pre@, post@)),
        final(fmt)@.depth == old(fmt)@.depth,
{
    let mut i: usize = 0;
    while i < v.len()
        invariant
            i <= v.len(),
            fmt@ == put_str(old(fmt)@, wrapped_lines(strs(v@.take(i as int)), pre@, post@)),
        decreases v.len() - i,
    {
        fmt.write(pre);
        fmt.write_string(&v[i]);
        fmt.write(post);
        proof {
            let prev = wrapped_lines(strs(v@.take(i as int)), pre@, post@);
            assert(strs(v@.take(i + 1)).drop_last() =~= strs(v@.take(i as int)));
            assert(strs(v@.take(i + 1)).last() == v@[i as int]@);
            lemma_put_str_concat(old(fmt)@, prev, pre@);
            lemma_put_str_concat(old(fmt)@, prev + pre@, v@[i as int]@);
            lemma_put_str_concat(old(fmt)@, prev + pre@ + v@[i as int]@, post@);
        }
        i = i + 1;
    }
    assert(v@.take(v.len() as int) =~= v@);
    proof {
        lemma_put_str_depth(old(fmt)@, wrapped_lines(strs(v@), pre@, post@));
    }
}

/// Writes the strings of `v`, `sep` between each two.
pub fn fmt_strs_joined(v: &Vec<String>, sep: &str, fmt: &mut Formatter)
    ensures
        final(fmt)@ == put_str(old(fmt)@, strs_joined(strs(v@), sep@)),
        final(fmt)@.depth == old(fmt)@.depth,
{
    let mut i: usize = 0;
    while i < v.len()
        invariant
            i <= v.len(),
            fmt@ == put_str(old(fmt)@, strs_joined(strs(v@.take(i as int)), sep@)),
        decreases v.len() - i,
    {
        if i > 0 {
            fmt.write(sep);
        }
        fmt.write_string(&v[i]);
        proof {
            let prev = strs_joined(strs(v@.take(i as int)), sep@);
            assert(strs(v@.take(i + 1)).drop_last() =~= strs(v@.take(i as int)));
            assert(strs(v@.take(i + 1)).last() == v@[i as int]@);
            if i == 0 {
                assert(prev =~= Seq::<char>::empty());
            } else {
                lemma_put_str_concat(old(fmt)@, prev, sep@);
                lemma_put_str_concat(old(fmt)@, prev + sep@, v@[i as int]@);
            }
        }
        i = i + 1;
    }
    assert(v@.take(v.len() as int) =~= v@);
    proof {
        lemma_put_str_depth(old(fmt)@, strs_joined(strs(v@), sep@));
    }
}

/// Owned copies of the given strings, in order.
pub fn to_strings(v: &Vec<&str>) -> (r: Vec<String>)
    ensures
        strs(r@) == v@.map_values(|s: &str| s@),
{
    let mut r: Vec<String> = Vec::new();
    let mut i: usize = 0;
    while i < v.len()
        invariant
            i <= v.len(),
            r.len() == i,
            strs(r@) == v@.take(i as int).map_values(|s: &str| s@),
        decreases v.len() - i,
    {
        let ghost prev = r@;
        let line = String::from_str(v[i]);
        r.push(line);
        proof {
            let want = v@.take(i + 1).map_values(|s: &str| s@);
            assert forall|j: int| 0 <= j < i + 1 implies strs(r@)[j] == want[j] by {
                if j < i {
                    assert(r@[j] == prev[j]);
                    assert(strs(prev)[j] == v@.take(i as int).map_values(|s: &str| s@)[j]);
                }
            }
            assert(strs(r@) =~= want);
        }
        i = i + 1;
    }
    assert(v@.take(v.len() as int) =~= v@);
    r
}

} // verus!
