use vstd::prelude::*;

use crate::error::CodegenError;
use crate::formatter::{put_str, Formatter, lemma_put_str_concat};

verus! {

broadcast use vstd::seq::group_seq_axioms, vstd::std_specs::vec::group_vec_axioms;

/// A type: a name followed by its generic arguments.
#[derive(Debug)]
pub struct Type {
    name: String,
    generics: Vec<Type>,
}

/// The name of a type.
pub closed spec fn ty_name(t: Type) -> Seq<char> {
    t.name@
}

/// The generic arguments of a type, in the order they were added.
pub closed spec fn ty_generics(t: Type) -> Seq<Type> {
    t.generics@
}

/// How a type reads: its name, then `<`, its generics separated by `, `,
/// and `>` when it has any.
pub open spec fn type_text(t: Type) -> Seq<char>
    decreases t, 1nat,
{
    let gs = ty_generics(t);
    if gs.len() == 0 {
        ty_name(t)
    } else {
        ty_name(t) + "<"@ + types_joined(gs, ", "@) + ">"@
    }
}

/// Types written one after the other, `sep` between each two.
pub open spec fn types_joined(ts: Seq<Type>, sep: Seq<char>) -> Seq<char>
    decreases ts, 0nat,
{
    if ts.len() == 0 {
        Seq::empty()
    } else if ts.len() == 1 {
        type_text(ts[0])
    } else {
        types_joined(ts.drop_last(), sep) + sep + type_text(ts.last())
    }
}

/// True when `c` occurs in `s`.
pub fn has_char(s: &str, c: char) -> (r: bool)
    ensures
        r == s@.contains(c),
{
    broadcast use vstd::string::group_string_axioms;

    for x in it: s.chars()
        invariant
            it.seq() == s@,
            forall|j: int| 0 <= j < it.index() ==> s@[j] != c,
    {
        if x == c {
            assert(s@[it.index() as int] == c);
            return true;
        }
    }
    false
}

impl Type {
    /// A type with the given name and no generics.
    pub fn new(name: &str) -> (r: Type)
        ensures
            ty_name(r) == name@,
            ty_generics(r).len() == 0,
    {
        Type { name: String::from_str(name), generics: Vec::new() }
    }

    /// Adds a generic argument. A name that already holds `<` takes none:
    /// the type is then left as it was.
    pub fn generic(&mut self, ty: Type) -> (r: Result<&mut Self, CodegenError>)
        ensures
            ty_name(*old(self)).contains('<') ==> r is Err && r->Err_0
                == CodegenError::GenericOnBracketedName && *final(self) == *old(self),
            !ty_name(*old(self)).contains('<') ==> r is Ok && ty_name(*r->Ok_0) == ty_name(
                *old(self),
            ) && ty_generics(*r->Ok_0) == ty_generics(*old(self)).push(ty) && *final(self)
                == *final(r->Ok_0),
    {
        if has_char(self.name.as_str(), '<') {
            return Err(CodegenError::GenericOnBracketedName);
        }
        self.generics.push(ty);
        Ok(self)
    }

    /// Writes the type as `type_text` reads.
    pub fn fmt(&self, fmt: &mut Formatter)
        ensures
            final(fmt)@ == put_str(old(fmt)@, type_text(*self)),
        decreases self, 1nat,
    {
        fmt.write_string(&self.name);
        if self.generics.len() > 0 {
            fmt.write("<");
            fmt_types(&self.generics, ", ", fmt);
            fmt.write(">");
            proof {
                let a = ty_name(*self);
                let b = types_joined(ty_generics(*self), ", "@);
                lemma_put_str_concat(old(fmt)@, a, "<"@);
                lemma_put_str_concat(old(fmt)@, a + "<"@, b);
                lemma_put_str_concat(old(fmt)@, a + "<"@ + b, ">"@);
            }
        }
    }
}

/// Writes types one after the other, `sep` between each two.
pub fn fmt_types(ts: &Vec<Type>, sep: &str, fmt: &mut Formatter)
    ensures
        final(fmt)@ == put_str(old(fmt)@, types_joined(ts@, sep@)),
    decreases ts, 0nat,
{
    let mut i: usize = 0;
    while i < ts.len()
        invariant
            i <= ts.len(),
            fmt@ == put_str(old(fmt)@, types_joined(ts@.take(i as int), sep@)),
        decreases ts.len() - i,
    {
        let ghost before = fmt@;
        if i > 0 {
            fmt.write(sep);
        }
        ts[i].fmt(fmt);
        proof {
            let prev = ts@.take(i as int);
            let next = ts@.take(i + 1);
            assert(next.drop_last() =~= prev);
            assert(next.last() == ts@[i as int]);
            if i == 0 {
                assert(types_joined(prev, sep@) =~= Seq::<char>::empty());
                assert(put_str(old(fmt)@, Seq::<char>::empty()) == old(fmt)@);
            } else {
                lemma_put_str_concat(old(fmt)@, types_joined(prev, sep@), sep@);
                lemma_put_str_concat(
                    old(fmt)@,
                    types_joined(prev, sep@) + sep@,
                    type_text(ts@[i as int]),
                );
            }
        }
        i = i + 1;
    }
    assert(ts@.take(ts.len() as int) =~= ts@);
}

/// What a character does to the count of open angle brackets.
pub open spec fn angle_step(c: char) -> int {
    if c == '<' {
        1
    } else if c == '>' {
        -1
    } else {
        0
    }
}

/// Angle brackets opened minus angle brackets closed in `s`.
pub open spec fn angle_balance(s: Seq<char>) -> int
    decreases s.len(),
{
    if s.len() == 0 {
        0
    } else {
        angle_balance(s.drop_last()) + angle_step(s.last())
    }
}

/// The lowest count of open angle brackets over the prefixes of `s`.
pub open spec fn angle_low(s: Seq<char>) -> int
    decreases s.len(),
{
    if s.len() == 0 {
        0
    } else {
        let a = angle_low(s.drop_last());
        let b = angle_balance(s);
        if a <= b { a } else { b }
    }
}

/// The highest count of open angle brackets over the prefixes of `s`: how
/// deep the brackets nest.
pub open spec fn angle_high(s: Seq<char>) -> int
    decreases s.len(),
{
    if s.len() == 0 {
        0
    } else {
        let a = angle_high(s.drop_last());
        let b = angle_balance(s);
        if a >= b { a } else { b }
    }
}

/// How deep generics nest in a type as it was built.
pub open spec fn generic_depth(t: Type) -> nat
    decreases t, 1nat,
{
    let gs = ty_generics(t);
    if gs.len() == 0 {
        0
    } else {
        1 + generics_depth(gs)
    }
}

/// The deepest nesting among several types.
pub open spec fn generics_depth(ts: Seq<Type>) -> nat
    decreases ts, 0nat,
{
    if ts.len() == 0 {
        0
    } else {
        let a = generics_depth(ts.drop_last());
        let b = generic_depth(ts.last());
        if a >= b { a } else { b }
    }
}

/// No name in the type holds an angle bracket.
pub open spec fn names_bracket_free(t: Type) -> bool
    decreases t, 1nat,
{
    !ty_name(t).contains('<') && !ty_name(t).contains('>') && all_bracket_free(ty_generics(t))
}

/// No name in any of the types holds an angle bracket.
pub open spec fn all_bracket_free(ts: Seq<Type>) -> bool
    decreases ts, 0nat,
{
    ts.len() == 0 || (all_bracket_free(ts.drop_last()) && names_bracket_free(ts.last()))
}

proof fn lemma_angle_concat(a: Seq<char>, b: Seq<char>)
    ensures
        angle_balance(a + b) == angle_balance(a) + angle_balance(b),
        angle_low(a + b) == (if angle_low(a) <= angle_balance(a) + angle_low(b) {
            angle_low(a)
        } else {
            angle_balance(a) + angle_low(b)
        }),
        angle_high(a + b) == (if angle_high(a) >= angle_balance(a) + angle_high(b) {
            angle_high(a)
        } else {
            angle_balance(a) + angle_high(b)
        }),
    decreases b.len(),
{
    if b.len() == 0 {
        assert(a + b =~= a);
    } else {
        lemma_angle_concat(a, b.drop_last());
        assert((a + b).drop_last() =~= a + b.drop_last());
        assert((a + b).last() == b.last());
        lemma_angle_bounds(a);
        lemma_angle_bounds(b.drop_last());
    }
}

proof fn lemma_angle_bounds(s: Seq<char>)
    ensures
        angle_low(s) <= 0,
        angle_low(s) <= angle_balance(s),
        angle_high(s) >= 0,
        angle_high(s) >= angle_balance(s),
    decreases s.len(),
{
    if s.len() > 0 {
        lemma_angle_bounds(s.drop_last());
    }
}

proof fn lemma_angle_free(s: Seq<char>)
    requires
        !s.contains('<'),
        !s.contains('>'),
    ensures
        angle_balance(s) == 0,
        angle_low(s) == 0,
        angle_high(s) == 0,
    decreases s.len(),
{
    if s.len() > 0 {
        let p = s.drop_last();
        assert(!p.contains('<')) by {
            if p.contains('<') {
                let k = choose|k: int| 0 <= k < p.len() && p[k] == '<';
                assert(s[k] == '<');
            }
        }
        assert(!p.contains('>')) by {
            if p.contains('>') {
                let k = choose|k: int| 0 <= k < p.len() && p[k] == '>';
                assert(s[k] == '>');
            }
        }
        assert(s.last() != '<' && s.last() != '>') by {
            if s.last() == '<' || s.last() == '>' {
                assert(s[s.len() - 1] == s.last());
            }
        }
        lemma_angle_free(p);
    }
}

/// Every `<` that a type writes is closed by a `>`, no `>` comes before its
/// `<`, and the brackets nest exactly as deep as the generics were built,
/// provided no name holds an angle bracket of its own.
pub proof fn law_type_brackets_balanced(t: Type)
    requires
        names_bracket_free(t),
    ensures
        angle_balance(type_text(t)) == 0,
        angle_low(type_text(t)) == 0,
        angle_high(type_text(t)) == generic_depth(t),
    decreases t, 1nat,
{
    lemma_angle_free(ty_name(t));
    let gs = ty_generics(t);
    if gs.len() > 0 {
        lemma_joined_brackets(gs);
        reveal_strlit("<");
        reveal_strlit(">");
        let n = ty_name(t);
        let j = types_joined(gs, ", "@);
        let open = "<"@;
        let close = ">"@;
        assert(open.drop_last() =~= Seq::<char>::empty());
        assert(close.drop_last() =~= Seq::<char>::empty());
        assert(open.last() == '<');
        assert(close.last() == '>');
        assert(angle_balance(Seq::<char>::empty()) == 0);
        assert(angle_low(Seq::<char>::empty()) == 0);
        assert(angle_high(Seq::<char>::empty()) == 0);
        assert(angle_balance(open) == 1);
        assert(angle_low(open) == 0);
        assert(angle_high(open) == 1);
        assert(angle_balance(close) == -1);
        assert(angle_low(close) == -1);
        assert(angle_high(close) == 0);
        lemma_angle_concat(n, open);
        lemma_angle_concat(n + open, j);
        lemma_angle_concat(n + open + j, close);
    }
}

proof fn lemma_joined_brackets(ts: Seq<Type>)
    requires
        all_bracket_free(ts),
    ensures
        angle_balance(types_joined(ts, ", "@)) == 0,
        angle_low(types_joined(ts, ", "@)) == 0,
        angle_high(types_joined(ts, ", "@)) == generics_depth(ts),
    decreases ts, 0nat,
{
    if ts.len() == 1 {
        assert(ts.drop_last().len() == 0);
        law_type_brackets_balanced(ts[0]);
    } else if ts.len() > 1 {
        lemma_joined_brackets(ts.drop_last());
        law_type_brackets_balanced(ts.last());
        reveal_strlit(", ");
        let sep = ", "@;
        lemma_angle_free(sep);
        let a = types_joined(ts.drop_last(), sep);
        lemma_angle_concat(a, sep);
        lemma_angle_concat(a + sep, type_text(ts.last()));
    }
}

} // verus!
