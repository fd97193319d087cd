use vstd::prelude::*;

use crate::formatter::{lemma_put_str_concat, put_str, strs, strs_joined, fmt_strs_joined, Formatter};
use crate::types::{fmt_types, types_joined, Type};

verus! {

/// A `where` bound: a name and the types it must satisfy.
#[derive(Debug)]
pub struct Bound {
    /// The name of the bound.
    pub name: String,
    /// The types of the bound.
    pub bound: Vec<Type>,
}

/// The types a bound requires, joined by ` + `.
pub open spec fn bound_rhs_text(tys: Seq<Type>) -> Seq<char> {
    types_joined(tys, " + "@)
}

/// One bound of a `where` clause: `Name: A + B,` and a line break.
pub open spec fn bound_line(b: Bound) -> Seq<char> {
    b.name@ + ": "@ + bound_rhs_text(b.bound@) + ",\n"@
}

/// The first `n` bounds of a `where` clause: the first one after a line
/// break and `where `, each later one under it on a line of its own.
pub open spec fn bound_lines(bs: Seq<Bound>, n: nat) -> Seq<char>
    decreases n,
{
    if n == 0 {
        Seq::empty()
    } else {
        let lead = if n == 1 { "\nwhere "@ } else { "      "@ };
        bound_lines(bs, (n - 1) as nat) + lead + bound_line(bs[n - 1])
    }
}

/// The `where` clause of a list of bounds; nothing when there is none.
pub open spec fn bounds_text(bs: Seq<Bound>) -> Seq<char> {
    bound_lines(bs, bs.len())
}

/// Generic names between `<` and `>`, separated by `, `; nothing for none.
pub open spec fn generics_text(gs: Seq<Seq<char>>) -> Seq<char> {
    if gs.len() == 0 {
        Seq::empty()
    } else {
        "<"@ + strs_joined(gs, ", "@) + ">"@
    }
}

/// Writes the types a bound requires, joined by ` + `.
pub fn fmt_bound_rhs(tys: &Vec<Type>, fmt: &mut Formatter)
    ensures
        final(fmt)@ == put_str(old(fmt)@, bound_rhs_text(tys@)),
{
    fmt_types(tys, " + ", fmt);
}

/// Writes the `where` clause of `bounds`, if there is any bound.
pub fn fmt_bounds(bounds: &Vec<Bound>, fmt: &mut Formatter)
    ensures
        final(fmt)@ == put_str(old(fmt)@, bounds_text(bounds@)),
{
    let mut i: usize = 0;
    while i < bounds.len()
        invariant
            i <= bounds.len(),
            fmt@ == put_str(old(fmt)@, bound_lines(bounds@, i as nat)),
        decreases bounds.len() - i,
    {
        let lead = if i == 0 { "\nwhere " } else { "      " };
        let b = &bounds[i];
        fmt.write(lead);
        fmt.write_string(&b.name);
        fmt.write(": ");
        fmt_bound_rhs(&b.bound, fmt);
        fmt.write(",\n");
        proof {
            let prev = bound_lines(bounds@, i as nat);
            let rhs = bound_rhs_text(b.bound@);
            lemma_put_str_concat(old(fmt)@, prev, lead@);
            lemma_put_str_concat(old(fmt)@, prev + lead@, b.name@);
            lemma_put_str_concat(old(fmt)@, prev + lead@ + b.name@, ": "@);
            lemma_put_str_concat(old(fmt)@, prev + lead@ + b.name@ + ": "@, rhs);
            lemma_put_str_concat(old(fmt)@, prev + lead@ + b.name@ + ": "@ + rhs, ",\n"@);
            assert(prev + lead@ + b.name@ + ": "@ + rhs + ",\n"@ =~= prev + lead@ + bound_line(*b));
        }
        i = i + 1;
    }
}

/// Writes generic names between `<` and `>`, if there is any.
pub fn fmt_generics(generics: &Vec<String>, fmt: &mut Formatter)
    ensures
        final(fmt)@ == put_str(old(fmt)@, generics_text(strs(generics@))),
{
    if generics.len() > 0 {
        fmt.write("<");
        fmt_strs_joined(generics, ", ", fmt);
        fmt.write(">");
        proof {
            let mid = strs_joined(strs(generics@), ", "@);
            lemma_put_str_concat(old(fmt)@, "<"@, mid);
            lemma_put_str_concat(old(fmt)@, "<"@ + mid, ">"@);
        }
    }
}

} // verus!
