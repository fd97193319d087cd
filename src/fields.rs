use vstd::prelude::*;

use crate::error::CodegenError;
use crate::field::Field;
use crate::formatter::{
    lemma_block_depth, lemma_put_str_depth,
    close_block_out, fmt_wrapped_lines, lemma_put_str_concat, open_block_out, put_str, strs,
    wrapped_lines, FmtState, Formatter,
};
use crate::types::{fmt_types, type_text, types_joined, Type};

verus! {

/// The fields of a struct or of an enum variant: none yet, positional, or
/// named. Once positional or named, the fields stay of that kind.
#[derive(Debug)]
pub enum Fields {
    /// No field yet.
    Empty,
    /// Positional fields.
    Tuple(Vec<Type>),
    /// Named fields.
    Named(Vec<Field>),
}

/// The named fields held, none unless the fields are named.
pub open spec fn named_of(f: Fields) -> Seq<Field> {
    match f {
        Fields::Named(v) => v@,
        _ => Seq::empty(),
    }
}

/// The positional fields held, none unless the fields are positional.
pub open spec fn tuple_of(f: Fields) -> Seq<Type> {
    match f {
        Fields::Tuple(v) => v@,
        _ => Seq::empty(),
    }
}

/// `after` is `before` with one more field, of the given name and type and
/// without documentation or annotations.
pub open spec fn named_pushed(before: Seq<Field>, after: Seq<Field>, name: Seq<char>, ty: Type) -> bool {
    &&& after.len() == before.len() + 1
    &&& after.drop_last() == before
    &&& after.last().name@ == name
    &&& after.last().ty == ty
    &&& after.last().documentation@.len() == 0
    &&& after.last().annotation@.len() == 0
}

/// How one named field reads, on lines of its own: its documentation lines
/// as they are, its annotation lines, then `name: Type,`.
pub open spec fn field_text(f: Field) -> Seq<char> {
    wrapped_lines(strs(f.documentation@), ""@, "\n"@) + wrapped_lines(
        strs(f.annotation@),
        ""@,
        "\n"@,
    ) + f.name@ + ": "@ + type_text(f.ty) + ",\n"@
}

/// Named fields, one after the other.
pub open spec fn field_list_text(fs: Seq<Field>) -> Seq<char>
    decreases fs.len(),
{
    if fs.len() == 0 {
        Seq::empty()
    } else {
        field_list_text(fs.drop_last()) + field_text(fs.last())
    }
}

/// Positional fields between parentheses, separated by `, `.
pub open spec fn tuple_text(tys: Seq<Type>) -> Seq<char> {
    "("@ + types_joined(tys, ", "@) + ")"@
}

/// What writing the fields does: nothing for none, positional fields in
/// parentheses, named fields in a block.
pub open spec fn fields_out(st: FmtState, f: Fields) -> FmtState {
    match f {
        Fields::Empty => st,
        Fields::Tuple(tys) => put_str(st, tuple_text(tys@)),
        Fields::Named(fs) => close_block_out(put_str(open_block_out(st), field_list_text(fs@))),
    }
}

/// Writes named fields one after the other.
pub fn fmt_field_list(fs: &Vec<Field>, fmt: &mut Formatter)
    ensures
        final(fmt)@ == put_str(old(fmt)@, field_list_text(fs@)),
        final(fmt)@.depth == old(fmt)@.depth,
{
    let mut i: usize = 0;
    while i < fs.len()
        invariant
            i <= fs.len(),
            fmt@ == put_str(old(fmt)@, field_list_text(fs@.take(i as int))),
            fmt@.depth == old(fmt)@.depth,
        decreases fs.len() - i,
    {
        let f = &fs[i];
        fmt_wrapped_lines(&f.documentation, "", "\n", fmt);
        fmt_wrapped_lines(&f.annotation, "", "\n", fmt);
        fmt.write_string(&f.name);
        fmt.write(": ");
        f.ty.fmt(fmt);
        fmt.write(",\n");
        proof {
            let prev = field_list_text(fs@.take(i as int));
            let docs = wrapped_lines(strs(f.documentation@), ""@, "\n"@);
            let anns = wrapped_lines(strs(f.annotation@), ""@, "\n"@);
            let t = type_text(f.ty);
            let st = old(fmt)@;
            lemma_put_str_concat(st, prev, docs);
            lemma_put_str_concat(st, prev + docs, anns);
            lemma_put_str_concat(st, prev + docs + anns, f.name@);
            lemma_put_str_concat(st, prev + docs + anns + f.name@, ": "@);
            lemma_put_str_concat(st, prev + docs + anns + f.name@ + ": "@, t);
            lemma_put_str_concat(st, prev + docs + anns + f.name@ + ": "@ + t, ",\n"@);
            assert(fs@.take(i + 1).drop_last() =~= fs@.take(i as int));
            assert(prev + docs + anns + f.name@ + ": "@ + t + ",\n"@ =~= prev + field_text(*f));
            crate::formatter::lemma_put_str_depth(st, prev + field_text(*f));
        }
        i = i + 1;
    }
    assert(fs@.take(fs.len() as int) =~= fs@);
}

impl Fields {
    /// Pushes a named field. Positional fields take no named one: they are
    /// then left as they were.
    pub fn push_named(&mut self, field: Field) -> (r: Result<&mut Self, CodegenError>)
        ensures
            (*old(self) is Tuple) ==> r is Err && r->Err_0 == CodegenError::FieldModeConflict
                && *final(self) == *old(self),
            !(*old(self) is Tuple) ==> r is Ok && *r->Ok_0 is Named && named_of(*r->Ok_0)
                == named_of(*old(self)).push(field) && *final(self) == *final(r->Ok_0),
    {
        match self {
            Fields::Tuple(_) => {
                return Err(CodegenError::FieldModeConflict);
            },
            Fields::Empty => {
                *self = Fields::Named(vec![field]);
                assert(named_of(*self) =~= seq![field]);
            },
            Fields::Named(fields) => {
                fields.push(field);
            },
        }
        Ok(self)
    }

    /// Pushes a named field of the given name and type.
    pub fn named(&mut self, name: &str, ty: Type) -> (r: Result<&mut Self, CodegenError>)
        ensures
            (*old(self) is Tuple) ==> r is Err && r->Err_0 == CodegenError::FieldModeConflict
                && *final(self) == *old(self),
            !(*old(self) is Tuple) ==> r is Ok && *r->Ok_0 is Named && named_pushed(
                named_of(*old(self)),
                named_of(*r->Ok_0),
                name@,
                ty,
            ) && *final(self) == *final(r->Ok_0),
    {
        let field = Field::new(name, ty);
        let ghost f = field;
        let r = self.push_named(field);
        proof {
            if r is Ok {
                assert(named_of(*r->Ok_0).drop_last() =~= named_of(*old(self)));
                assert(named_of(*r->Ok_0).last() == f);
            }
        }
        r
    }

    /// Pushes a positional field. Named fields take no positional one: they
    /// are then left as they were.
    pub fn tuple(&mut self, ty: Type) -> (r: Result<&mut Self, CodegenError>)
        ensures
            (*old(self) is Named) ==> r is Err && r->Err_0 == CodegenError::FieldModeConflict
                && *final(self) == *old(self),
            !(*old(self) is Named) ==> r is Ok && *r->Ok_0 is Tuple && tuple_of(*r->Ok_0)
                == tuple_of(*old(self)).push(ty) && *final(self) == *final(r->Ok_0),
    {
        match self {
            Fields::Named(_) => {
                return Err(CodegenError::FieldModeConflict);
            },
            Fields::Empty => {
                *self = Fields::Tuple(vec![ty]);
                assert(tuple_of(*self) =~= seq![ty]);
            },
            Fields::Tuple(tys) => {
                tys.push(ty);
            },
        }
        Ok(self)
    }

    /// Writes the fields: nothing for none, positional fields in
    /// parentheses, named fields in a block.
    pub fn fmt(&self, fmt: &mut Formatter)
        requires
            old(fmt)@.depth < usize::MAX,
        ensures
            final(fmt)@ == fields_out(old(fmt)@, *self),
            final(fmt)@.depth == old(fmt)@.depth,
    {
        match self {
            Fields::Named(fields) => {
                fmt.open_block();
                fmt_field_list(fields, fmt);
                fmt.close_block();
            },
            Fields::Tuple(tys) => {
                fmt.write("(");
                fmt_types(tys, ", ", fmt);
                fmt.write(")");
                proof {
                    let mid = types_joined(tys@, ", "@);
                    lemma_put_str_concat(old(fmt)@, "("@, mid);
                    lemma_put_str_concat(old(fmt)@, "("@ + mid, ")"@);
                    crate::formatter::lemma_put_str_depth(old(fmt)@, tuple_text(tys@));
                }
            },
            Fields::Empty => {},
        }
    }
}

pub proof fn lemma_fields_out_depth(st: FmtState, f: Fields)
    ensures
        fields_out(st, f).depth == st.depth,
{
    match f {
        Fields::Named(fs) => {
            let s1 = open_block_out(st);
            lemma_block_depth(st);
            lemma_put_str_depth(s1, field_list_text(fs@));
            lemma_block_depth(put_str(s1, field_list_text(fs@)));
        },
        Fields::Tuple(tys) => {
            lemma_put_str_depth(st, tuple_text(tys@));
        },
        Fields::Empty => {},
    }
}

} // verus!
