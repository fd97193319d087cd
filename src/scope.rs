use vstd::prelude::*;

use crate::enums::{enum_out, Enum};
use crate::error::CodegenError;
use crate::formatter::{
    close_block_out, lemma_put_str_concat, open_block_out, push_char, put_str, FmtState, Formatter,
};
use crate::function::{bare_fn, fn_attrs_text, fn_height, fn_out, fn_valid, fns_height, fns_valid, Function};
use crate::impls::{impl_out, impl_run, Impl, ImplModel};
use crate::import::{import_line, Import};
use crate::structs::{bare_struct, struct_out, Struct};
use crate::traits::{bare_trait, trait_out, trait_run, Trait};
use crate::enums::bare_enum;
use crate::type_def::{opt_str, vis_text};
use crate::types::{ty_generics, ty_name, Type};

verus! {

broadcast use vstd::seq::group_seq_axioms, vstd::std_specs::vec::group_vec_axioms;

/// A declaration held by a scope.
#[derive(Debug)]
pub enum Item {
    Module(Module),
    Struct(Struct),
    Function(Function),
    Trait(Trait),
    Enum(Enum),
    Impl(Impl),
    /// Text written as it is.
    Raw(String),
}

/// A module: a name, a visibility and the scope it holds.
#[derive(Debug)]
pub struct Module {
    /// The module's name.
    pub name: String,
    vis: Option<String>,
    scope: Scope,
}

/// An ordered collection of imports and declarations, written as one unit.
#[derive(Debug)]
pub struct Scope {
    imports: Vec<Import>,
    items: Vec<Item>,
}

/// The declarations of a scope, in the order they were pushed.
pub closed spec fn scope_items(s: Scope) -> Seq<Item> {
    s.items@
}

/// The imports of a scope, in the order they were added.
pub closed spec fn scope_imports(s: Scope) -> Seq<Import> {
    s.imports@
}

/// The name of a module.
pub closed spec fn module_name(m: Module) -> Seq<char> {
    m.name@
}

/// The visibility of a module.
pub closed spec fn module_vis(m: Module) -> Option<Seq<char>> {
    opt_str(m.vis)
}

/// The scope a module holds.
pub closed spec fn module_scope(m: Module) -> Scope {
    m.scope
}

/// The import lines: `use path;` each.
pub open spec fn imports_text(v: Seq<Import>) -> Seq<char>
    decreases v.len(),
{
    if v.len() == 0 {
        Seq::empty()
    } else {
        imports_text(v.drop_last()) + "use "@ + import_line(v.last()) + ";\n"@
    }
}

/// What writing a scope does: its imports, a blank line after them if there
/// are any, then its declarations with a blank line between each two.
pub open spec fn scope_out(st: FmtState, s: Scope) -> FmtState
    decreases s, 0nat,
{
    let head = imports_text(scope_imports(s)) + if scope_imports(s).len() > 0 { "\n"@ } else { Seq::empty() };
    items_out(put_str(st, head), scope_items(s), scope_items(s).len())
}

/// What writing the first `n` declarations does, a blank line between each
/// two.
pub open spec fn items_out(st: FmtState, items: Seq<Item>, n: nat) -> FmtState
    decreases items, n,
{
    if n == 0 || n > items.len() {
        st
    } else {
        let prev = items_out(st, items, (n - 1) as nat);
        let sep = if n > 1 { put_str(prev, "\n"@) } else { prev };
        item_out(sep, items[n - 1])
    }
}

/// What writing one declaration does.
pub open spec fn item_out(st: FmtState, it: Item) -> FmtState
    decreases it, 0nat,
{
    match it {
        Item::Module(m) => module_out(st, m),
        Item::Struct(s) => struct_out(st, s@),
        Item::Function(f) => fn_out(st, f@),
        Item::Trait(t) => trait_out(st, t@),
        Item::Enum(e) => enum_out(st, e@),
        Item::Impl(i) => impl_out(st, i@),
        Item::Raw(r) => put_str(st, r@ + "\n"@),
    }
}

/// What writing a module does: its visibility, `mod` and its name, then a
/// block holding its scope.
pub open spec fn module_out(st: FmtState, m: Module) -> FmtState
    decreases m, 0nat,
{
    let s1 = put_str(st, vis_text(module_vis(m)) + "mod "@ + module_name(m));
    close_block_out(scope_out(open_block_out(s1), module_scope(m)))
}

/// What writing a scope does whether or not it can be written: as
/// `scope_out` up to the first declaration that cannot be written, which is
/// written as far as `item_run` says, and nothing after it.
pub open spec fn scope_run(st: FmtState, s: Scope) -> FmtState
    decreases s, 0nat,
{
    let head = imports_text(scope_imports(s)) + if scope_imports(s).len() > 0 {
        "\n"@
    } else {
        Seq::empty()
    };
    items_run(put_str(st, head), scope_items(s), scope_items(s).len())
}

/// What writing the first `n` declarations does, stopping after the first
/// that cannot be written.
pub open spec fn items_run(st: FmtState, items: Seq<Item>, n: nat) -> FmtState
    decreases items, n,
{
    if n == 0 || n > items.len() {
        st
    } else {
        let prev = items_run(st, items, (n - 1) as nat);
        if !items_valid(items, (n - 1) as nat) {
            prev
        } else {
            let sep = if n > 1 { put_str(prev, "\n"@) } else { prev };
            item_run(sep, items[n - 1])
        }
    }
}

/// What writing one declaration does whether or not it can be written: a
/// function without a body gets only its attribute lines, a trait or an
/// impl block stops at its first function that cannot be written but is
/// closed all the same, and a module closes its block after its scope.
pub open spec fn item_run(st: FmtState, it: Item) -> FmtState
    decreases it, 0nat,
{
    match it {
        Item::Module(m) => module_run(st, m),
        Item::Struct(s) => struct_out(st, s@),
        Item::Function(f) => if fn_valid(f@, false) {
            fn_out(st, f@)
        } else {
            put_str(st, fn_attrs_text(f@))
        },
        Item::Trait(t) => trait_run(st, t@),
        Item::Enum(e) => enum_out(st, e@),
        Item::Impl(i) => impl_run(st, i@),
        Item::Raw(r) => put_str(st, r@ + "\n"@),
    }
}

/// What writing a module does whether or not it can be written.
pub open spec fn module_run(st: FmtState, m: Module) -> FmtState
    decreases m, 0nat,
{
    let s1 = put_str(st, vis_text(module_vis(m)) + "mod "@ + module_name(m));
    close_block_out(scope_run(open_block_out(s1), module_scope(m)))
}

proof fn lemma_items_run_stuck(st: FmtState, items: Seq<Item>, i: int, n: nat)
    requires
        0 <= i < n <= items.len(),
        !item_valid(items[i]),
    ensures
        items_run(st, items, n) == items_run(st, items, (i + 1) as nat),
    decreases n,
{
    if n > i + 1 {
        lemma_items_run_stuck(st, items, i, (n - 1) as nat);
        if items_valid(items, (n - 1) as nat) {
            lemma_items_valid_prefix(items, (n - 1) as nat, (i + 1) as nat);
        }
    }
}

/// Every declaration of the scope can be written: no function of a trait
/// has a visibility, and every other function has a body.
pub open spec fn scope_valid(s: Scope) -> bool
    decreases s, 0nat,
{
    items_valid(scope_items(s), scope_items(s).len())
}

/// The first `n` declarations can be written.
pub open spec fn items_valid(items: Seq<Item>, n: nat) -> bool
    decreases items, n,
{
    if n == 0 || n > items.len() {
        true
    } else {
        items_valid(items, (n - 1) as nat) && item_valid(items[n - 1])
    }
}

/// A declaration can be written.
pub open spec fn item_valid(it: Item) -> bool
    decreases it, 0nat,
{
    match it {
        Item::Module(m) => scope_valid(module_scope(m)),
        Item::Function(f) => fn_valid(f@, false),
        Item::Trait(t) => fns_valid(t@.fns, true),
        Item::Impl(i) => fns_valid(i@.fns, false),
        _ => true,
    }
}

/// How deep the blocks of a scope nest.
pub open spec fn scope_height(s: Scope) -> nat
    decreases s, 0nat,
{
    items_height(scope_items(s), scope_items(s).len())
}

/// How deep the blocks of the first `n` declarations nest.
pub open spec fn items_height(items: Seq<Item>, n: nat) -> nat
    decreases items, n,
{
    if n == 0 || n > items.len() {
        0
    } else {
        let a = items_height(items, (n - 1) as nat);
        let b = item_height(items[n - 1]);
        if a >= b { a } else { b }
    }
}

/// How deep the blocks of a declaration nest.
pub open spec fn item_height(it: Item) -> nat
    decreases it, 0nat,
{
    match it {
        Item::Module(m) => 1 + scope_height(module_scope(m)),
        Item::Struct(_) => 1,
        Item::Function(f) => fn_height(f@),
        Item::Trait(t) => 1 + fns_height(t@.fns),
        Item::Enum(_) => 2,
        Item::Impl(i) => 1 + fns_height(i@.fns),
        Item::Raw(_) => 0,
    }
}

proof fn lemma_items_height(items: Seq<Item>, n: nat, i: int)
    requires
        0 <= i < n <= items.len(),
    ensures
        item_height(items[i]) <= items_height(items, n),
        items_height(items, i as nat) <= items_height(items, n),
    decreases n,
{
    if i < n - 1 {
        lemma_items_height(items, (n - 1) as nat, i);
    }
}

/// The error a declaration fails with when it cannot be written: a trait
/// fails on a function with a visibility, a module on the first of its
/// declarations that fails, anything else on a function without a body.
pub open spec fn item_error(it: Item) -> CodegenError
    decreases it, 0nat,
{
    match it {
        Item::Module(m) => scope_error(module_scope(m)),
        Item::Trait(_) => CodegenError::VisibilityInTrait,
        _ => CodegenError::MissingBody,
    }
}

/// The error of the first of the first `n` declarations, in push order, that
/// cannot be written.
pub open spec fn items_error(items: Seq<Item>, n: nat) -> CodegenError
    decreases items, n,
{
    if n == 0 || n > items.len() {
        CodegenError::MissingBody
    } else if !items_valid(items, (n - 1) as nat) {
        items_error(items, (n - 1) as nat)
    } else {
        item_error(items[n - 1])
    }
}

/// The error of the first declaration of a scope, in push order, that
/// cannot be written.
pub open spec fn scope_error(s: Scope) -> CodegenError
    decreases s, 1nat,
{
    items_error(scope_items(s), scope_items(s).len())
}

proof fn lemma_items_error(items: Seq<Item>, i: int, n: nat)
    requires
        0 <= i < n <= items.len(),
        items_valid(items, i as nat),
        !item_valid(items[i]),
    ensures
        !items_valid(items, n),
        items_error(items, n) == item_error(items[i]),
    decreases n,
{
    if n > i + 1 {
        lemma_items_error(items, i, (n - 1) as nat);
    }
}

impl Scope {
    /// Writes the scope as `scope_out` says. A declaration that cannot be
    /// written makes it fail; the depth is then as it was too.
    pub fn fmt(&self, fmt: &mut Formatter) -> (r: Result<(), CodegenError>)
        requires
            old(fmt)@.depth + scope_height(*self) <= usize::MAX,
        ensures
            final(fmt)@.depth == old(fmt)@.depth,
            r is Ok <==> scope_valid(*self),
            r is Err ==> r->Err_0 == scope_error(*self),
            r is Ok ==> final(fmt)@ == scope_out(old(fmt)@, *self),
            final(fmt)@ == scope_run(old(fmt)@, *self),
        decreases self, 1nat,
    {
        let ghost st = fmt@;
        let mut i: usize = 0;
        while i < self.imports.len()
            invariant
                i <= self.imports.len(),
                fmt@ == put_str(st, imports_text(self.imports@.take(i as int))),
            decreases self.imports.len() - i,
        {
            let ghost prev = imports_text(self.imports@.take(i as int));
            fmt.write("use ");
            fmt.write_string(self.imports[i].line());
            fmt.write(";\n");
            proof {
                let l = import_line(self.imports@[i as int]);
                lemma_put_str_concat(st, prev, "use "@);
                lemma_put_str_concat(st, prev + "use "@, l);
                lemma_put_str_concat(st, prev + "use "@ + l, ";\n"@);
                assert(self.imports@.take(i + 1).drop_last() =~= self.imports@.take(i as int));
            }
            i = i + 1;
        }
        assert(self.imports@.take(self.imports.len() as int) =~= self.imports@);
        let ghost it = imports_text(self.imports@);
        if self.imports.len() > 0 {
            fmt.write("\n");
            proof {
                lemma_put_str_concat(st, it, "\n"@);
            }
        } else {
            assert(it + Seq::<char>::empty() =~= it);
        }
        proof {
            crate::formatter::lemma_put_str_depth(
                st,
                it + if self.imports@.len() > 0 { "\n"@ } else { Seq::empty() },
            );
        }
        fmt_items(&self.items, fmt)
    }
}

/// Writes declarations one after the other, a blank line between each two.
fn fmt_items(items: &Vec<Item>, fmt: &mut Formatter) -> (r: Result<(), CodegenError>)
    requires
        old(fmt)@.depth + items_height(items@, items@.len()) <= usize::MAX,
    ensures
        final(fmt)@.depth == old(fmt)@.depth,
        r is Ok <==> items_valid(items@, items@.len()),
        r is Err ==> r->Err_0 == items_error(items@, items@.len()),
        r is Ok ==> final(fmt)@ == items_out(old(fmt)@, items@, items@.len()),
        final(fmt)@ == items_run(old(fmt)@, items@, items@.len()),
    decreases items, 0nat,
{
    let mut i: usize = 0;
    while i < items.len()
        invariant
            i <= items.len(),
            fmt@.depth == old(fmt)@.depth,
            old(fmt)@.depth + items_height(items@, items@.len()) <= usize::MAX,
            fmt@ == items_out(old(fmt)@, items@, i as nat),
            fmt@ == items_run(old(fmt)@, items@, i as nat),
            items_valid(items@, i as nat),
        decreases items.len() - i,
    {
        if i != 0 {
            fmt.write("\n");
        }
        proof {
            lemma_items_height(items@, items@.len(), i as int);
        }
        let r = items[i].fmt(fmt);
        if r.is_err() {
            proof {
                lemma_items_error(items@, i as int, items@.len());
                lemma_items_run_stuck(old(fmt)@, items@, i as int, items@.len());
            }
            return r;
        }
        i = i + 1;
    }
    Ok(())
}

proof fn lemma_items_valid_prefix(items: Seq<Item>, n: nat, k: nat)
    requires
        k <= n <= items.len(),
        items_valid(items, n),
    ensures
        items_valid(items, k),
    decreases n,
{
    if k < n {
        lemma_items_valid_prefix(items, (n - 1) as nat, k);
    }
}

impl Item {
    /// Writes the declaration as `item_out` says.
    pub fn fmt(&self, fmt: &mut Formatter) -> (r: Result<(), CodegenError>)
        requires
            old(fmt)@.depth + item_height(*self) <= usize::MAX,
        ensures
            final(fmt)@.depth == old(fmt)@.depth,
            r is Ok <==> item_valid(*self),
            r is Err ==> r->Err_0 == item_error(*self),
            r is Ok ==> final(fmt)@ == item_out(old(fmt)@, *self),
            final(fmt)@ == item_run(old(fmt)@, *self),
        decreases self, 0nat,
    {
        match self {
            Item::Module(m) => m.fmt(fmt),
            Item::Struct(s) => {
                s.fmt(fmt);
                Ok(())
            },
            Item::Function(f) => f.fmt(false, fmt),
            Item::Trait(t) => t.fmt(fmt),
            Item::Enum(e) => {
                e.fmt(fmt);
                Ok(())
            },
            Item::Impl(i) => i.fmt(fmt),
            Item::Raw(text) => {
                fmt.write_string(text);
                fmt.write("\n");
                proof {
                    lemma_put_str_concat(old(fmt)@, text@, "\n"@);
                }
                Ok(())
            },
        }
    }
}

impl Module {
    /// Writes the module as `module_out` says.
    pub fn fmt(&self, fmt: &mut Formatter) -> (r: Result<(), CodegenError>)
        requires
            old(fmt)@.depth + 1 + scope_height(module_scope(*self)) <= usize::MAX,
        ensures
            final(fmt)@.depth == old(fmt)@.depth,
            r is Ok <==> scope_valid(module_scope(*self)),
            r is Err ==> r->Err_0 == scope_error(module_scope(*self)),
            r is Ok ==> final(fmt)@ == module_out(old(fmt)@, *self),
            final(fmt)@ == module_run(old(fmt)@, *self),
        decreases self, 0nat,
    {
        if let Some(vis) = &self.vis {
            fmt.write_string(vis);
            fmt.write(" ");
            proof {
                lemma_put_str_concat(old(fmt)@, vis@, " "@);
            }
        }
        let ghost v = vis_text(opt_str(self.vis));
        assert(fmt@ == put_str(old(fmt)@, v)) by {
            if self.vis is None {
                assert(v =~= Seq::<char>::empty());
            }
        }
        fmt.write("mod ");
        fmt.write_string(&self.name);
        proof {
            lemma_put_str_concat(old(fmt)@, v, "mod "@);
            lemma_put_str_concat(old(fmt)@, v + "mod "@, self.name@);
        }
        fmt.open_block();
        let r = self.scope.fmt(fmt);
        fmt.close_block();
        r
    }
}

/// The declaration is a module of the given name.
pub open spec fn is_module_named(it: Item, name: Seq<char>) -> bool {
    it is Module && module_name(it->Module_0) == name
}

/// Where the first module of the given name stands among `items`, if any.
pub open spec fn find_module(items: Seq<Item>, name: Seq<char>) -> Option<int>
    decreases items.len(),
{
    if items.len() == 0 {
        None
    } else {
        match find_module(items.drop_last(), name) {
            Some(i) => Some(i),
            None => if is_module_named(items.last(), name) {
                Some(items.len() - 1)
            } else {
                None
            },
        }
    }
}

pub proof fn lemma_find_module(items: Seq<Item>, name: Seq<char>)
    ensures
        find_module(items, name) is None <==> forall|j: int|
            0 <= j < items.len() ==> !is_module_named(#[trigger] items[j], name),
        find_module(items, name) matches Some(i) ==> 0 <= i < items.len() && is_module_named(
            items[i],
            name,
        ) && forall|j: int| 0 <= j < i ==> !is_module_named(#[trigger] items[j], name),
    decreases items.len(),
{
    if items.len() > 0 {
        lemma_find_module(items.drop_last(), name);
        assert forall|j: int| 0 <= j < items.len() - 1 implies items.drop_last()[j] == items[j] by {}
    }
}

/// A module of the given name, with no visibility and an empty scope.
pub open spec fn bare_module(m: Module, name: Seq<char>) -> bool {
    &&& module_name(m) == name
    &&& module_vis(m) is None
    &&& scope_items(module_scope(m)).len() == 0
    &&& scope_imports(module_scope(m)).len() == 0
}

/// How one get-or-create call leaves the declarations: the first module of
/// that name, or a new one pushed at the end when there was none, now holds
/// `m`.
pub open spec fn get_or_new_post(before: Seq<Item>, after: Seq<Item>, name: Seq<char>, m: Module) -> bool {
    match find_module(before, name) {
        Some(i) => after == before.update(i, Item::Module(m)),
        None => after == before.push(Item::Module(m)),
    }
}

/// The text a scope renders to: what writing it from depth zero gives,
/// without its final line break.
pub open spec fn scope_string(s: Scope) -> Seq<char> {
    let t = scope_out(FmtState { text: Seq::empty(), depth: 0 }, s).text;
    if t.len() > 0 && t.last() == '\n' {
        t.drop_last()
    } else {
        t
    }
}

/// Relies on String::pop: takes off the last character, if there is one.
#[verifier::external_body]
fn pop_char(s: &mut String) -> (r: Option<char>)
    ensures
        old(s)@.len() == 0 ==> r is None && final(s)@ == old(s)@,
        old(s)@.len() > 0 ==> r == Some(old(s)@.last()) && final(s)@ == old(s)@.drop_last(),
{
    s.pop()
}

impl Scope {
    /// An empty scope.
    pub fn new() -> (r: Scope)
        ensures
            scope_items(r).len() == 0,
            scope_imports(r).len() == 0,
    {
        Scope { imports: Vec::new(), items: Vec::new() }
    }

    /// Adds an import of `ty` from `path` and hands it back.
    pub fn import(&mut self, path: &str, ty: &str) -> (r: &mut Import)
        ensures
            import_line(*r) == path@ + "::"@ + ty@,
            crate::import::import_vis(*r) is None,
            scope_items(*final(self)) == scope_items(*old(self)),
            scope_imports(*final(self)) == scope_imports(*old(self)).push(*final(r)),
    {
        self.imports.push(Import::new(path, ty));
        let n = self.imports.len();
        proof {
            let pushed = self.imports@;
            assert forall|x: Import| #[trigger] pushed.update(n - 1, x) == old(self).imports@.push(x) by {
                assert(pushed.update(n - 1, x) =~= old(self).imports@.push(x));
            }
        }
        &mut self.imports[n - 1]
    }

    fn find(&self, name: &str) -> (r: Option<usize>)
        ensures
            r matches Some(i) ==> find_module(scope_items(*self), name@) == Some(i as int),
            r is None ==> find_module(scope_items(*self), name@) is None,
    {
        let key = String::from_str(name);
        let mut i: usize = 0;
        while i < self.items.len()
            invariant
                i <= self.items.len(),
                key@ == name@,
                forall|j: int| 0 <= j < i ==> !is_module_named(#[trigger] self.items@[j], name@),
            decreases self.items.len() - i,
        {
            match &self.items[i] {
                Item::Module(m) => {
                    if m.name == key {
                        proof {
                            lemma_find_module(self.items@, name@);
                        }
                        return Some(i);
                    }
                },
                _ => {},
            }
            i = i + 1;
        }
        proof {
            lemma_find_module(self.items@, name@);
        }
        None
    }

    /// The first module of the given name, if there is one.
    pub fn get_module(&self, name: &str) -> (r: Option<&Module>)
        ensures
            find_module(scope_items(*self), name@) is None ==> r is None,
            find_module(scope_items(*self), name@) matches Some(i) ==> r is Some && *r->Some_0
                == scope_items(*self)[i]->Module_0,
    {
        proof {
            lemma_find_module(self.items@, name@);
        }
        match self.find(name) {
            Some(i) => match &self.items[i] {
                Item::Module(m) => Some(m),
                _ => None,
            },
            None => None,
        }
    }

    /// The first module of the given name, to change, if there is one.
    pub fn get_module_mut(&mut self, name: &str) -> (r: Option<&mut Module>)
        ensures
            find_module(scope_items(*old(self)), name@) is None ==> r is None && *final(self)
                == *old(self),
            find_module(scope_items(*old(self)), name@) matches Some(i) ==> r is Some
                && *r->Some_0 == scope_items(*old(self))[i]->Module_0 && scope_imports(*final(self))
                == scope_imports(*old(self)) && scope_items(*final(self)) == scope_items(
                *old(self),
            ).update(i, Item::Module(*final(r->Some_0))),
    {
        proof {
            lemma_find_module(self.items@, name@);
        }
        match self.find(name) {
            Some(i) => match &mut self.items[i] {
                Item::Module(m) => Some(m),
                _ => None,
            },
            None => None,
        }
    }

    /// The first module of the given name, made and pushed first if there
    /// is none; see `get_or_new_post`.
    pub fn get_or_new_module(&mut self, name: &str) -> (r: &mut Module)
        ensures
            find_module(scope_items(*old(self)), name@) matches Some(i) ==> *r == scope_items(
                *old(self),
            )[i]->Module_0,
            find_module(scope_items(*old(self)), name@) is None ==> bare_module(*r, name@),
            get_or_new_post(scope_items(*old(self)), scope_items(*final(self)), name@, *final(r)),
            scope_imports(*final(self)) == scope_imports(*old(self)),
    {
        proof {
            lemma_find_module(self.items@, name@);
        }
        match self.find(name) {
            Some(i) => match &mut self.items[i] {
                Item::Module(m) => m,
                _ => vstd::pervasive::unreached(),
            },
            None => self.push_new_module(name),
        }
    }

    fn push_new_module(&mut self, name: &str) -> (r: &mut Module)
        ensures
            bare_module(*r, name@),
            scope_items(*final(self)) == scope_items(*old(self)).push(Item::Module(*final(r))),
            scope_imports(*final(self)) == scope_imports(*old(self)),
    {
        self.items.push(Item::Module(Module::new(name)));
        let n = self.items.len();
        proof {
            let pushed = self.items@;
            assert forall|x: Module| #[trigger] pushed.update(n - 1, Item::Module(x))
                == old(self).items@.push(Item::Module(x)) by {
                assert(pushed.update(n - 1, Item::Module(x)) =~= old(self).items@.push(
                    Item::Module(x),
                ));
            }
        }
        match &mut self.items[n - 1] {
            Item::Module(m) => m,
            _ => vstd::pervasive::unreached(),
        }
    }

    /// Pushes a new module of the given name and hands it back. A scope
    /// that already holds a module of that name takes none: it is then left
    /// as it was.
    pub fn new_module(&mut self, name: &str) -> (r: Result<&mut Module, CodegenError>)
        ensures
            find_module(scope_items(*old(self)), name@) is Some ==> r is Err && r->Err_0
                == CodegenError::DuplicateModule && *final(self) == *old(self),
            find_module(scope_items(*old(self)), name@) is None ==> r is Ok && bare_module(
                *r->Ok_0,
                name@,
            ) && scope_items(*final(self)) == scope_items(*old(self)).push(
                Item::Module(*final(r->Ok_0)),
            ) && scope_imports(*final(self)) == scope_imports(*old(self)),
    {
        if self.find(name).is_some() {
            return Err(CodegenError::DuplicateModule);
        }
        Ok(self.push_new_module(name))
    }

    /// Pushes a module. A scope that already holds a module of that name
    /// takes none: it is then left as it was.
    pub fn push_module(&mut self, item: Module) -> (r: Result<&mut Self, CodegenError>)
        ensures
            find_module(scope_items(*old(self)), module_name(item)) is Some ==> r is Err && r->Err_0
                == CodegenError::DuplicateModule && *final(self) == *old(self),
            find_module(scope_items(*old(self)), module_name(item)) is None ==> r is Ok
                && scope_items(*r->Ok_0) == scope_items(*old(self)).push(Item::Module(item))
                && scope_imports(*r->Ok_0) == scope_imports(*old(self)) && *final(self) == *final(r->Ok_0),
    {
        if self.find(item.name.as_str()).is_some() {
            return Err(CodegenError::DuplicateModule);
        }
        self.items.push(Item::Module(item));
        Ok(self)
    }

    /// Pushes a new struct of the given name and hands it back.
    pub fn new_struct(&mut self, name: &str) -> (r: &mut Struct)
        ensures
            bare_struct(r@, name@),
            scope_items(*final(self)) == scope_items(*old(self)).push(Item::Struct(*final(r))),
            scope_imports(*final(self)) == scope_imports(*old(self)),
    {
        self.items.push(Item::Struct(Struct::new(name)));
        let n = self.items.len();
        proof {
            let pushed = self.items@;
            assert forall|x: Struct| #[trigger] pushed.update(n - 1, Item::Struct(x))
                == old(self).items@.push(Item::Struct(x)) by {
                assert(pushed.update(n - 1, Item::Struct(x)) =~= old(self).items@.push(
                    Item::Struct(x),
                ));
            }
        }
        match &mut self.items[n - 1] {
            Item::Struct(v) => v,
            _ => vstd::pervasive::unreached(),
        }
    }

    /// Pushes a struct.
    pub fn push_struct(&mut self, item: Struct) -> (r: &mut Self)
        ensures
            scope_items(*r) == scope_items(*old(self)).push(Item::Struct(item)),
            scope_imports(*r) == scope_imports(*old(self)),
            *final(self) == *final(r),
    {
        self.items.push(Item::Struct(item));
        self
    }

    /// Pushes a new function of the given name and hands it back.
    pub fn new_fn(&mut self, name: &str) -> (r: &mut Function)
        ensures
            bare_fn(r@, name@),
            scope_items(*final(self)) == scope_items(*old(self)).push(Item::Function(*final(r))),
            scope_imports(*final(self)) == scope_imports(*old(self)),
    {
        self.items.push(Item::Function(Function::new(name)));
        let n = self.items.len();
        proof {
            let pushed = self.items@;
            assert forall|x: Function| #[trigger] pushed.update(n - 1, Item::Function(x))
                == old(self).items@.push(Item::Function(x)) by {
                assert(pushed.update(n - 1, Item::Function(x)) =~= old(self).items@.push(
                    Item::Function(x),
                ));
            }
        }
        match &mut self.items[n - 1] {
            Item::Function(v) => v,
            _ => vstd::pervasive::unreached(),
        }
    }

    /// Pushes a function.
    pub fn push_fn(&mut self, item: Function) -> (r: &mut Self)
        ensures
            scope_items(*r) == scope_items(*old(self)).push(Item::Function(item)),
            scope_imports(*r) == scope_imports(*old(self)),
            *final(self) == *final(r),
    {
        self.items.push(Item::Function(item));
        self
    }

    /// Pushes a new trait of the given name and hands it back.
    pub fn new_trait(&mut self, name: &str) -> (r: &mut Trait)
        ensures
            bare_trait(r@, name@),
            scope_items(*final(self)) == scope_items(*old(self)).push(Item::Trait(*final(r))),
            scope_imports(*final(self)) == scope_imports(*old(self)),
    {
        self.items.push(Item::Trait(Trait::new(name)));
        let n = self.items.len();
        proof {
            let pushed = self.items@;
            assert forall|x: Trait| #[trigger] pushed.update(n - 1, Item::Trait(x))
                == old(self).items@.push(Item::Trait(x)) by {
                assert(pushed.update(n - 1, Item::Trait(x)) =~= old(self).items@.push(
                    Item::Trait(x),
                ));
            }
        }
        match &mut self.items[n - 1] {
            Item::Trait(v) => v,
            _ => vstd::pervasive::unreached(),
        }
    }

    /// Pushes a trait.
    pub fn push_trait(&mut self, item: Trait) -> (r: &mut Self)
        ensures
            scope_items(*r) == scope_items(*old(self)).push(Item::Trait(item)),
            scope_imports(*r) == scope_imports(*old(self)),
            *final(self) == *final(r),
    {
        self.items.push(Item::Trait(item));
        self
    }

    /// Pushes a new enum of the given name and hands it back.
    pub fn new_enum(&mut self, name: &str) -> (r: &mut Enum)
        ensures
            bare_enum(r@, name@),
            scope_items(*final(self)) == scope_items(*old(self)).push(Item::Enum(*final(r))),
            scope_imports(*final(self)) == scope_imports(*old(self)),
    {
        self.items.push(Item::Enum(Enum::new(name)));
        let n = self.items.len();
        proof {
            let pushed = self.items@;
            assert forall|x: Enum| #[trigger] pushed.update(n - 1, Item::Enum(x))
                == old(self).items@.push(Item::Enum(x)) by {
                assert(pushed.update(n - 1, Item::Enum(x)) =~= old(self).items@.push(
                    Item::Enum(x),
                ));
            }
        }
        match &mut self.items[n - 1] {
            Item::Enum(v) => v,
            _ => vstd::pervasive::unreached(),
        }
    }

    /// Pushes an enum.
    pub fn push_enum(&mut self, item: Enum) -> (r: &mut Self)
        ensures
            scope_items(*r) == scope_items(*old(self)).push(Item::Enum(item)),
            scope_imports(*r) == scope_imports(*old(self)),
            *final(self) == *final(r),
    {
        self.items.push(Item::Enum(item));
        self
    }

    /// Pushes a new impl block for the type of the given name and hands it
    /// back.
    pub fn new_impl(&mut self, target: &str) -> (r: &mut Impl)
        ensures
            ty_name(r@.target) == target@,
            ty_generics(r@.target).len() == 0,
            r@ == (ImplModel {
                target: r@.target,
                generics: Seq::empty(),
                impl_trait: None,
                assoc_tys: Seq::empty(),
                bounds: Seq::empty(),
                fns: Seq::empty(),
                macros: Seq::empty(),
            }),
            scope_items(*final(self)) == scope_items(*old(self)).push(Item::Impl(*final(r))),
            scope_imports(*final(self)) == scope_imports(*old(self)),
    {
        self.items.push(Item::Impl(Impl::new(Type::new(target))));
        let n = self.items.len();
        proof {
            let pushed = self.items@;
            assert forall|x: Impl| #[trigger] pushed.update(n - 1, Item::Impl(x))
                == old(self).items@.push(Item::Impl(x)) by {
                assert(pushed.update(n - 1, Item::Impl(x)) =~= old(self).items@.push(
                    Item::Impl(x),
                ));
            }
        }
        match &mut self.items[n - 1] {
            Item::Impl(v) => v,
            _ => vstd::pervasive::unreached(),
        }
    }

    /// Pushes an impl block.
    pub fn push_impl(&mut self, item: Impl) -> (r: &mut Self)
        ensures
            scope_items(*r) == scope_items(*old(self)).push(Item::Impl(item)),
            scope_imports(*r) == scope_imports(*old(self)),
            *final(self) == *final(r),
    {
        self.items.push(Item::Impl(item));
        self
    }

    /// Pushes text to be written as it is.
    pub fn raw(&mut self, val: &str) -> (r: &mut Self)
        ensures
            scope_items(*r).len() == scope_items(*old(self)).len() + 1,
            scope_items(*r).drop_last() == scope_items(*old(self)),
            scope_items(*r).last() is Raw,
            scope_items(*r).last()->Raw_0@ == val@,
            scope_imports(*r) == scope_imports(*old(self)),
            *final(self) == *final(r),
    {
        self.items.push(Item::Raw(String::from_str(val)));
        assert(self.items@.drop_last() =~= old(self).items@);
        self
    }

    /// The text of the scope, as `scope_string` says; fails where a
    /// declaration cannot be written.
    pub fn to_string(&self) -> (r: Result<String, CodegenError>)
        requires
            scope_height(*self) <= usize::MAX,
        ensures
            r is Ok <==> scope_valid(*self),
            r is Err ==> r->Err_0 == scope_error(*self),
            r is Ok ==> r->Ok_0@ == scope_string(*self),
    {
        let mut fmt = Formatter::new();
        assert(fmt@.text =~= Seq::<char>::empty());
        match self.fmt(&mut fmt) {
            Ok(()) => {},
            Err(e) => {
                return Err(e);
            },
        }
        let mut text = fmt.into_string();
        match pop_char(&mut text) {
            Some(c) => {
                if c != '\n' {
                    push_char(&mut text, c);
                }
            },
            None => {},
        }
        proof {
            let t = scope_out(FmtState { text: Seq::empty(), depth: 0 }, *self).text;
            if t.len() > 0 {
                assert(t.drop_last().push(t.last()) =~= t);
            }
        }
        Ok(text)
    }
}

impl Module {
    /// A module of the given name, empty.
    pub fn new(name: &str) -> (r: Module)
        ensures
            bare_module(r, name@),
    {
        Module { name: String::from_str(name), vis: None, scope: Scope::new() }
    }

    /// The scope the module holds, to change.
    pub fn scope(&mut self) -> (r: &mut Scope)
        ensures
            *r == module_scope(*old(self)),
            module_name(*final(self)) == module_name(*old(self)),
            module_vis(*final(self)) == module_vis(*old(self)),
            module_scope(*final(self)) == *final(r),
    {
        &mut self.scope
    }

    /// Sets the visibility.
    pub fn vis(&mut self, vis: &str) -> (r: &mut Self)
        ensures
            module_name(*r) == module_name(*old(self)),
            module_vis(*r) == Some(vis@),
            module_scope(*r) == module_scope(*old(self)),
            *final(self) == *final(r),
    {
        self.vis = Some(String::from_str(vis));
        self
    }

    /// Imports `ty` from `path` into the module's scope.
    pub fn import(&mut self, path: &str, ty: &str) -> (r: &mut Self)
        ensures
            module_name(*r) == module_name(*old(self)),
            module_vis(*r) == module_vis(*old(self)),
            scope_items(module_scope(*r)) == scope_items(module_scope(*old(self))),
            scope_imports(module_scope(*r)).len() == scope_imports(module_scope(*old(self))).len()
                + 1,
            scope_imports(module_scope(*r)).drop_last() == scope_imports(module_scope(*old(self))),
            import_line(scope_imports(module_scope(*r)).last()) == path@ + "::"@ + ty@,
            *final(self) == *final(r),
    {
        self.scope.import(path, ty);
        assert(self.scope.imports@.drop_last() =~= old(self).scope.imports@);
        self
    }

    /// Pushes a new module into the module's scope; see `Scope::new_module`.
    pub fn new_module(&mut self, name: &str) -> (r: Result<&mut Module, CodegenError>)
        ensures
            module_name(*final(self)) == module_name(*old(self)),
            module_vis(*final(self)) == module_vis(*old(self)),
            find_module(scope_items(module_scope(*old(self))), name@) is Some ==> r is Err
                && r->Err_0 == CodegenError::DuplicateModule && *final(self) == *old(self),
            find_module(scope_items(module_scope(*old(self))), name@) is None ==> r is Ok
                && bare_module(*r->Ok_0, name@) && scope_items(module_scope(*final(self)))
                == scope_items(module_scope(*old(self))).push(Item::Module(*final(r->Ok_0)))
                && scope_imports(module_scope(*final(self))) == scope_imports(
                module_scope(*old(self)),
            ),
    {
        self.scope.new_module(name)
    }

    /// The first module of the given name in the module's scope.
    pub fn get_module(&self, name: &str) -> (r: Option<&Module>)
        ensures
            find_module(scope_items(module_scope(*self)), name@) is None ==> r is None,
            find_module(scope_items(module_scope(*self)), name@) matches Some(i) ==> r is Some
                && *r->Some_0 == scope_items(module_scope(*self))[i]->Module_0,
    {
        self.scope.get_module(name)
    }

    /// The first module of the given name in the module's scope, to change.
    pub fn get_module_mut(&mut self, name: &str) -> (r: Option<&mut Module>)
        ensures
            module_name(*final(self)) == module_name(*old(self)),
            module_vis(*final(self)) == module_vis(*old(self)),
            find_module(scope_items(module_scope(*old(self))), name@) is None ==> r is None
                && *final(self) == *old(self),
            find_module(scope_items(module_scope(*old(self))), name@) matches Some(i) ==> r is Some
                && *r->Some_0 == scope_items(module_scope(*old(self)))[i]->Module_0
                && scope_imports(module_scope(*final(self))) == scope_imports(
                module_scope(*old(self)),
            ) && scope_items(module_scope(*final(self))) == scope_items(
                module_scope(*old(self)),
            ).update(i, Item::Module(*final(r->Some_0))),
    {
        self.scope.get_module_mut(name)
    }

    /// The first module of the given name in the module's scope, made first
    /// if there is none; see `Scope::get_or_new_module`.
    pub fn get_or_new_module(&mut self, name: &str) -> (r: &mut Module)
        ensures
            module_name(*final(self)) == module_name(*old(self)),
            module_vis(*final(self)) == module_vis(*old(self)),
            find_module(scope_items(module_scope(*old(self))), name@) matches Some(i) ==> *r
                == scope_items(module_scope(*old(self)))[i]->Module_0,
            find_module(scope_items(module_scope(*old(self))), name@) is None ==> bare_module(
                *r,
                name@,
            ),
            get_or_new_post(
                scope_items(module_scope(*old(self))),
                scope_items(module_scope(*final(self))),
                name@,
                *final(r),
            ),
            scope_imports(module_scope(*final(self))) == scope_imports(module_scope(*old(self))),
    {
        self.scope.get_or_new_module(name)
    }

    /// Pushes a module into the module's scope; see `Scope::push_module`.
    pub fn push_module(&mut self, item: Module) -> (r: Result<&mut Self, CodegenError>)
        ensures
            find_module(scope_items(module_scope(*old(self))), module_name(item)) is Some ==> r is Err
                && r->Err_0 == CodegenError::DuplicateModule && *final(self) == *old(self),
            find_module(scope_items(module_scope(*old(self))), module_name(item)) is None ==> r is Ok
                && module_name(*r->Ok_0) == module_name(*old(self)) && module_vis(*r->Ok_0)
                == module_vis(*old(self)) && scope_items(module_scope(*r->Ok_0)) == scope_items(
                module_scope(*old(self)),
            ).push(Item::Module(item)) && scope_imports(module_scope(*r->Ok_0)) == scope_imports(
                module_scope(*old(self)),
            ) && *final(self) == *final(r->Ok_0),
    {
        match self.scope.push_module(item) {
            Ok(_) => Ok(self),
            Err(e) => Err(e),
        }
    }

    /// Pushes a new struct into the module's scope and hands it back.
    pub fn new_struct(&mut self, name: &str) -> (r: &mut Struct)
        ensures
            bare_struct(r@, name@),
            module_name(*final(self)) == module_name(*old(self)),
            module_vis(*final(self)) == module_vis(*old(self)),
            scope_items(module_scope(*final(self))) == scope_items(module_scope(*old(self))).push(
                Item::Struct(*final(r)),
            ),
            scope_imports(module_scope(*final(self))) == scope_imports(module_scope(*old(self))),
    {
        self.scope.new_struct(name)
    }

    /// Pushes a struct into the module's scope.
    pub fn push_struct(&mut self, item: Struct) -> (r: &mut Self)
        ensures
            module_name(*r) == module_name(*old(self)),
            module_vis(*r) == module_vis(*old(self)),
            scope_items(module_scope(*r)) == scope_items(module_scope(*old(self))).push(
                Item::Struct(item),
            ),
            scope_imports(module_scope(*r)) == scope_imports(module_scope(*old(self))),
            *final(self) == *final(r),
    {
        self.scope.push_struct(item);
        self
    }

    /// Pushes a new function into the module's scope and hands it back.
    pub fn new_fn(&mut self, name: &str) -> (r: &mut Function)
        ensures
            bare_fn(r@, name@),
            module_name(*final(self)) == module_name(*old(self)),
            module_vis(*final(self)) == module_vis(*old(self)),
            scope_items(module_scope(*final(self))) == scope_items(module_scope(*old(self))).push(
                Item::Function(*final(r)),
            ),
            scope_imports(module_scope(*final(self))) == scope_imports(module_scope(*old(self))),
    {
        self.scope.new_fn(name)
    }

    /// Pushes a function into the module's scope.
    pub fn push_fn(&mut self, item: Function) -> (r: &mut Self)
        ensures
            module_name(*r) == module_name(*old(self)),
            module_vis(*r) == module_vis(*old(self)),
            scope_items(module_scope(*r)) == scope_items(module_scope(*old(self))).push(
                Item::Function(item),
            ),
            scope_imports(module_scope(*r)) == scope_imports(module_scope(*old(self))),
            *final(self) == *final(r),
    {
        self.scope.push_fn(item);
        self
    }

    /// Pushes a new enum into the module's scope and hands it back.
    pub fn new_enum(&mut self, name: &str) -> (r: &mut Enum)
        ensures
            bare_enum(r@, name@),
            module_name(*final(self)) == module_name(*old(self)),
            module_vis(*final(self)) == module_vis(*old(self)),
            scope_items(module_scope(*final(self))) == scope_items(module_scope(*old(self))).push(
                Item::Enum(*final(r)),
            ),
            scope_imports(module_scope(*final(self))) == scope_imports(module_scope(*old(self))),
    {
        self.scope.new_enum(name)
    }

    /// Pushes an enum into the module's scope.
    pub fn push_enum(&mut self, item: Enum) -> (r: &mut Self)
        ensures
            module_name(*r) == module_name(*old(self)),
            module_vis(*r) == module_vis(*old(self)),
            scope_items(module_scope(*r)) == scope_items(module_scope(*old(self))).push(
                Item::Enum(item),
            ),
            scope_imports(module_scope(*r)) == scope_imports(module_scope(*old(self))),
            *final(self) == *final(r),
    {
        self.scope.push_enum(item);
        self
    }

    /// Pushes a new impl block into the module's scope and hands it back.
    pub fn new_impl(&mut self, target: &str) -> (r: &mut Impl)
        ensures
            ty_name(r@.target) == target@,
            ty_generics(r@.target).len() == 0,
            r@ == (ImplModel {
                target: r@.target,
                generics: Seq::empty(),
                impl_trait: None,
                assoc_tys: Seq::empty(),
                bounds: Seq::empty(),
                fns: Seq::empty(),
                macros: Seq::empty(),
            }),
            module_name(*final(self)) == module_name(*old(self)),
            module_vis(*final(self)) == module_vis(*old(self)),
            scope_items(module_scope(*final(self))) == scope_items(module_scope(*old(self))).push(
                Item::Impl(*final(r)),
            ),
            scope_imports(module_scope(*final(self))) == scope_imports(module_scope(*old(self))),
    {
        self.scope.new_impl(target)
    }

    /// Pushes an impl block into the module's scope.
    pub fn push_impl(&mut self, item: Impl) -> (r: &mut Self)
        ensures
            module_name(*r) == module_name(*old(self)),
            module_vis(*r) == module_vis(*old(self)),
            scope_items(module_scope(*r)) == scope_items(module_scope(*old(self))).push(
                Item::Impl(item),
            ),
            scope_imports(module_scope(*r)) == scope_imports(module_scope(*old(self))),
            *final(self) == *final(r),
    {
        self.scope.push_impl(item);
        self
    }

    /// Pushes a trait into the module's scope.
    pub fn push_trait(&mut self, item: Trait) -> (r: &mut Self)
        ensures
            module_name(*r) == module_name(*old(self)),
            module_vis(*r) == module_vis(*old(self)),
            scope_items(module_scope(*r)) == scope_items(module_scope(*old(self))).push(
                Item::Trait(item),
            ),
            scope_imports(module_scope(*r)) == scope_imports(module_scope(*old(self))),
            *final(self) == *final(r),
    {
        self.scope.push_trait(item);
        self
    }
}

proof fn lemma_find_module_first(items: Seq<Item>, name: Seq<char>, i: int)
    requires
        0 <= i < items.len(),
        is_module_named(items[i], name),
        forall|j: int| 0 <= j < i ==> !is_module_named(#[trigger] items[j], name),
    ensures
        find_module(items, name) == Some(i),
{
    lemma_find_module(items, name);
    let k = find_module(items, name)->0;
    if k < i {
        assert(!is_module_named(items[k], name));
    }
    if k > i {
        assert(!is_module_named(items[i], name));
    }
}

/// Two get-or-create calls with one name reach one module: the second
/// pushes nothing and hands back, at the same place, the module that the
/// first one left there, so what was done through the first is seen
/// through the second. This holds while the first handle keeps the name.
pub proof fn law_get_or_new_module_idempotent(
    s0: Seq<Item>,
    s1: Seq<Item>,
    s2: Seq<Item>,
    name: Seq<char>,
    a: Module,
    b: Module,
)
    requires
        get_or_new_post(s0, s1, name, a),
        get_or_new_post(s1, s2, name, b),
        module_name(a) == name,
    ensures
        find_module(s1, name) is Some,
        s1[find_module(s1, name)->0] == Item::Module(a),
        s2.len() == s1.len(),
        s2 == s1.update(find_module(s1, name)->0, Item::Module(b)),
{
    lemma_find_module(s0, name);
    match find_module(s0, name) {
        Some(i) => {
            assert forall|j: int| 0 <= j < i implies !is_module_named(#[trigger] s1[j], name) by {
                assert(s1[j] == s0[j]);
            }
            lemma_find_module_first(s1, name, i);
        },
        None => {
            let i = s0.len() as int;
            assert forall|j: int| 0 <= j < i implies !is_module_named(#[trigger] s1[j], name) by {
                assert(s1[j] == s0[j]);
            }
            lemma_find_module_first(s1, name, i);
        },
    }
}

/// Rendering is a function of the scope alone: rendering one scope twice
/// to text gives the same text both times.
pub proof fn law_render_twice_same(s: Scope, first: Seq<char>, second: Seq<char>)
    requires
        first == scope_string(s),
        second == scope_string(s),
    ensures
        first == second,
{
}

/// Rendering keeps the indentation balanced: whatever a scope holds,
/// writing it leaves the depth where it found it, so a full render starts
/// and ends at depth zero.
pub proof fn law_render_depth_balanced(st: FmtState, s: Scope)
    ensures
        scope_out(st, s).depth == st.depth,
    decreases s, 0nat,
{
    let head = imports_text(s.imports@) + if s.imports@.len() > 0 { "\n"@ } else { Seq::empty() };
    crate::formatter::lemma_put_str_depth(st, head);
    lemma_items_out_depth(put_str(st, head), s.items@, s.items@.len());
}

proof fn lemma_items_out_depth(st: FmtState, items: Seq<Item>, n: nat)
    ensures
        items_out(st, items, n).depth == st.depth,
    decreases items, n,
{
    if n > 0 && n <= items.len() {
        lemma_items_out_depth(st, items, (n - 1) as nat);
        let prev = items_out(st, items, (n - 1) as nat);
        crate::formatter::lemma_put_str_depth(prev, "\n"@);
        let sep = if n > 1 { put_str(prev, "\n"@) } else { prev };
        lemma_item_out_depth(sep, items[n - 1]);
    }
}

proof fn lemma_item_out_depth(st: FmtState, it: Item)
    ensures
        item_out(st, it).depth == st.depth,
    decreases it, 0nat,
{
    match it {
        Item::Module(m) => lemma_module_out_depth(st, m),
        Item::Struct(x) => crate::structs::lemma_struct_out_depth(st, x@),
        Item::Function(f) => crate::function::lemma_fn_out_depth(st, f@),
        Item::Trait(t) => crate::traits::lemma_trait_out_depth(st, t@),
        Item::Enum(e) => crate::enums::lemma_enum_out_depth(st, e@),
        Item::Impl(i) => crate::impls::lemma_impl_out_depth(st, i@),
        Item::Raw(r) => crate::formatter::lemma_put_str_depth(st, r@ + "\n"@),
    }
}

proof fn lemma_module_out_depth(st: FmtState, m: Module)
    ensures
        module_out(st, m).depth == st.depth,
    decreases m, 0nat,
{
    let t = vis_text(opt_str(m.vis)) + "mod "@ + m.name@;
    crate::formatter::lemma_put_str_depth(st, t);
    let s1 = put_str(st, t);
    crate::formatter::lemma_block_depth(s1);
    law_render_depth_balanced(open_block_out(s1), m.scope);
    crate::formatter::lemma_block_depth(scope_out(open_block_out(s1), m.scope));
}

proof fn lemma_items_prefix(items: Seq<Item>, more: Seq<Item>, n: nat)
    requires
        n <= items.len(),
    ensures
        items_height(items + more, n) == items_height(items, n),
        items_valid(items + more, n) == items_valid(items, n),
        items_error(items + more, n) == items_error(items, n),
    decreases n,
{
    if n > 0 {
        lemma_items_prefix(items, more, (n - 1) as nat);
        assert((items + more)[n - 1] == items[n - 1]);
    }
}

/// Pushing a declaration onto a scope's declarations: they nest as deep as
/// before or as the new one, whichever is deeper, and can be written exactly
/// when the earlier ones and the new one can.
pub proof fn lemma_items_push(items: Seq<Item>, it: Item)
    ensures
        items_height(items.push(it), items.len() + 1) == (if items_height(items, items.len())
            >= item_height(it) {
            items_height(items, items.len())
        } else {
            item_height(it)
        }),
        items_valid(items.push(it), items.len() + 1) == (items_valid(items, items.len())
            && item_valid(it)),
{
    lemma_items_prefix(items, seq![it], items.len());
    assert(items + seq![it] =~= items.push(it));
    assert(items.push(it)[items.len() as int] == it);
}

/// Rendering is a function of the scope and of where the formatter stands:
/// two renders of one scope from equal formatter states end in equal states
/// with equal results, whether they succeed or fail.
pub proof fn law_render_deterministic(
    s: Scope,
    st: FmtState,
    a: FmtState,
    b: FmtState,
    ra: Result<(), CodegenError>,
    rb: Result<(), CodegenError>,
)
    requires
        a == scope_run(st, s),
        b == scope_run(st, s),
        ra is Ok <==> scope_valid(s),
        rb is Ok <==> scope_valid(s),
        ra is Err ==> ra->Err_0 == scope_error(s),
        rb is Err ==> rb->Err_0 == scope_error(s),
    ensures
        a == b,
        ra == rb,
{
    if ra is Ok {
        let u: () = ra->Ok_0;
        let v: () = rb->Ok_0;
        assert(u == v);
    }
}

} // verus!
