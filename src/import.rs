use vstd::prelude::*;

verus! {

/// A `use` item: a path to a type.
#[derive(Debug)]
pub struct Import {
    line: String,
    /// Visibility; kept, but not written.
    pub vis: Option<String>,
}

/// The path an import brings in.
pub closed spec fn import_line(i: Import) -> Seq<char> {
    i.line@
}

/// The visibility an import carries.
pub closed spec fn import_vis(i: Import) -> Option<String> {
    i.vis
}

impl Import {
    /// An import of `ty` from `path`: `path::ty`.
    pub fn new(path: &str, ty: &str) -> (r: Import)
        ensures
            import_line(r) == path@ + "::"@ + ty@,
            import_vis(r) is None,
    {
        let mut line = String::from_str(path);
        line.append("::");
        line.append(ty);
        Import { line, vis: None }
    }

    /// The path the import brings in.
    pub fn line(&self) -> (r: &String)
        ensures
            r@ == import_line(*self),
    {
        &self.line
    }

    /// Sets the visibility.
    pub fn vis(&mut self, vis: &str) -> (r: &mut Self)
        ensures
            import_line(*r) == import_line(*old(self)),
            import_vis(*r) is Some,
            import_vis(*r)->0@ == vis@,
            *final(self) == *final(r),
    {
        self.vis = Some(String::from_str(vis));
        self
    }
}

} // verus!
