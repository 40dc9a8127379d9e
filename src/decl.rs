//! The parsed form of one native function declaration.
use vstd::prelude::*;

verus! {

/// One parameter: its name and its type spelling.
pub struct Argument {
    pub name: String,
    pub ty: String,
}

/// One native function signature slated for wrapper generation.
pub struct Declaration {
    pub name: String,
    pub is_public: bool,
    /// Doc-comment lines, trimmed, passed through verbatim.
    pub doc_lines: Vec<String>,
    /// Attribute lines, trimmed, passed through verbatim.
    pub attribute_lines: Vec<String>,
    pub arguments: Vec<Argument>,
    /// `None` when the function returns no value.
    pub return_type: Option<String>,
    /// The generic parameter written between angle brackets after the name.
    pub lifetime: Option<String>,
}

/// Mathematical model of a `Declaration`.
pub struct DeclModel {
    pub name: Seq<char>,
    pub is_public: bool,
    pub docs: Seq<Seq<char>>,
    pub attrs: Seq<Seq<char>>,
    /// (name, type spelling) pairs, in declaration order.
    pub args: Seq<(Seq<char>, Seq<char>)>,
    pub ret: Option<Seq<char>>,
    pub lifetime: Option<Seq<char>>,
}

pub open spec fn strings_view(v: Seq<String>) -> Seq<Seq<char>> {
    v.map_values(|s: String| s@)
}

pub open spec fn opt_view(o: Option<String>) -> Option<Seq<char>> {
    match o {
        Some(s) => Some(s@),
        None => None,
    }
}

impl View for Argument {
    type V = (Seq<char>, Seq<char>);

    open spec fn view(&self) -> (Seq<char>, Seq<char>) {
        (self.name@, self.ty@)
    }
}

impl View for Declaration {
    type V = DeclModel;

    open spec fn view(&self) -> DeclModel {
        DeclModel {
            name: self.name@,
            is_public: self.is_public,
            docs: strings_view(self.doc_lines@),
            attrs: strings_view(self.attribute_lines@),
            args: self.arguments@.map_values(|a: Argument| a@),
            ret: opt_view(self.return_type),
            lifetime: opt_view(self.lifetime),
        }
    }
}

pub open spec fn decls_view(v: Seq<Declaration>) -> Seq<DeclModel> {
    v.map_values(|d: Declaration| d@)
}

} // verus!
