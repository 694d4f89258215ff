//! The symbol table of a build artifact and the lookup of a function's
//! symbols in it.

use vstd::prelude::*;
use crate::error::ReloadError;
use crate::text::{has_marker_segment, is_marker_path, marker_name, marker_of, starts_with};

verus! {

/// The readable form that `rustc_demangle` gives to a mangled symbol name.
pub uninterp spec fn demangled(mangled: Seq<char>) -> Seq<char>;

/// Calls `rustc_demangle::demangle` and renders what it returns. Trusted: the
/// text is the one that the crate gives for this name, the same on every call.
#[verifier::external_body]
fn demangle(mangled: &str) -> (readable: String)
    ensures
        readable@ == demangled(mangled@),
{
    rustc_demangle::demangle(mangled).to_string()
}

/// An artifact that `symbolic` has parsed.
#[verifier::external_type_specification]
#[verifier::external_body]
pub struct ExObject<'data>(symbolic::debuginfo::Object<'data>);

/// The error with which `symbolic` refuses an artifact.
#[verifier::external_type_specification]
#[verifier::external_body]
pub struct ExObjectError(symbolic::debuginfo::ObjectError);

/// The names of the symbols that a parsed artifact holds, in the order of
/// its symbol table, with `None` in the place of a symbol without a name.
pub uninterp spec fn object_symbols(object: &symbolic::debuginfo::Object) -> Seq<
    Option<Seq<char>>,
>;

/// The names of the symbols of the artifact with the bytes `image`, as
/// `symbolic` reads them; `None` where it cannot parse the artifact.
pub uninterp spec fn artifact_symbols(image: Seq<u8>) -> Option<Seq<Option<Seq<char>>>>;

/// The names that a list of optional strings holds, as plain values.
pub open spec fn names_view(names: Seq<Option<String>>) -> Seq<Option<Seq<char>>> {
    Seq::new(
        names.len(),
        |i: int|
            match names[i] {
                Some(name) => Some(name@),
                None => None,
            },
    )
}

/// Calls `symbolic::debuginfo::Object::parse`. Trusted: whether the artifact
/// parses, and what symbols the parsed artifact holds, depends on the bytes
/// alone.
#[verifier::external_body]
fn parse_object<'data>(image: &'data [u8]) -> (parsed: Result<
    symbolic::debuginfo::Object<'data>,
    symbolic::debuginfo::ObjectError,
>)
    ensures
        match parsed {
            Ok(object) => artifact_symbols(image@) == Some(object_symbols(&object)),
            Err(_) => artifact_symbols(image@) is None,
        },
{
    symbolic::debuginfo::Object::parse(image)
}

/// Walks the symbols of a parsed artifact with `Object::symbols` and copies
/// the name of each. Trusted: the names come one for each symbol, in the
/// order of the symbol table.
#[verifier::external_body]
fn symbol_names(object: &symbolic::debuginfo::Object) -> (names: Vec<Option<String>>)
    ensures
        names_view(names@) == object_symbols(object),
{
    object.symbols().map(|symbol| symbol.name().map(|name| name.to_string())).collect()
}

/// A symbol as plain values: its name as the artifact holds it and the
/// readable form of that name.
pub struct SymbolView {
    pub mangled: Seq<char>,
    pub demangled: Seq<char>,
}

/// One entry of a symbol table.
#[derive(Clone, Debug, PartialEq, Eq)]
pub struct DemangledSymbol {
    pub mangled: String,
    pub demangled: String,
}

impl View for DemangledSymbol {
    type V = SymbolView;

    open spec fn view(&self) -> SymbolView {
        SymbolView { mangled: self.mangled@, demangled: self.demangled@ }
    }
}

/// The symbol table of one artifact, in the artifact's order.
#[derive(Clone, Debug, PartialEq, Eq)]
pub struct Debuginfo {
    pub symbols: Vec<DemangledSymbol>,
}

impl View for Debuginfo {
    type V = Seq<SymbolView>;

    open spec fn view(&self) -> Seq<SymbolView> {
        Seq::new(self.symbols@.len(), |i: int| self.symbols@[i]@)
    }
}

/// The entry that a symbol name gives, if the symbol has a name.
pub open spec fn entry_of(name: Option<Seq<char>>) -> Option<SymbolView> {
    match name {
        Some(mangled) => Some(SymbolView { mangled, demangled: demangled(mangled) }),
        None => None,
    }
}

/// The table that a list of symbol names gives: the unnamed symbols are left
/// out, the others keep their order.
pub open spec fn symbol_table(names: Seq<Option<Seq<char>>>) -> Seq<SymbolView> {
    names.filter_map(|name: Option<Seq<char>>| entry_of(name))
}

/// What a symbol is looked up as.
#[derive(Clone, Copy, Debug, PartialEq, Eq, Structural)]
pub enum Role {
    /// The function's current body.
    Implementation,
    /// The function returning the signature hash the body was built with.
    Marker,
}

/// The text that a symbol's readable name must begin with.
pub open spec fn needle(name: Seq<char>, role: Role) -> Seq<char> {
    match role {
        Role::Implementation => name,
        Role::Marker => marker_of(name),
    }
}

/// Whether `symbol` can stand for `name` in `role`. A marker path never
/// stands for an implementation.
pub open spec fn plays(symbol: SymbolView, name: Seq<char>, role: Role) -> bool {
    needle(name, role).is_prefix_of(symbol.demangled) && (role == Role::Implementation
        ==> !is_marker_path(symbol.demangled))
}

/// The first index from `from` on whose symbol plays `role` for `name`.
pub open spec fn resolve_from(table: Seq<SymbolView>, name: Seq<char>, role: Role, from: int)
    -> Option<int>
    decreases table.len() - from,
{
    if from < 0 || from >= table.len() {
        None
    } else if plays(table[from], name, role) {
        Some(from)
    } else {
        resolve_from(table, name, role, from + 1)
    }
}

/// The index of the symbol that stands for `name` in `role`: the first one
/// in table order.
pub open spec fn resolve(table: Seq<SymbolView>, name: Seq<char>, role: Role) -> Option<int> {
    resolve_from(table, name, role, 0)
}

/// An index as a mathematical integer.
pub open spec fn index_view(index: Option<usize>) -> Option<int> {
    match index {
        Some(i) => Some(i as int),
        None => None,
    }
}

impl Debuginfo {
    /// Builds the symbol table of a parsed artifact: its named symbols in
    /// their order, each with its readable form.
    pub fn new(obj: &symbolic::debuginfo::Object) -> (table: Debuginfo)
        ensures
            table@ == symbol_table(object_symbols(obj)),
    {
        let names = symbol_names(obj);
        Debuginfo::from_names(&names)
    }

    /// Builds the table of the named symbols among `names`, each with its
    /// readable form.
    pub fn from_names(names: &Vec<Option<String>>) -> (table: Debuginfo)
        ensures
            table@ == symbol_table(names_view(names@)),
    {
        let mut symbols: Vec<DemangledSymbol> = Vec::new();
        let ghost plain = names_view(names@);
        let ghost pick = |name: Option<Seq<char>>| entry_of(name);
        let mut i: usize = 0;
        while i < names.len()
            invariant
                i <= names.len(),
                plain == names_view(names@),
                pick == |name: Option<Seq<char>>| entry_of(name),
                Seq::new(symbols@.len(), |k: int| symbols@[k]@) == plain.take(i as int).filter_map(
                    pick,
                ),
            decreases names.len() - i,
        {
            proof {
                plain.lemma_filter_map_take_succ(pick, i as int);
            }
            let ghost before = Seq::new(symbols@.len(), |k: int| symbols@[k]@);
            match &names[i] {
                Some(name) => {
                    let readable = demangle(name.as_str());
                    symbols.push(DemangledSymbol { mangled: name.clone(), demangled: readable });
                    assert(Seq::new(symbols@.len(), |k: int| symbols@[k]@) =~= before + seq![
                        entry_of(plain[i as int]).unwrap(),
                    ]);
                },
                None => {},
            }
            i += 1;
        }
        assert(plain.take(i as int) =~= plain);
        Debuginfo { symbols }
    }

    /// Reads the symbol table out of an artifact's bytes.
    pub fn read(image: &[u8]) -> (table: Result<Debuginfo, ReloadError>)
        ensures
            match table {
                Ok(t) => artifact_symbols(image@) is Some && t@
                    == symbol_table(artifact_symbols(image@).unwrap()),
                Err(e) => artifact_symbols(image@) is None && e == ReloadError::MetadataUnreadable,
            },
    {
        match parse_object(image) {
            Ok(object) => Ok(Debuginfo::new(&object)),
            Err(_) => Err(ReloadError::MetadataUnreadable),
        }
    }

    /// The index of the symbol that holds the implementation of `name`: the
    /// first whose readable name begins with `name` and is no marker path.
    pub fn load_function(&self, name: &str) -> (index: Option<usize>)
        ensures
            index_view(index) == resolve(self@, name@, Role::Implementation),
            match index {
                Some(i) => i < self.symbols@.len() && name@.is_prefix_of(self@[i as int].demangled)
                    && !is_marker_path(self@[i as int].demangled),
                None => true,
            },
    {
        self.find(name, Role::Implementation)
    }

    /// The index of the first symbol that stands for `name` in `role`.
    pub fn find(&self, name: &str, role: Role) -> (index: Option<usize>)
        ensures
            index_view(index) == resolve(self@, name@, role),
            match index {
                Some(i) => i < self.symbols@.len() && plays(self@[i as int], name@, role),
                None => true,
            },
    {
        let wanted = match role {
            Role::Implementation => String::from_str(name),
            Role::Marker => marker_name(name),
        };
        let mut i: usize = 0;
        while i < self.symbols.len()
            invariant
                i <= self.symbols.len(),
                wanted@ == needle(name@, role),
                resolve(self@, name@, role) == resolve_from(self@, name@, role, i as int),
            decreases self.symbols.len() - i,
        {
            let symbol = &self.symbols[i];
            assert(self@[i as int] == symbol@);
            if starts_with(symbol.demangled.as_str(), wanted.as_str()) {
                let plays_role = match role {
                    Role::Implementation => !has_marker_segment(symbol.demangled.as_str()),
                    Role::Marker => true,
                };
                if plays_role {
                    return Some(i);
                }
            }
            i += 1;
        }
        None
    }
}

} // verus!
