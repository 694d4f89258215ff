//! The module lifecycle: the one module that is loaded at a time, with the
//! symbol table read from its artifact.

use vstd::prelude::*;
use crate::debuginfo::{artifact_symbols, symbol_table, Debuginfo, SymbolView};

verus! {

/// A loaded code image with the symbol table of its artifact. `H` is the
/// handle that keeps the image loaded.
pub struct LoadedModule<H> {
    pub handle: H,
    pub symbols: Debuginfo,
}

/// A loaded module as plain values: its handle and its symbol table.
pub struct ModuleView<H> {
    pub handle: H,
    pub table: Seq<SymbolView>,
}

impl<H> View for LoadedModule<H> {
    type V = ModuleView<H>;

    open spec fn view(&self) -> ModuleView<H> {
        ModuleView { handle: self.handle, table: self.symbols@ }
    }
}

/// What became of a module that was offered as the current one.
pub enum Replaced<H> {
    /// It is the current module. `retired` is the handle of the module that
    /// it took the place of, to be unloaded.
    Installed { retired: Option<H> },
    /// Its artifact has no readable symbol table; the current module stays.
    /// `rejected` is the handle that was offered.
    Unreadable { rejected: H },
}

/// Owns the module that is loaded, if one is.
pub struct ModuleManager<H> {
    current: Option<LoadedModule<H>>,
}

impl<H> View for ModuleManager<H> {
    type V = Option<ModuleView<H>>;

    open spec fn view(&self) -> Option<ModuleView<H>> {
        match self.module() {
            Some(module) => Some(module@),
            None => None,
        }
    }
}

impl<H> ModuleManager<H> {
    /// The module that is loaded, if one is.
    pub closed spec fn module(&self) -> Option<LoadedModule<H>> {
        self.current
    }

    /// The handle of the loaded module.
    pub open spec fn handle(&self) -> Option<H> {
        match self.module() {
            Some(module) => Some(module.handle),
            None => None,
        }
    }

    /// A manager with no module loaded.
    pub fn new() -> (manager: ModuleManager<H>)
        ensures
            manager.module() is None,
    {
        ModuleManager { current: None }
    }

    /// The module that is loaded, if one is.
    pub fn current(&self) -> (module: Option<&LoadedModule<H>>)
        ensures
            match module {
                Some(m) => self.module() == Some(*m),
                None => self.module() is None,
            },
    {
        self.current.as_ref()
    }

    /// Offers the module opened from an artifact with the bytes `image` as
    /// the current one. It is installed only if the artifact's symbol table
    /// can be read; the module it supersedes is then handed back.
    pub fn open_and_replace(&mut self, handle: H, image: &[u8]) -> (outcome: Replaced<H>)
        ensures
            match artifact_symbols(image@) {
                Some(names) => final(self)@ == Some(
                    ModuleView { handle, table: symbol_table(names) },
                ) && outcome == (Replaced::Installed { retired: old(self).handle() }),
                None => final(self).module() == old(self).module() && outcome
                    == (Replaced::Unreadable { rejected: handle }),
            },
    {
        match Debuginfo::read(image) {
            Ok(symbols) => {
                let previous = self.current.take();
                self.current = Some(LoadedModule { handle, symbols });
                match previous {
                    Some(module) => Replaced::Installed { retired: Some(module.handle) },
                    None => Replaced::Installed { retired: None },
                }
            },
            Err(_) => Replaced::Unreadable { rejected: handle },
        }
    }
}

} // verus!
