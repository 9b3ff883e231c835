//! The project-wide index of asynchronous functions.

use vstd::prelude::*;

use crate::text::str_eq;

verus! {

/// Identity of one asynchronous function of the project.
#[derive(Debug, Clone, Copy, PartialEq, Eq, PartialOrd, Ord, Hash, Structural)]
pub struct FunctionId(pub u32);

/// The project path of one translation unit, with `/` between components.
#[derive(Debug, PartialEq, Eq, PartialOrd, Ord, Hash)]
pub struct TranslationUnitId(pub String);

impl Clone for TranslationUnitId {
    fn clone(&self) -> (r: Self)
        ensures
            r == *self,
    {
        TranslationUnitId(self.0.clone())
    }
}

/// The linkage identity of a function: its name, or its unit and name.
#[derive(Debug, PartialEq, Eq, PartialOrd, Ord, Hash)]
pub enum AsyncLinkageKey {
    External { name: String },
    Internal { translation_unit: TranslationUnitId, name: String },
}

impl Clone for AsyncLinkageKey {
    fn clone(&self) -> (r: Self)
        ensures
            r == *self,
    {
        match self {
            AsyncLinkageKey::External { name } => AsyncLinkageKey::External { name: name.clone() },
            AsyncLinkageKey::Internal { translation_unit, name } => AsyncLinkageKey::Internal {
                translation_unit: translation_unit.clone(),
                name: name.clone(),
            },
        }
    }
}

/// What a site of a function holds.
#[derive(Debug, Clone, Copy, PartialEq, Eq, Structural)]
pub enum AsyncSymbolSiteKind {
    Declaration,
    Definition,
}

/// One place in the project that declares or defines a function.
#[derive(Debug, PartialEq, Eq)]
pub struct AsyncSymbolSite {
    pub kind: AsyncSymbolSiteKind,
    pub translation_unit: TranslationUnitId,
    pub start_byte: usize,
}

/// One parameter with its type after array and function adjustment.
#[derive(Debug, PartialEq, Eq)]
pub struct AsyncParameter {
    pub adjusted_type: String,
}

impl Clone for AsyncParameter {
    fn clone(&self) -> (r: Self)
        ensures
            r == *self,
    {
        AsyncParameter { adjusted_type: self.adjusted_type.clone() }
    }
}

/// Whether a unit sees the complete task type of a function.
#[derive(Debug, Clone, Copy, PartialEq, Eq, Structural)]
pub enum LayoutVisibility {
    Visible,
    Opaque,
}

/// One asynchronous function of the project.
#[derive(Debug, PartialEq, Eq)]
pub struct AsyncSymbol {
    pub id: FunctionId,
    pub key: AsyncLinkageKey,
    pub public_stem: String,
    pub result_type: String,
    pub parameters: Vec<AsyncParameter>,
    pub is_variadic: bool,
    pub sites: Vec<AsyncSymbolSite>,
}

/// A symbol as one translation unit sees it.
#[derive(Clone, Copy)]
pub struct ResolvedAsyncSymbol<'index> {
    pub symbol: &'index AsyncSymbol,
    pub layout_visibility: LayoutVisibility,
}

/// All asynchronous functions of the project.
#[derive(Debug, Default)]
pub struct AsyncSymbolIndex {
    pub entries: Vec<AsyncSymbol>,
}

/// The position of the first symbol with identity `id` from `i` on.
pub open spec fn symbol_position(entries: Seq<AsyncSymbol>, id: FunctionId, i: int) -> Option<int>
    decreases entries.len() - i,
{
    if i < 0 || i >= entries.len() {
        None
    } else if entries[i].id == id {
        Some(i)
    } else {
        symbol_position(entries, id, i + 1)
    }
}

/// Whether a unit can name the function by `name`.
pub open spec fn names_function(key: AsyncLinkageKey, unit: Seq<char>, name: Seq<char>) -> bool {
    match key {
        AsyncLinkageKey::External { name: external } => external@ == name,
        AsyncLinkageKey::Internal { translation_unit, name: internal } => translation_unit.0@
            == unit && internal@ == name,
    }
}

/// The position of the first symbol that `unit` can call `name`, from `i` on.
pub open spec fn name_position(
    entries: Seq<AsyncSymbol>,
    unit: Seq<char>,
    name: Seq<char>,
    i: int,
) -> Option<int>
    decreases entries.len() - i,
{
    if i < 0 || i >= entries.len() {
        None
    } else if names_function(entries[i].key, unit, name) {
        Some(i)
    } else {
        name_position(entries, unit, name, i + 1)
    }
}

/// Whether some site is a definition in `unit`.
pub open spec fn defined_in(sites: Seq<AsyncSymbolSite>, unit: Seq<char>) -> bool {
    exists|i: int|
        0 <= i < sites.len() && #[trigger] sites[i].kind == AsyncSymbolSiteKind::Definition
            && sites[i].translation_unit.0@ == unit
}

/// Whether some site lies in `unit` before byte `position`.
pub open spec fn site_before(sites: Seq<AsyncSymbolSite>, unit: Seq<char>, position: int) -> bool {
    exists|i: int|
        0 <= i < sites.len() && #[trigger] sites[i].translation_unit.0@ == unit
            && sites[i].start_byte < position
}

/// The visibility of a function's task type in `unit`.
pub open spec fn visibility_in(sites: Seq<AsyncSymbolSite>, unit: Seq<char>) -> LayoutVisibility {
    if defined_in(sites, unit) {
        LayoutVisibility::Visible
    } else {
        LayoutVisibility::Opaque
    }
}

/// Whether one of the sites defines the function in `unit`.
pub fn is_defined_in(sites: &Vec<AsyncSymbolSite>, unit: &str) -> (r: bool)
    ensures
        r == defined_in(sites@, unit@),
{
    let mut i: usize = 0;
    while i < sites.len()
        invariant
            i <= sites@.len(),
            forall|k: int|
                0 <= k < i ==> !(#[trigger] sites@[k].kind == AsyncSymbolSiteKind::Definition
                    && sites@[k].translation_unit.0@ == unit@),
        decreases sites@.len() - i,
    {
        if sites[i].kind == AsyncSymbolSiteKind::Definition && str_eq(
            sites[i].translation_unit.0.as_str(),
            unit,
        ) {
            return true;
        }
        i += 1;
    }
    false
}

impl AsyncSymbolIndex {
    /// The symbol with identity `id`.
    pub open spec fn symbol_spec(&self, id: FunctionId) -> Option<AsyncSymbol> {
        match symbol_position(self.entries@, id, 0) {
            Some(i) => Some(self.entries@[i]),
            None => None,
        }
    }

    /// The symbol that `unit` can call `name`.
    pub open spec fn resolve_spec(&self, unit: Seq<char>, name: Seq<char>) -> Option<AsyncSymbol> {
        match name_position(self.entries@, unit, name, 0) {
            Some(i) => Some(self.entries@[i]),
            None => None,
        }
    }

    /// Returns all symbols.
    pub fn symbols(&self) -> (r: &Vec<AsyncSymbol>)
        ensures
            r@ == self.entries@,
    {
        &self.entries
    }

    /// Returns the symbol with identity `id`.
    pub fn symbol(&self, id: FunctionId) -> (r: Option<&AsyncSymbol>)
        ensures
            match r {
                Some(symbol) => self.symbol_spec(id) == Some(*symbol) && symbol.id == id,
                None => self.symbol_spec(id) is None,
            },
    {
        let mut i: usize = 0;
        while i < self.entries.len()
            invariant
                i <= self.entries@.len(),
                symbol_position(self.entries@, id, i as int) == symbol_position(
                    self.entries@,
                    id,
                    0,
                ),
            decreases self.entries@.len() - i,
        {
            if self.entries[i].id == id {
                return Some(&self.entries[i]);
            }
            i += 1;
        }
        None
    }

    /// Returns the symbol that the unit at `project_path` can call `name`.
    pub fn resolve(&self, project_path: &str, name: &str) -> (r: Option<ResolvedAsyncSymbol<'_>>)
        ensures
            match r {
                Some(resolved) => self.resolve_spec(project_path@, name@) == Some(*resolved.symbol)
                    && resolved.layout_visibility == visibility_in(
                    resolved.symbol.sites@,
                    project_path@,
                ),
                None => self.resolve_spec(project_path@, name@) is None,
            },
    {
        let mut i: usize = 0;
        while i < self.entries.len()
            invariant
                i <= self.entries@.len(),
                name_position(self.entries@, project_path@, name@, i as int) == name_position(
                    self.entries@,
                    project_path@,
                    name@,
                    0,
                ),
            decreases self.entries@.len() - i,
        {
            let symbol = &self.entries[i];
            let named = match &symbol.key {
                AsyncLinkageKey::External { name: external } => str_eq(external.as_str(), name),
                AsyncLinkageKey::Internal { translation_unit, name: internal } => str_eq(
                    translation_unit.0.as_str(),
                    project_path,
                ) && str_eq(internal.as_str(), name),
            };
            if named {
                return Some(self.seen_from(symbol, project_path));
            }
            i += 1;
        }
        None
    }

    fn seen_from<'a>(&self, symbol: &'a AsyncSymbol, project_path: &str) -> (r: ResolvedAsyncSymbol<
        'a,
    >)
        ensures
            *r.symbol == *symbol,
            r.layout_visibility == visibility_in(symbol.sites@, project_path@),
    {
        let layout_visibility = if is_defined_in(&symbol.sites, project_path) {
            LayoutVisibility::Visible
        } else {
            LayoutVisibility::Opaque
        };
        ResolvedAsyncSymbol { symbol, layout_visibility }
    }

    /// Returns the symbol with identity `id` as the unit at `project_path` sees it.
    pub fn resolve_id(&self, project_path: &str, id: FunctionId) -> (r: Option<
        ResolvedAsyncSymbol<'_>,
    >)
        ensures
            match r {
                Some(resolved) => self.symbol_spec(id) == Some(*resolved.symbol)
                    && resolved.layout_visibility == visibility_in(
                    resolved.symbol.sites@,
                    project_path@,
                ),
                None => self.symbol_spec(id) is None,
            },
    {
        match self.symbol(id) {
            Some(symbol) => Some(self.seen_from(symbol, project_path)),
            None => None,
        }
    }

    /// Whether the unit declares or defines the function before byte `position`.
    pub fn has_site_before(&self, project_path: &str, id: FunctionId, position: usize) -> (r: bool)
        ensures
            r == (match self.symbol_spec(id) {
                Some(symbol) => site_before(symbol.sites@, project_path@, position as int),
                None => false,
            }),
    {
        match self.symbol(id) {
            None => false,
            Some(symbol) => {
                let mut i: usize = 0;
                while i < symbol.sites.len()
                    invariant
                        self.symbol_spec(id) == Some(*symbol),
                        i <= symbol.sites@.len(),
                        forall|k: int|
                            0 <= k < i ==> !(#[trigger] symbol.sites@[k].translation_unit.0@
                                == project_path@ && symbol.sites@[k].start_byte < position),
                    decreases symbol.sites@.len() - i,
                {
                    if str_eq(symbol.sites[i].translation_unit.0.as_str(), project_path)
                        && symbol.sites[i].start_byte < position {
                        return true;
                    }
                    i += 1;
                }
                false
            },
        }
    }
}

} // verus!
