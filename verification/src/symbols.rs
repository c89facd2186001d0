//! Symbols and the symbol table: one flat namespace for a whole unit.

use vstd::prelude::*;
use crate::ast::{models, Field, FieldModel, Item, ItemModel, Parameter, ParameterModel};
use crate::types::{Type, TypeModel};

verus! {

/// What a symbol names.
#[derive(Clone, Copy, Debug, PartialEq, Eq, Structural)]
pub enum SymbolKind {
    Function,
    Struct,
}

/// The part of a declaration that its uses depend on.
#[derive(Debug, PartialEq, Eq)]
pub enum Declaration {
    Function { parameters: Vec<Parameter>, return_type: Type },
    Struct { fields: Vec<Field> },
}

pub enum DeclarationModel {
    Function { parameters: Seq<ParameterModel>, return_type: TypeModel },
    Struct { fields: Seq<FieldModel> },
}

impl View for Declaration {
    type V = DeclarationModel;

    open spec fn view(&self) -> DeclarationModel {
        match self {
            Declaration::Function { parameters, return_type } => DeclarationModel::Function {
                parameters: models(parameters@),
                return_type: return_type@,
            },
            Declaration::Struct { fields } => DeclarationModel::Struct { fields: models(fields@) },
        }
    }
}

/// A top-level name together with what it declares.
#[derive(Debug, PartialEq, Eq)]
pub struct Symbol {
    pub name: String,
    pub declaration: Declaration,
}

pub struct SymbolModel {
    pub name: Seq<char>,
    pub declaration: DeclarationModel,
}

impl SymbolModel {
    pub open spec fn kind(self) -> SymbolKind {
        match self.declaration {
            DeclarationModel::Function { .. } => SymbolKind::Function,
            DeclarationModel::Struct { .. } => SymbolKind::Struct,
        }
    }
}

impl View for Symbol {
    type V = SymbolModel;

    open spec fn view(&self) -> SymbolModel {
        SymbolModel { name: self.name@, declaration: self.declaration@ }
    }
}

/// The symbol that an item declares: its name, and its signature or fields.
pub open spec fn symbol_of(item: ItemModel) -> SymbolModel {
    match item {
        ItemModel::Function { name, parameters, return_type, .. } => SymbolModel {
            name,
            declaration: DeclarationModel::Function { parameters, return_type },
        },
        ItemModel::Struct { name, fields, .. } => SymbolModel {
            name,
            declaration: DeclarationModel::Struct { fields },
        },
    }
}

fn copy_parameters(parameters: &Vec<Parameter>) -> (r: Vec<Parameter>)
    ensures
        models(r@) == models(parameters@),
{
    let mut r: Vec<Parameter> = Vec::new();
    let mut i: usize = 0;
    while i < parameters.len()
        invariant
            i <= parameters.len(),
            r.len() == i,
            forall|j: int| 0 <= j < i ==> r[j]@ == parameters[j]@,
        decreases parameters.len() - i,
    {
        r.push(parameters[i].clone());
        i = i + 1;
    }
    assert(models(r@) =~= models(parameters@));
    r
}

fn copy_fields(fields: &Vec<Field>) -> (r: Vec<Field>)
    ensures
        models(r@) == models(fields@),
{
    let mut r: Vec<Field> = Vec::new();
    let mut i: usize = 0;
    while i < fields.len()
        invariant
            i <= fields.len(),
            r.len() == i,
            forall|j: int| 0 <= j < i ==> r[j]@ == fields[j]@,
        decreases fields.len() - i,
    {
        r.push(fields[i].clone());
        i = i + 1;
    }
    assert(models(r@) =~= models(fields@));
    r
}

impl Symbol {
    /// Whether the symbol names a function or a struct.
    pub fn kind(&self) -> (r: SymbolKind)
        ensures
            r == self@.kind(),
    {
        match &self.declaration {
            Declaration::Function { .. } => SymbolKind::Function,
            Declaration::Struct { .. } => SymbolKind::Struct,
        }
    }

    /// The symbol that `item` declares.
    pub fn of_item(item: &Item) -> (r: Symbol)
        ensures
            r@ == symbol_of(item@),
    {
        match item {
            Item::Function { name, parameters, return_type, .. } => Symbol {
                name: name.clone(),
                declaration: Declaration::Function {
                    parameters: copy_parameters(parameters),
                    return_type: return_type.clone(),
                },
            },
            Item::Struct { name, fields, .. } => Symbol {
                name: name.clone(),
                declaration: Declaration::Struct { fields: copy_fields(fields) },
            },
        }
    }
}

/// The error of `SymbolTable::insert`: the name is taken.
#[derive(Debug, PartialEq, Eq)]
pub struct DuplicateDeclaration {
    pub name: String,
}

/// The top-level symbols of one unit, by name.
///
/// Functions and structs share the namespace. The table is filled while the
/// declarations are collected and only read afterwards.
pub struct SymbolTable {
    entries: Vec<Symbol>,
}

/// Some entry of `entries` has the name `name`.
spec fn names(entries: Seq<Symbol>, name: Seq<char>) -> bool {
    exists|i: int| 0 <= i < entries.len() && (#[trigger] entries[i]).name@ == name
}

/// An index at which `entries` holds the name `name`, if there is one.
spec fn index_of(entries: Seq<Symbol>, name: Seq<char>) -> int {
    choose|i: int| 0 <= i < entries.len() && (#[trigger] entries[i]).name@ == name
}

spec fn table_of(entries: Seq<Symbol>) -> Map<Seq<char>, SymbolModel> {
    Map::new(|name: Seq<char>| names(entries, name), |name: Seq<char>| entries[index_of(entries, name)]@)
}

spec fn distinct(entries: Seq<Symbol>) -> bool {
    forall|i: int, j: int|
        0 <= i < j < entries.len() ==> (#[trigger] entries[i]).name@ != (#[trigger] entries[j]).name@
}

proof fn lemma_table_push(entries: Seq<Symbol>, symbol: Symbol)
    requires
        distinct(entries),
        !names(entries, symbol.name@),
    ensures
        distinct(entries.push(symbol)),
        table_of(entries.push(symbol)) == table_of(entries).insert(symbol.name@, symbol@),
{
    let more = entries.push(symbol);
    assert forall|i: int, j: int| 0 <= i < j < more.len() implies (#[trigger] more[i]).name@ != (
    #[trigger] more[j]).name@ by {
        if j == entries.len() {
            assert(entries[i] == more[i]);
        } else {
            assert(entries[i] == more[i] && entries[j] == more[j]);
        }
    }
    assert forall|name: Seq<char>| names(more, name) <==> (names(entries, name) || name == symbol.name@) by {
        if names(more, name) {
            let i = index_of(more, name);
            if i < entries.len() {
                assert(entries[i] == more[i]);
            }
        }
        if names(entries, name) {
            let i = index_of(entries, name);
            assert(more[i] == entries[i]);
        }
        if name == symbol.name@ {
            assert(more[entries.len() as int] == symbol);
        }
    }
    assert forall|name: Seq<char>| names(more, name) implies #[trigger] table_of(more)[name] == table_of(
        entries,
    ).insert(symbol.name@, symbol@)[name] by {
        let i = index_of(more, name);
        if name == symbol.name@ {
            if i < entries.len() {
                assert(entries[i] == more[i]);
            }
        } else {
            let k = index_of(entries, name);
            assert(more[k] == entries[k]);
            if i != k {
                if i < k {
                    assert(more[i].name@ != more[k].name@);
                } else {
                    assert(more[k].name@ != more[i].name@);
                }
            }
        }
    }
    assert(table_of(more) =~= table_of(entries).insert(symbol.name@, symbol@));
}

impl View for SymbolTable {
    type V = Map<Seq<char>, SymbolModel>;

    closed spec fn view(&self) -> Map<Seq<char>, SymbolModel> {
        table_of(self.entries@)
    }
}

impl SymbolTable {
    #[verifier::type_invariant]
    spec fn well_formed(self) -> bool {
        &&& distinct(self.entries@)
        &&& table_of(self.entries@).dom().finite()
        &&& table_of(self.entries@).dom().len() == self.entries.len()
    }

    /// A table without symbols.
    pub fn new() -> (r: SymbolTable)
        ensures
            r@ == Map::<Seq<char>, SymbolModel>::empty(),
    {
        let entries: Vec<Symbol> = Vec::new();
        assert(table_of(entries@) =~= Map::<Seq<char>, SymbolModel>::empty());
        SymbolTable { entries }
    }

    /// The symbol declared under `name`, if there is one. Each symbol is found
    /// under its own name.
    pub fn lookup(&self, name: &String) -> (r: Option<&Symbol>)
        ensures
            match r {
                Some(symbol) => self@.contains_key(name@) && symbol@ == self@[name@] && symbol@.name == name@,
                None => !self@.contains_key(name@),
            },
    {
        proof {
            use_type_invariant(self);
        }
        let mut i: usize = 0;
        while i < self.entries.len()
            invariant
                i <= self.entries.len(),
                distinct(self.entries@),
                forall|j: int| 0 <= j < i ==> (#[trigger] self.entries[j]).name@ != name@,
            decreases self.entries.len() - i,
        {
            if self.entries[i].name == *name {
                proof {
                    let k = index_of(self.entries@, name@);
                    if k < i {
                        assert(self.entries[k].name@ != self.entries[i as int].name@);
                    } else if k > i {
                        assert(self.entries[i as int].name@ != self.entries[k].name@);
                    }
                }
                return Some(&self.entries[i]);
            }
            i = i + 1;
        }
        None
    }

    /// Registers `symbol` under its name, unless the name is taken: then the
    /// table stays as it is and the error carries the name.
    pub fn insert(&mut self, symbol: Symbol) -> (r: Result<(), DuplicateDeclaration>)
        ensures
            match r {
                Ok(()) => !old(self)@.contains_key(symbol@.name) && final(self)@ == old(self)@.insert(
                    symbol@.name,
                    symbol@,
                ),
                Err(e) => old(self)@.contains_key(symbol@.name) && final(self)@ == old(self)@ && e.name@
                    == symbol@.name,
            },
    {
        proof {
            use_type_invariant(&*self);
        }
        if self.lookup(&symbol.name).is_some() {
            return Err(DuplicateDeclaration { name: symbol.name });
        }
        let ghost before = self.entries@;
        let mut entries: Vec<Symbol> = Vec::new();
        proof {
            assert(table_of(entries@).dom() =~= Set::<Seq<char>>::empty());
        }
        core::mem::swap(&mut self.entries, &mut entries);
        proof {
            lemma_table_push(before, symbol);
        }
        entries.push(symbol);
        core::mem::swap(&mut self.entries, &mut entries);
        Ok(())
    }

    /// The number of symbols in the table.
    pub fn len(&self) -> (r: usize)
        ensures
            self@.dom().finite(),
            r == self@.len(),
    {
        proof {
            use_type_invariant(self);
        }
        self.entries.len()
    }
}

} // verus!
