use resolver::ast::{Field, Item, Parameter};
use resolver::symbols::{Declaration, DuplicateDeclaration, Symbol, SymbolKind, SymbolTable};
use resolver::types::{Location, Primitive, Type};

fn point() -> Symbol {
    Symbol {
        name: "Point".to_string(),
        declaration: Declaration::Struct {
            fields: vec![
                Field { name: "x".to_string(), ty: Type::Primitive(Primitive::Float64) },
                Field { name: "y".to_string(), ty: Type::Primitive(Primitive::Float64) },
            ],
        },
    }
}

fn make_origin() -> Symbol {
    Symbol {
        name: "make_origin".to_string(),
        declaration: Declaration::Function {
            parameters: vec![],
            return_type: Type::StructRef("Point".to_string()),
        },
    }
}

#[test]
fn empty_table_finds_nothing() {
    let table = SymbolTable::new();
    assert_eq!(table.len(), 0);
    assert!(table.lookup(&"Point".to_string()).is_none());
}

#[test]
fn inserted_symbol_is_found_under_its_name() {
    let mut table = SymbolTable::new();
    assert_eq!(table.insert(point()), Ok(()));
    assert_eq!(table.insert(make_origin()), Ok(()));
    assert_eq!(table.len(), 2);
    assert_eq!(table.lookup(&"Point".to_string()), Some(&point()));
    assert_eq!(table.lookup(&"make_origin".to_string()), Some(&make_origin()));
    assert!(table.lookup(&"main".to_string()).is_none());
    assert!(table.lookup(&"point".to_string()).is_none());
}

#[test]
fn second_insert_of_a_name_is_refused() {
    let mut table = SymbolTable::new();
    assert_eq!(table.insert(point()), Ok(()));
    let other = Symbol {
        name: "Point".to_string(),
        declaration: Declaration::Function { parameters: vec![], return_type: Type::Primitive(Primitive::Unit) },
    };
    assert_eq!(table.insert(other), Err(DuplicateDeclaration { name: "Point".to_string() }));
    assert_eq!(table.len(), 1);
    assert_eq!(table.lookup(&"Point".to_string()), Some(&point()));
}

#[test]
fn kind_follows_the_declaration() {
    assert_eq!(point().kind(), SymbolKind::Struct);
    assert_eq!(make_origin().kind(), SymbolKind::Function);
}

#[test]
fn symbol_of_a_struct_item_holds_its_fields() {
    let item = Item::Struct {
        location: Location::new(5, 1),
        name: "Point".to_string(),
        fields: vec![
            Field { name: "x".to_string(), ty: Type::Primitive(Primitive::Float64) },
            Field { name: "y".to_string(), ty: Type::Primitive(Primitive::Float64) },
        ],
    };
    assert_eq!(Symbol::of_item(&item), point());
}

#[test]
fn symbol_of_a_function_item_holds_its_signature() {
    let item = Item::Function {
        location: Location::new(1, 1),
        name: "scale".to_string(),
        parameters: vec![
            Parameter { name: "p".to_string(), ty: Type::StructRef("Point".to_string()) },
            Parameter { name: "k".to_string(), ty: Type::Primitive(Primitive::Float64) },
        ],
        return_type: Type::StructRef("Point".to_string()),
        body: vec![],
    };
    let expected = Symbol {
        name: "scale".to_string(),
        declaration: Declaration::Function {
            parameters: vec![
                Parameter { name: "p".to_string(), ty: Type::StructRef("Point".to_string()) },
                Parameter { name: "k".to_string(), ty: Type::Primitive(Primitive::Float64) },
            ],
            return_type: Type::StructRef("Point".to_string()),
        },
    };
    assert_eq!(Symbol::of_item(&item), expected);
    assert_eq!(item.name(), "scale");
    assert_eq!(item.location(), Location::new(1, 1));
}
