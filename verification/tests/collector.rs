use resolver::ast::{CompilationUnit, Field, Item};
use resolver::collect::collect;
use resolver::diagnostics::{Diagnostic, DiagnosticKind};
use resolver::symbols::{Declaration, Symbol, SymbolKind};
use resolver::types::{Location, Primitive, Type};

fn float_field(name: &str) -> Field {
    Field { name: name.to_string(), ty: Type::Primitive(Primitive::Float64) }
}

fn structure(line: u32, name: &str, fields: Vec<Field>) -> Item {
    Item::Struct { location: Location::new(line, 1), name: name.to_string(), fields }
}

fn function(line: u32, name: &str, return_type: Type) -> Item {
    Item::Function {
        location: Location::new(line, 1),
        name: name.to_string(),
        parameters: vec![],
        return_type,
        body: vec![],
    }
}

#[test]
fn empty_unit_gives_empty_table() {
    let unit = CompilationUnit { items: vec![] };
    let mut sink = Vec::new();
    let table = collect(&unit, &mut sink);
    assert_eq!(table.len(), 0);
    assert!(sink.is_empty());
}

#[test]
fn unique_names_give_one_symbol_per_item() {
    let unit = CompilationUnit {
        items: vec![
            function(1, "make_origin", Type::StructRef("Point".to_string())),
            structure(5, "Point", vec![float_field("x"), float_field("y")]),
            function(10, "main", Type::Primitive(Primitive::Unit)),
            structure(20, "Line", vec![]),
        ],
    };
    let mut sink = Vec::new();
    let table = collect(&unit, &mut sink);
    assert!(sink.is_empty());
    assert_eq!(table.len(), 4);
    for item in &unit.items {
        assert_eq!(table.lookup(item.name()), Some(&Symbol::of_item(item)));
    }
}

#[test]
fn collecting_keeps_what_the_sink_held() {
    let unit = CompilationUnit { items: vec![structure(1, "A", vec![]), structure(2, "A", vec![])] };
    let earlier = Diagnostic::new(DiagnosticKind::NotAStruct, Location::new(9, 9));
    let mut sink = vec![earlier.clone()];
    let _ = collect(&unit, &mut sink);
    assert_eq!(
        sink,
        vec![earlier, Diagnostic::new(DiagnosticKind::DuplicateDeclaration("A".to_string()), Location::new(2, 1))]
    );
}

#[test]
fn duplicate_declaration_is_reported_once_and_first_stays() {
    let first = structure(1, "Point", vec![float_field("x"), float_field("y")]);
    let unit = CompilationUnit {
        items: vec![
            structure(1, "Point", vec![float_field("x"), float_field("y")]),
            function(4, "main", Type::Primitive(Primitive::Unit)),
            structure(8, "Point", vec![float_field("z")]),
        ],
    };
    let mut sink = Vec::new();
    let table = collect(&unit, &mut sink);
    assert_eq!(
        sink,
        vec![Diagnostic::new(DiagnosticKind::DuplicateDeclaration("Point".to_string()), Location::new(8, 1))]
    );
    assert_eq!(table.len(), 2);
    assert_eq!(table.lookup(&"Point".to_string()), Some(&Symbol::of_item(&first)));
}

#[test]
fn function_and_struct_share_one_namespace() {
    let unit = CompilationUnit {
        items: vec![
            function(1, "Point", Type::Primitive(Primitive::Unit)),
            structure(3, "Point", vec![float_field("x")]),
        ],
    };
    let mut sink = Vec::new();
    let table = collect(&unit, &mut sink);
    assert_eq!(
        sink,
        vec![Diagnostic::new(DiagnosticKind::DuplicateDeclaration("Point".to_string()), Location::new(3, 1))]
    );
    let symbol = table.lookup(&"Point".to_string()).unwrap();
    assert_eq!(symbol.kind(), SymbolKind::Function);
    assert_eq!(
        symbol.declaration,
        Declaration::Function { parameters: vec![], return_type: Type::Primitive(Primitive::Unit) }
    );
}

#[test]
fn every_further_declaration_of_a_name_is_reported() {
    let unit = CompilationUnit {
        items: vec![
            structure(1, "A", vec![]),
            structure(2, "A", vec![]),
            structure(3, "B", vec![]),
            structure(4, "A", vec![]),
            structure(5, "B", vec![]),
        ],
    };
    let mut sink = Vec::new();
    let table = collect(&unit, &mut sink);
    assert_eq!(
        sink,
        vec![
            Diagnostic::new(DiagnosticKind::DuplicateDeclaration("A".to_string()), Location::new(2, 1)),
            Diagnostic::new(DiagnosticKind::DuplicateDeclaration("A".to_string()), Location::new(4, 1)),
            Diagnostic::new(DiagnosticKind::DuplicateDeclaration("B".to_string()), Location::new(5, 1)),
        ]
    );
    assert_eq!(table.len() + sink.len(), unit.items.len());
}
