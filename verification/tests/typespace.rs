use spacetimedb_lib::module_def::RawModuleDefV9;
use spacetimedb_lib::types::{ArrayType, PlainType, TypeElement};
use spacetimedb_lib::{
    resolved_type_via_v9, AlgebraicType, AlgebraicTypeRef, ProductType, SumType, Typespace,
};

fn plain(plain: PlainType) -> AlgebraicType {
    AlgebraicType::Plain(plain)
}

fn reference(r: u32) -> AlgebraicType {
    AlgebraicType::Ref(AlgebraicTypeRef(r))
}

fn element(name: &str, algebraic_type: AlgebraicType) -> TypeElement {
    TypeElement { name: Some(name.to_string()), algebraic_type }
}

fn product(elements: Vec<TypeElement>) -> AlgebraicType {
    AlgebraicType::Product(ProductType { elements })
}

fn sum(variants: Vec<TypeElement>) -> AlgebraicType {
    AlgebraicType::Sum(SumType { variants })
}

fn array(elem_ty: AlgebraicType) -> AlgebraicType {
    AlgebraicType::Array(ArrayType { elem_ty: Box::new(elem_ty) })
}

#[test]
fn types_are_found_by_their_place() {
    let mut typespace = Typespace::new();
    assert_eq!(typespace.add(plain(PlainType::U8)), AlgebraicTypeRef(0));
    assert_eq!(typespace.add(plain(PlainType::Bool)), AlgebraicTypeRef(1));
    assert_eq!(typespace.get(AlgebraicTypeRef(1)), Some(&plain(PlainType::Bool)));
    assert_eq!(typespace.get(AlgebraicTypeRef(2)), None);
    typespace.set(AlgebraicTypeRef(0), plain(PlainType::String));
    assert_eq!(typespace.get(AlgebraicTypeRef(0)), Some(&plain(PlainType::String)));
}

#[test]
fn references_are_filled_in_at_every_depth() {
    let mut typespace = Typespace::new();
    let point = typespace.add(product(vec![
        element("x", plain(PlainType::I32)),
        element("y", plain(PlainType::I32)),
    ]));
    let points = typespace.add(array(AlgebraicType::Ref(point)));
    let shape = sum(vec![
        element("path", AlgebraicType::Ref(points)),
        TypeElement { name: None, algebraic_type: AlgebraicType::Ref(point) },
    ]);
    let filled_point = product(vec![
        element("x", plain(PlainType::I32)),
        element("y", plain(PlainType::I32)),
    ]);
    assert_eq!(
        typespace.resolve_refs(&shape),
        Some(sum(vec![
            element("path", array(filled_point.clone())),
            TypeElement { name: None, algebraic_type: filled_point },
        ]))
    );
}

#[test]
fn a_resolved_type_resolves_to_itself() {
    let typespace = Typespace::new();
    let ty = product(vec![element("a", array(plain(PlainType::F64)))]);
    assert_eq!(typespace.resolve_refs(&ty), Some(ty));
}

#[test]
fn the_same_reference_twice_side_by_side_is_not_recursive() {
    let mut typespace = Typespace::new();
    let id = typespace.add(plain(PlainType::U64));
    let ty = product(vec![
        element("from", AlgebraicType::Ref(id)),
        element("to", AlgebraicType::Ref(id)),
    ]);
    assert_eq!(
        typespace.resolve_refs(&ty),
        Some(product(vec![
            element("from", plain(PlainType::U64)),
            element("to", plain(PlainType::U64)),
        ]))
    );
}

#[test]
fn recursive_and_broken_types_do_not_resolve() {
    let mut typespace = Typespace::new();
    typespace.add(product(vec![element("next", reference(0))]));
    typespace.add(reference(2));
    typespace.add(reference(1));
    typespace.add(array(reference(9)));
    assert_eq!(typespace.resolve_refs(&reference(0)), None);
    assert_eq!(typespace.resolve_refs(&reference(1)), None);
    assert_eq!(typespace.resolve_refs(&reference(3)), None);
    assert_eq!(typespace.resolve_refs(&reference(4)), None);
}

#[test]
fn a_type_is_resolved_by_a_module() {
    let mut typespace = Typespace::new();
    let id = typespace.add(plain(PlainType::U256));
    let module = RawModuleDefV9 { typespace };
    assert_eq!(
        resolved_type_via_v9(&module, &array(AlgebraicType::Ref(id))),
        array(plain(PlainType::U256))
    );
}
