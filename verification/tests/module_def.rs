use spacetimedb_lib::module_def::{RawColumnDefV8, RawTableDefV8, TableDefError};
use spacetimedb_lib::types::{ArrayType, PlainType, TypeElement};
use spacetimedb_lib::{
    AlgebraicType, AlgebraicTypeRef, MiscModuleExport, ModuleDefBuilder, ProductType, RawModuleDef,
    RawModuleDefV8, ReducerDef, SumType, TableDesc, TypeAlias, WithTypespace,
};

fn column(name: &str, col_type: AlgebraicType) -> RawColumnDefV8 {
    RawColumnDefV8 { col_name: name.to_string(), col_type }
}

fn table(name: &str, columns: Vec<RawColumnDefV8>) -> RawTableDefV8 {
    RawTableDefV8 { table_name: name.to_string(), columns }
}

fn alias(name: &str, ty: u32) -> MiscModuleExport {
    MiscModuleExport::TypeAlias(TypeAlias { name: name.to_string(), ty: AlgebraicTypeRef(ty) })
}

const U32: AlgebraicType = AlgebraicType::Plain(PlainType::U32);
const STRING: AlgebraicType = AlgebraicType::Plain(PlainType::String);

#[test]
fn an_empty_builder_gives_an_empty_module() {
    let module = RawModuleDefV8::builder().finish();
    assert_eq!(module, RawModuleDefV8::default());
    assert!(module.typespace.types.is_empty());
    assert!(module.tables.is_empty());
    assert!(module.reducers.is_empty());
    assert!(module.misc_exports.is_empty());
}

#[test]
fn a_table_brings_its_row_type_and_its_name() {
    let mut builder = RawModuleDefV8::builder();
    builder.add_type_for_tests("Number", U32);
    let schema = table("people", vec![column("id", U32), column("name", STRING)]);
    let data = builder.add_table_for_tests(schema.clone());
    assert_eq!(data, AlgebraicTypeRef(1));
    let module = builder.finish();
    assert_eq!(
        module.typespace.types[1],
        AlgebraicType::Product(ProductType {
            elements: vec![
                TypeElement { name: Some("id".to_string()), algebraic_type: U32 },
                TypeElement { name: Some("name".to_string()), algebraic_type: STRING },
            ],
        })
    );
    assert_eq!(module.misc_exports, vec![alias("Number", 0), alias("people", 1)]);
    assert_eq!(module.tables, vec![TableDesc { schema: schema.clone(), data }]);
    assert_eq!(
        TableDesc::into_table_def(WithTypespace::new(&module.typespace, &module.tables[0])),
        Ok(schema)
    );
}

#[test]
fn a_table_of_a_recursive_type_is_refused() {
    let mut builder = RawModuleDefV8::builder();
    builder.add_table_for_tests(table(
        "tree",
        vec![column("child", AlgebraicType::Ref(AlgebraicTypeRef(0)))],
    ));
    let module = builder.finish();
    let result = TableDesc::into_table_def(WithTypespace::new(&module.typespace, &module.tables[0]));
    assert_eq!(result, Err(TableDefError::RecursiveTypes));
    assert_eq!(result.unwrap_err().message(), "recursive types not yet supported");
}

#[test]
fn a_table_whose_rows_do_not_fit_is_refused() {
    let mut builder = RawModuleDefV8::builder();
    let plain = builder.add_type_for_tests("Plain", U32);
    let unit = builder.add_type_for_tests("Unit", AlgebraicType::unit());
    let schema = table("t", vec![column("id", U32)]);
    let typespace = builder.typespace();

    let not_a_product = TableDesc { schema: schema.clone(), data: plain };
    let result = TableDesc::into_table_def(WithTypespace::new(typespace, &not_a_product));
    assert_eq!(result, Err(TableDefError::NotAProduct));
    assert_eq!(result.unwrap_err().message(), "table not a product type?");

    let too_few = TableDesc { schema: schema.clone(), data: unit };
    let result = TableDesc::into_table_def(WithTypespace::new(typespace, &too_few));
    assert_eq!(result, Err(TableDefError::MismatchedColumns));
    assert_eq!(result.unwrap_err().message(), "mismatched number of columns");

    let nowhere = TableDesc { schema, data: AlgebraicTypeRef(7) };
    let result = TableDesc::into_table_def(WithTypespace::new(typespace, &nowhere));
    assert_eq!(result, Err(TableDefError::RecursiveTypes));
}

#[test]
fn a_type_is_added_once() {
    let mut builder = RawModuleDefV8::builder();
    let first = builder.add(7, Some("Number"), |_| U32);
    let second = builder.add(7, Some("Other"), |_| STRING);
    assert_eq!(first, AlgebraicType::Ref(AlgebraicTypeRef(0)));
    assert_eq!(second, first);
    let module = builder.finish();
    assert_eq!(module.typespace.types, vec![U32]);
    assert_eq!(module.misc_exports, vec![alias("Number", 0)]);
}

fn option_of(some: AlgebraicType) -> AlgebraicType {
    AlgebraicType::Sum(SumType {
        variants: vec![
            TypeElement { name: Some("some".to_string()), algebraic_type: some },
            TypeElement { name: Some("none".to_string()), algebraic_type: AlgebraicType::unit() },
        ],
    })
}

fn add_node(builder: &mut ModuleDefBuilder) -> AlgebraicType {
    builder.add(1, Some("Node"), |builder| {
        let label = add_label(builder);
        let next = option_of(add_node(builder));
        AlgebraicType::Product(ProductType {
            elements: vec![
                TypeElement { name: Some("label".to_string()), algebraic_type: label },
                TypeElement { name: Some("next".to_string()), algebraic_type: next },
            ],
        })
    })
}

fn add_label(builder: &mut ModuleDefBuilder) -> AlgebraicType {
    builder.add(2, None, |_| STRING)
}

#[test]
fn a_type_can_refer_to_itself() {
    let mut builder = RawModuleDefV8::builder();
    let node = builder.add_type(add_node);
    assert_eq!(node, AlgebraicType::Ref(AlgebraicTypeRef(0)));
    let module = builder.finish();
    assert_eq!(module.typespace.types.len(), 2);
    assert_eq!(
        module.typespace.types[0],
        AlgebraicType::Product(ProductType {
            elements: vec![
                TypeElement {
                    name: Some("label".to_string()),
                    algebraic_type: AlgebraicType::Ref(AlgebraicTypeRef(1)),
                },
                TypeElement {
                    name: Some("next".to_string()),
                    algebraic_type: option_of(AlgebraicType::Ref(AlgebraicTypeRef(0))),
                },
            ],
        })
    );
    assert_eq!(module.typespace.types[1], STRING);
    assert_eq!(module.misc_exports, vec![alias("Node", 0)]);
}

#[test]
fn everything_is_kept_in_the_order_in_which_it_was_added() {
    let module = RawModuleDefV8::with_builder(|builder| {
        builder.add_reducer_for_tests("init", ProductType { elements: vec![] });
        builder.add_reducer(ReducerDef {
            name: "rename".to_string(),
            args: vec![TypeElement { name: Some("to".to_string()), algebraic_type: STRING }],
        });
        builder.add_type_alias(TypeAlias { name: "A".to_string(), ty: AlgebraicTypeRef(3) });
        builder.add_misc_export(alias("B", 4));
        builder.add_table(TableDesc { schema: table("x", vec![]), data: AlgebraicTypeRef(0) });
        builder.add_table(TableDesc { schema: table("y", vec![]), data: AlgebraicTypeRef(1) });
    });
    assert_eq!(module.reducers[0], ReducerDef { name: "init".to_string(), args: vec![] });
    assert_eq!(module.reducers[1].name, "rename");
    assert_eq!(module.reducers[1].args[0].name, Some("to".to_string()));
    assert_eq!(module.misc_exports, vec![alias("A", 3), alias("B", 4)]);
    assert_eq!(module.tables[0].schema.table_name, "x");
    assert_eq!(module.tables[1].schema.table_name, "y");
    assert!(matches!(RawModuleDef::V8BackCompat(module), RawModuleDef::V8BackCompat(_)));
}

#[test]
fn a_copy_of_a_type_is_the_same_type() {
    let ty = AlgebraicType::Array(ArrayType { elem_ty: Box::new(option_of(U32)) });
    assert_eq!(ty.clone(), ty);
}
