use spacetimedb_lib::bsatn::{put_text, put_type, put_u32};
use spacetimedb_lib::reducer::{write_args, ArgsError, ProductKind, ReadArgsError};
use spacetimedb_lib::types::{ArrayType, PlainType, TypeElement};
use spacetimedb_lib::{
    AlgebraicType, AlgebraicTypeRef, ProductType, ProductValue, ReducerDef, SumType, Typespace,
    WithTypespace,
};

fn arg(name: &str, plain: PlainType) -> TypeElement {
    TypeElement { name: Some(name.to_string()), algebraic_type: AlgebraicType::Plain(plain) }
}

fn reducer() -> ReducerDef {
    ReducerDef {
        name: "move_to".to_string(),
        args: vec![arg("x", PlainType::I32), arg("y", PlainType::I64), arg("who", PlainType::String)],
    }
}

#[test]
fn a_definition_is_encoded() {
    let def = ReducerDef {
        name: "say".to_string(),
        args: vec![
            TypeElement { name: None, algebraic_type: AlgebraicType::Plain(PlainType::Bool) },
            TypeElement {
                name: Some("é".to_string()),
                algebraic_type: AlgebraicType::Ref(AlgebraicTypeRef(0x0102_0304)),
            },
        ],
    };
    let mut out = vec![0xAA];
    def.encode(&mut out);
    assert_eq!(
        out,
        vec![
            0xAA, 3, 0, 0, 0, b's', b'a', b'y', 2, 0, 0, 0, 1, 5, 0, 2, 0, 0, 0, 0xC3, 0xA9, 0, 4,
            3, 2, 1
        ]
    );
}

#[test]
fn nested_types_are_encoded() {
    let ty = AlgebraicType::Array(ArrayType {
        elem_ty: Box::new(AlgebraicType::Sum(SumType {
            variants: vec![TypeElement {
                name: None,
                algebraic_type: AlgebraicType::Product(ProductType { elements: vec![] }),
            }],
        })),
    });
    let mut out = vec![];
    put_type(&mut out, &ty);
    assert_eq!(out, vec![3, 1, 1, 0, 0, 0, 1, 2, 0, 0, 0, 0]);
}

#[test]
fn plain_types_have_tags_of_their_own() {
    let plain = [
        PlainType::String,
        PlainType::Bool,
        PlainType::I8,
        PlainType::U8,
        PlainType::I16,
        PlainType::U16,
        PlainType::I32,
        PlainType::U32,
        PlainType::I64,
        PlainType::U64,
        PlainType::I128,
        PlainType::U128,
        PlainType::I256,
        PlainType::U256,
        PlainType::F32,
        PlainType::F64,
    ];
    for (i, p) in plain.iter().enumerate() {
        let mut out = vec![];
        put_type(&mut out, &AlgebraicType::Plain(*p));
        assert_eq!(out, vec![4 + i as u8]);
    }
}

#[test]
fn numbers_and_texts_are_encoded() {
    let mut out = vec![];
    put_u32(&mut out, 0xDEAD_BEEF);
    put_text(&mut out, "ab");
    assert_eq!(out, vec![0xEF, 0xBE, 0xAD, 0xDE, 2, 0, 0, 0, b'a', b'b']);
}

#[test]
fn args_are_written_as_their_types_in_order() {
    let typespace = Typespace::new();
    let def = reducer();
    let value = ProductValue { elements: vec!["1", "2", "me"] };
    let written = ReducerDef::serialize_args(WithTypespace::new(&typespace, &def), &value);
    let written: Vec<_> = written.iter().map(|w| (w.ty.ty.clone(), *w.value)).collect();
    assert_eq!(
        written,
        vec![
            (AlgebraicType::Plain(PlainType::I32), "1"),
            (AlgebraicType::Plain(PlainType::I64), "2"),
            (AlgebraicType::Plain(PlainType::String), "me"),
        ]
    );
}

#[test]
fn written_args_come_back_in_order() {
    let typespace = Typespace::new();
    let def = reducer();
    let value = ProductValue { elements: vec![1, 2, 3] };
    let written = ReducerDef::serialize_args(WithTypespace::new(&typespace, &def), &value);
    let deserialize = ReducerDef::deserialize(WithTypespace::new(&typespace, &def));
    let mut visit = deserialize.visit_seq_product();
    for w in &written {
        assert_eq!(visit.wanted().unwrap().ty, w.ty.ty);
        assert_eq!(visit.supply(Some(*w.value)), Ok(()));
    }
    assert!(visit.wanted().is_none());
    assert_eq!(visit.finish(), value);
}

#[test]
fn too_few_args_are_told() {
    let typespace = Typespace::new();
    let def = reducer();
    let deserialize = ReducerDef::deserialize(WithTypespace::new(&typespace, &def));
    let mut visit = deserialize.visit_seq_product();
    assert_eq!(visit.supply(Some(1)), Ok(()));
    assert_eq!(visit.supply(Some(2)), Ok(()));
    assert_eq!(visit.supply(None), Err(ArgsError::InvalidLength(2)));
}

#[test]
fn args_by_name_come_in_any_order() {
    let typespace = Typespace::new();
    let def = reducer();
    let names = ["x", "y", "who"];
    for order in [[0, 1, 2], [0, 2, 1], [1, 0, 2], [1, 2, 0], [2, 0, 1], [2, 1, 0]] {
        let deserialize = ReducerDef::deserialize(WithTypespace::new(&typespace, &def));
        let mut visit = deserialize.visit_named_product();
        for i in order {
            assert_eq!(visit.wanted(names[i]).map(|t| t.ty), Ok(&def.args[i].algebraic_type));
            assert_eq!(visit.supply(names[i], i), Ok(()));
        }
        assert_eq!(visit.missing(), None);
        assert_eq!(visit.finish(), Ok(ProductValue { elements: vec![0, 1, 2] }));
    }
}

#[test]
fn args_by_wrong_names_are_refused() {
    let typespace = Typespace::new();
    let def = reducer();
    let deserialize = ReducerDef::deserialize(WithTypespace::new(&typespace, &def));
    let mut visit = deserialize.visit_named_product();
    assert_eq!(visit.supply("z", 9), Err(ArgsError::UnknownField));
    assert_eq!(visit.wanted("z").map(|t| t.ty), Err(ArgsError::UnknownField));
    assert_eq!(visit.supply("x", 1), Ok(()));
    assert_eq!(visit.supply("x", 2), Err(ArgsError::DuplicateField(0)));
    assert_eq!(visit.supply("who", 3), Ok(()));
    assert_eq!(visit.missing(), Some(1));
    assert_eq!(visit.finish(), Err(ArgsError::MissingField(1)));
}

#[test]
fn the_arguments_are_a_product_named_like_the_reducer() {
    let typespace = Typespace::new();
    let def = reducer();
    let deserialize = ReducerDef::deserialize(WithTypespace::new(&typespace, &def));
    assert_eq!(deserialize.product_name(), Some("move_to"));
    assert_eq!(deserialize.product_len(), 3);
    assert_eq!(deserialize.product_kind(), ProductKind::ReducerArgs);
}

type NumberType<'a> = WithTypespace<'a, AlgebraicType>;

/// The bytes of a number, as many as its type has. There are none for a number that is too large.
fn put_number(ty: NumberType<'_>, v: &i64) -> Result<Vec<u8>, &'static str> {
    match ty.ty {
        AlgebraicType::Plain(PlainType::I32) => {
            Ok(i32::try_from(*v).map_err(|_| "too large")?.to_le_bytes().to_vec())
        }
        _ => Ok(v.to_le_bytes().to_vec()),
    }
}

/// The number at the front of some bytes, and how many it takes, if there are any bytes.
fn take_number(
    ty: NumberType<'_>,
    bytes: &[u8],
) -> Result<Option<(i64, usize)>, &'static str> {
    if bytes.is_empty() {
        return Ok(None);
    }
    match ty.ty {
        AlgebraicType::Plain(PlainType::I32) => {
            let front = bytes.get(..4).ok_or("cut")?;
            Ok(Some((i32::from_le_bytes(front.try_into().unwrap()) as i64, 4)))
        }
        _ => {
            let front = bytes.get(..8).ok_or("cut")?;
            Ok(Some((i64::from_le_bytes(front.try_into().unwrap()), 8)))
        }
    }
}

#[test]
fn args_come_back_from_their_bytes() {
    let typespace = Typespace::new();
    let def = reducer();
    let value = ProductValue { elements: vec![-1, 1 << 40, 3] };
    let mut bytes: Vec<u8> = vec![9];
    let ty = || WithTypespace::new(&typespace, &def);
    assert_eq!(write_args(ty(), &value, &mut bytes, put_number), Ok(()));
    assert_eq!(bytes.len(), 1 + 4 + 8 + 8);
    assert_eq!(bytes[..6], [9, 255, 255, 255, 255, 0]);
    let reader = ReducerDef::deserialize(ty());
    assert_eq!(reader.read_args(&bytes[1..], take_number), Ok((value.clone(), 20)));
    bytes.extend([7, 7]);
    assert_eq!(reader.read_args(&bytes[1..], take_number), Ok((value, 20)));
}

#[test]
fn args_that_cannot_be_written_or_read_are_told() {
    let typespace = Typespace::new();
    let def = reducer();
    let ty = || WithTypespace::new(&typespace, &def);
    let mut bytes: Vec<u8> = vec![];
    let too_large = ProductValue { elements: vec![1 << 40, 2, 3] };
    assert_eq!(write_args(ty(), &too_large, &mut bytes, put_number), Err("too large"));
    assert!(bytes.is_empty());
    let value = ProductValue { elements: vec![1, 2, 3] };
    assert_eq!(write_args(ty(), &value, &mut bytes, put_number), Ok(()));
    let reader = ReducerDef::deserialize(ty());
    assert_eq!(
        reader.read_args(&bytes[..12], take_number),
        Err(ReadArgsError::Args(ArgsError::InvalidLength(2)))
    );
    assert_eq!(reader.read_args(&bytes[..13], take_number), Err(ReadArgsError::Source("cut")));
}

#[test]
fn different_definitions_have_different_bytes() {
    let defs = [
        ReducerDef { name: "a".to_string(), args: vec![] },
        ReducerDef { name: "ab".to_string(), args: vec![] },
        ReducerDef { name: "a".to_string(), args: vec![arg("b", PlainType::I32)] },
        ReducerDef { name: "a".to_string(), args: vec![arg("b", PlainType::I64)] },
        reducer(),
    ];
    let encoded: Vec<Vec<u8>> = defs
        .iter()
        .map(|def| {
            let mut bytes = Vec::new();
            def.encode(&mut bytes);
            bytes
        })
        .collect();
    for (i, a) in encoded.iter().enumerate() {
        for (j, b) in encoded.iter().enumerate() {
            assert_eq!(a.starts_with(b), i == j);
        }
    }
}
