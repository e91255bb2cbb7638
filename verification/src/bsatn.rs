//! The binary format in which definitions travel.
//!
//! Numbers are little-endian. A string is its length in bytes and its UTF-8 text, a sequence is
//! its length and its items. An optional value is a zero byte and the value, or a one byte. A type
//! is a byte that tells its kind, and what belongs to that kind.

use vstd::prelude::*;
use vstd::string::*;
use vstd::utf8::*;

use crate::types::{
    elements_view, name_view, AlgebraicType, ElementModel, PlainType, TypeElement, TypeModel,
};

verus! {

/// A number of four bytes, the least significant first.
pub open spec fn u32_bytes(n: nat) -> Seq<u8> {
    seq![
        (n % 256) as u8,
        (n / 256 % 256) as u8,
        (n / 65536 % 256) as u8,
        (n / 16777216 % 256) as u8,
    ]
}

/// A string.
pub open spec fn text_bytes(text: Seq<char>) -> Seq<u8> {
    u32_bytes(encode_utf8(text).len()) + encode_utf8(text)
}

/// An optional name.
pub open spec fn name_bytes(name: Option<Seq<char>>) -> Seq<u8> {
    match name {
        Some(text) => seq![0u8] + text_bytes(text),
        None => seq![1u8],
    }
}

/// The byte that tells a type without parts.
pub open spec fn plain_tag(plain: PlainType) -> u8 {
    match plain {
        PlainType::String => 4,
        PlainType::Bool => 5,
        PlainType::I8 => 6,
        PlainType::U8 => 7,
        PlainType::I16 => 8,
        PlainType::U16 => 9,
        PlainType::I32 => 10,
        PlainType::U32 => 11,
        PlainType::I64 => 12,
        PlainType::U64 => 13,
        PlainType::I128 => 14,
        PlainType::U128 => 15,
        PlainType::I256 => 16,
        PlainType::U256 => 17,
        PlainType::F32 => 18,
        PlainType::F64 => 19,
    }
}

/// A type.
pub open spec fn type_bytes(ty: TypeModel) -> Seq<u8>
    decreases ty,
{
    match ty {
        TypeModel::Ref(r) => seq![0u8] + u32_bytes(r as nat),
        TypeModel::Sum(variants) => seq![1u8] + (u32_bytes(variants.len()) + elements_bytes(
            variants,
        )),
        TypeModel::Product(elements) => seq![2u8] + (u32_bytes(elements.len()) + elements_bytes(
            elements,
        )),
        TypeModel::Array(elem_ty) => seq![3u8] + type_bytes(*elem_ty),
        TypeModel::Plain(plain) => seq![plain_tag(plain)],
    }
}

/// A part of a sum or product type.
pub open spec fn element_bytes(element: ElementModel) -> Seq<u8>
    decreases element,
{
    name_bytes(element.name) + type_bytes(element.ty)
}

/// The parts of a sum or product type, one after the other.
pub open spec fn elements_bytes(elements: Seq<ElementModel>) -> Seq<u8>
    decreases elements,
{
    if elements.len() == 0 {
        seq![]
    } else {
        elements_bytes(elements.drop_last()) + element_bytes(elements[elements.len() - 1])
    }
}

/// Whether the length of a text can be written.
pub open spec fn text_fits(text: Seq<char>) -> bool {
    encode_utf8(text).len() <= u32::MAX
}

pub open spec fn name_fits(name: Option<Seq<char>>) -> bool {
    name matches Some(text) ==> text_fits(text)
}

/// Whether all lengths that occur in a type can be written.
pub open spec fn type_fits(ty: TypeModel) -> bool
    decreases ty,
{
    match ty {
        TypeModel::Ref(_) => true,
        TypeModel::Sum(variants) => variants.len() <= u32::MAX && elements_fit(variants),
        TypeModel::Product(elements) => elements.len() <= u32::MAX && elements_fit(elements),
        TypeModel::Array(elem_ty) => type_fits(*elem_ty),
        TypeModel::Plain(_) => true,
    }
}

pub open spec fn elements_fit(elements: Seq<ElementModel>) -> bool
    decreases elements,
{
    elements.len() > 0 ==> {
        let last = elements[elements.len() - 1];
        &&& elements_fit(elements.drop_last())
        &&& name_fits(last.name)
        &&& type_fits(last.ty)
    }
}

/// Writes a number of four bytes.
pub fn put_u32(writer: &mut Vec<u8>, n: u32)
    ensures
        final(writer)@ == old(writer)@ + u32_bytes(n as nat),
        final(writer)@.len() == old(writer)@.len() + 4,
{
    let ghost before = writer@;
    writer.push((n % 256) as u8);
    writer.push((n / 256 % 256) as u8);
    writer.push((n / 65536 % 256) as u8);
    writer.push((n / 16777216 % 256) as u8);
    assert(writer@ =~= before + u32_bytes(n as nat));
}

/// Writes a string.
pub fn put_text(writer: &mut Vec<u8>, text: &str)
    requires
        text_fits(text@),
    ensures
        final(writer)@ == old(writer)@ + text_bytes(text@),
{
    let ghost before = writer@;
    let bytes = text.as_bytes();
    put_u32(writer, bytes.len() as u32);
    writer.extend_from_slice(bytes);
    assert(writer@ =~= before + text_bytes(text@));
}

fn put_name(writer: &mut Vec<u8>, name: &Option<String>)
    requires
        name_fits(name_view(*name)),
    ensures
        final(writer)@ == old(writer)@ + name_bytes(name_view(*name)),
{
    let ghost before = writer@;
    match name {
        Some(text) => {
            writer.push(0u8);
            put_text(writer, text.as_str());
        },
        None => {
            writer.push(1u8);
        },
    }
    assert(writer@ =~= before + name_bytes(name_view(*name)));
}

fn tag_of_plain(plain: PlainType) -> (r: u8)
    ensures
        r == plain_tag(plain),
{
    match plain {
        PlainType::String => 4,
        PlainType::Bool => 5,
        PlainType::I8 => 6,
        PlainType::U8 => 7,
        PlainType::I16 => 8,
        PlainType::U16 => 9,
        PlainType::I32 => 10,
        PlainType::U32 => 11,
        PlainType::I64 => 12,
        PlainType::U64 => 13,
        PlainType::I128 => 14,
        PlainType::U128 => 15,
        PlainType::I256 => 16,
        PlainType::U256 => 17,
        PlainType::F32 => 18,
        PlainType::F64 => 19,
    }
}

/// Writes a type.
pub fn put_type(writer: &mut Vec<u8>, ty: &AlgebraicType)
    requires
        type_fits(ty@),
    ensures
        final(writer)@ == old(writer)@ + type_bytes(ty@),
    decreases ty,
{
    let ghost before = writer@;
    match ty {
        AlgebraicType::Ref(r) => {
            writer.push(0u8);
            put_u32(writer, r.0);
        },
        AlgebraicType::Sum(sum) => {
            writer.push(1u8);
            proof {
                crate::types::lemma_elements_view_len(sum.variants@);
            }
            put_elements(writer, &sum.variants);
        },
        AlgebraicType::Product(product) => {
            writer.push(2u8);
            proof {
                crate::types::lemma_elements_view_len(product.elements@);
            }
            put_elements(writer, &product.elements);
        },
        AlgebraicType::Array(array) => {
            writer.push(3u8);
            put_type(writer, &array.elem_ty);
        },
        AlgebraicType::Plain(plain) => {
            writer.push(tag_of_plain(*plain));
        },
    }
    assert(writer@ =~= before + type_bytes(ty@));
}

/// Writes how many parts there are, and the parts.
pub fn put_elements(writer: &mut Vec<u8>, elements: &Vec<TypeElement>)
    requires
        elements@.len() <= u32::MAX,
        elements_fit(elements_view(elements@)),
    ensures
        final(writer)@ == old(writer)@ + (u32_bytes(elements@.len()) + elements_bytes(
            elements_view(elements@),
        )),
    decreases elements,
{
    broadcast use crate::types::group_elements_view;

    let ghost before = writer@;
    let ghost parts = elements_view(elements@);
    put_u32(writer, elements.len() as u32);
    let mut i: usize = 0;
    assert(parts.take(0) =~= seq![]);
    assert(writer@ =~= before + u32_bytes(elements@.len()) + elements_bytes(parts.take(0)));
    while i < elements.len()
        invariant
            i <= elements.len(),
            parts == elements_view(elements@),
            parts.len() == elements@.len(),
            elements_fit(parts),
            writer@ == before + u32_bytes(elements@.len()) + elements_bytes(parts.take(i as int)),
        decreases elements.len() - i,
    {
        broadcast use crate::types::group_elements_view;

        assert(decreases_to!(*elements => elements@));
        assert(decreases_to!(elements@ => elements@[i as int]));
        assert(decreases_to!(elements@[i as int] => elements@[i as int].algebraic_type));
        proof {
            lemma_elements_fit(parts, i as int);
            assert(parts.take(i + 1).drop_last() =~= parts.take(i as int));
            assert(parts.take(i + 1)[i as int] == parts[i as int]);
        }
        let ghost so_far = writer@;
        let element = &elements[i];
        put_name(writer, &element.name);
        put_type(writer, &element.algebraic_type);
        assert(writer@ =~= so_far + element_bytes(parts[i as int]));
        i += 1;
        assert(writer@ =~= before + u32_bytes(elements@.len()) + elements_bytes(
            parts.take(i as int),
        ));
    }
    assert(parts.take(parts.len() as int) =~= parts);
    assert(writer@ =~= before + (u32_bytes(elements@.len()) + elements_bytes(parts)));
}

proof fn lemma_elements_fit(elements: Seq<ElementModel>, i: int)
    requires
        elements_fit(elements),
        0 <= i < elements.len(),
    ensures
        name_fits(elements[i].name),
        type_fits(elements[i].ty),
    decreases elements.len(),
{
    if i < elements.len() - 1 {
        lemma_elements_fit(elements.drop_last(), i);
    }
}

proof fn lemma_split_at_front(a: Seq<u8>, x: Seq<u8>, b: Seq<u8>, y: Seq<u8>)
    requires
        a + x == b + y,
        a.len() == b.len(),
    ensures
        a == b,
        x == y,
{
    let whole = a + x;
    assert(a =~= whole.take(a.len() as int));
    assert(b =~= whole.take(a.len() as int));
    assert(x =~= whole.skip(a.len() as int));
    assert(y =~= whole.skip(a.len() as int));
}

proof fn lemma_u32_bytes_are_injective(m: nat, n: nat)
    requires
        m <= u32::MAX,
        n <= u32::MAX,
        u32_bytes(m) == u32_bytes(n),
    ensures
        m == n,
{
    assert(u32_bytes(m)[0] == u32_bytes(n)[0]);
    assert(u32_bytes(m)[1] == u32_bytes(n)[1]);
    assert(u32_bytes(m)[2] == u32_bytes(n)[2]);
    assert(u32_bytes(m)[3] == u32_bytes(n)[3]);
    assert(m % 256 == n % 256);
    assert(m / 256 % 256 == n / 256 % 256);
    assert(m / 65536 % 256 == n / 65536 % 256);
    assert(m / 16777216 % 256 == n / 16777216 % 256);
}

proof fn lemma_u32_at_front(m: nat, x: Seq<u8>, n: nat, y: Seq<u8>)
    requires
        m <= u32::MAX,
        n <= u32::MAX,
        u32_bytes(m) + x == u32_bytes(n) + y,
    ensures
        m == n,
        x == y,
{
    lemma_split_at_front(u32_bytes(m), x, u32_bytes(n), y);
    lemma_u32_bytes_are_injective(m, n);
}

/// Nothing can be read in two ways: where two strings stand at the front of the same bytes, they
/// are the same, and so is what follows.
pub proof fn law_text_is_read_in_one_way(
    a: Seq<char>,
    x: Seq<u8>,
    b: Seq<char>,
    y: Seq<u8>,
)
    requires
        text_fits(a),
        text_fits(b),
        text_bytes(a) + x == text_bytes(b) + y,
    ensures
        a == b,
        x == y,
{
    let ua = encode_utf8(a);
    let ub = encode_utf8(b);
    assert(text_bytes(a) + x =~= u32_bytes(ua.len()) + (ua + x));
    assert(text_bytes(b) + y =~= u32_bytes(ub.len()) + (ub + y));
    lemma_u32_at_front(ua.len(), ua + x, ub.len(), ub + y);
    lemma_split_at_front(ua, x, ub, y);
    encode_utf8_decode_utf8(a);
    encode_utf8_decode_utf8(b);
}

proof fn lemma_name_is_read_in_one_way(
    a: Option<Seq<char>>,
    x: Seq<u8>,
    b: Option<Seq<char>>,
    y: Seq<u8>,
)
    requires
        name_fits(a),
        name_fits(b),
        name_bytes(a) + x == name_bytes(b) + y,
    ensures
        a == b,
        x == y,
{
    assert((name_bytes(a) + x)[0] == name_bytes(a)[0]);
    assert((name_bytes(b) + y)[0] == name_bytes(b)[0]);
    match (a, b) {
        (Some(ta), Some(tb)) => {
            assert(name_bytes(a) + x =~= seq![0u8] + (text_bytes(ta) + x));
            assert(name_bytes(b) + y =~= seq![0u8] + (text_bytes(tb) + y));
            lemma_split_at_front(seq![0u8], text_bytes(ta) + x, seq![0u8], text_bytes(tb) + y);
            law_text_is_read_in_one_way(ta, x, tb, y);
        },
        (None, None) => {
            lemma_split_at_front(seq![1u8], x, seq![1u8], y);
        },
        _ => {},
    }
}

/// The first byte of a type tells its kind.
spec fn type_tag(ty: TypeModel) -> u8 {
    match ty {
        TypeModel::Ref(_) => 0,
        TypeModel::Sum(_) => 1,
        TypeModel::Product(_) => 2,
        TypeModel::Array(_) => 3,
        TypeModel::Plain(plain) => plain_tag(plain),
    }
}

/// What follows the first byte of a type.
spec fn type_rest(ty: TypeModel) -> Seq<u8> {
    match ty {
        TypeModel::Ref(r) => u32_bytes(r as nat),
        TypeModel::Sum(variants) => u32_bytes(variants.len()) + elements_bytes(variants),
        TypeModel::Product(elements) => u32_bytes(elements.len()) + elements_bytes(elements),
        TypeModel::Array(elem_ty) => type_bytes(*elem_ty),
        TypeModel::Plain(_) => seq![],
    }
}

proof fn lemma_type_bytes_split(ty: TypeModel, x: Seq<u8>)
    ensures
        type_bytes(ty) + x == seq![type_tag(ty)] + (type_rest(ty) + x),
{
    assert(type_bytes(ty) =~= seq![type_tag(ty)] + type_rest(ty));
    assert(type_bytes(ty) + x =~= seq![type_tag(ty)] + (type_rest(ty) + x));
}

/// Where two types stand at the front of the same bytes, they are the same, and so is what
/// follows.
pub proof fn law_type_is_read_in_one_way(a: TypeModel, x: Seq<u8>, b: TypeModel, y: Seq<u8>)
    requires
        type_fits(a),
        type_fits(b),
        type_bytes(a) + x == type_bytes(b) + y,
    ensures
        a == b,
        x == y,
    decreases a, 0int,
{
    lemma_type_bytes_split(a, x);
    lemma_type_bytes_split(b, y);
    lemma_split_at_front(
        seq![type_tag(a)],
        type_rest(a) + x,
        seq![type_tag(b)],
        type_rest(b) + y,
    );
    assert(seq![type_tag(a)][0] == seq![type_tag(b)][0]);
    match (a, b) {
        (TypeModel::Ref(ra), TypeModel::Ref(rb)) => {
            lemma_u32_at_front(ra as nat, x, rb as nat, y);
        },
        (TypeModel::Sum(ea), TypeModel::Sum(eb)) => {
            law_elements_are_read_in_one_way(ea, x, eb, y);
        },
        (TypeModel::Product(ea), TypeModel::Product(eb)) => {
            law_elements_are_read_in_one_way(ea, x, eb, y);
        },
        (TypeModel::Array(ta), TypeModel::Array(tb)) => {
            law_type_is_read_in_one_way(*ta, x, *tb, y);
        },
        (TypeModel::Plain(_), TypeModel::Plain(_)) => {
            assert(x =~= type_rest(a) + x);
            assert(y =~= type_rest(b) + y);
        },
        _ => {},
    }
}

/// Where two counted sequences of parts stand at the front of the same bytes, they are the same.
pub proof fn law_elements_are_read_in_one_way(
    a: Seq<ElementModel>,
    x: Seq<u8>,
    b: Seq<ElementModel>,
    y: Seq<u8>,
)
    requires
        a.len() <= u32::MAX,
        b.len() <= u32::MAX,
        elements_fit(a),
        elements_fit(b),
        u32_bytes(a.len()) + elements_bytes(a) + x == u32_bytes(b.len()) + elements_bytes(b) + y,
    ensures
        a == b,
        x == y,
    decreases a, 1int,
{
    assert(u32_bytes(a.len()) + elements_bytes(a) + x =~= u32_bytes(a.len()) + (elements_bytes(a)
        + x));
    assert(u32_bytes(b.len()) + elements_bytes(b) + y =~= u32_bytes(b.len()) + (elements_bytes(b)
        + y));
    lemma_u32_at_front(a.len(), elements_bytes(a) + x, b.len(), elements_bytes(b) + y);
    lemma_as_many_elements_are_read_in_one_way(a, x, b, y);
}

/// Where two sequences of as many parts stand at the front of the same bytes, they are the same.
proof fn lemma_as_many_elements_are_read_in_one_way(
    a: Seq<ElementModel>,
    x: Seq<u8>,
    b: Seq<ElementModel>,
    y: Seq<u8>,
)
    requires
        a.len() == b.len(),
        elements_fit(a),
        elements_fit(b),
        elements_bytes(a) + x == elements_bytes(b) + y,
    ensures
        a == b,
        x == y,
    decreases a, 0int,
{
    if a.len() == 0 {
        assert(a =~= b);
        assert(x =~= elements_bytes(a) + x);
        assert(y =~= elements_bytes(b) + y);
    } else {
        let la = a[a.len() - 1];
        let lb = b[b.len() - 1];
        let tx = type_bytes(la.ty) + x;
        let ty = type_bytes(lb.ty) + y;
        assert(element_bytes(la) == name_bytes(la.name) + type_bytes(la.ty));
        assert(element_bytes(lb) == name_bytes(lb.name) + type_bytes(lb.ty));
        assert(elements_bytes(a) + x =~= elements_bytes(a.drop_last()) + (name_bytes(la.name)
            + tx));
        assert(elements_bytes(b) + y =~= elements_bytes(b.drop_last()) + (name_bytes(lb.name)
            + ty));
        lemma_as_many_elements_are_read_in_one_way(
            a.drop_last(),
            name_bytes(la.name) + tx,
            b.drop_last(),
            name_bytes(lb.name) + ty,
        );
        lemma_name_is_read_in_one_way(la.name, tx, lb.name, ty);
        law_type_is_read_in_one_way(la.ty, x, lb.ty, y);
        assert(a =~= a.drop_last().push(la));
        assert(b =~= b.drop_last().push(lb));
    }
}

/// A number at the front of some bytes, and what follows it.
pub open spec fn read_u32(bytes: Seq<u8>) -> Option<(nat, Seq<u8>)> {
    if bytes.len() < 4 {
        None
    } else {
        Some(
            (
                (bytes[0] + 0x100 * bytes[1] + 0x1_0000 * bytes[2] + 0x100_0000
                    * bytes[3]) as nat,
                bytes.skip(4),
            ),
        )
    }
}

/// A string at the front of some bytes, and what follows it.
pub open spec fn read_text(bytes: Seq<u8>) -> Option<(Seq<char>, Seq<u8>)> {
    match read_u32(bytes) {
        Some((n, rest)) => if n <= rest.len() && valid_utf8(rest.take(n as int)) {
            Some((decode_utf8(rest.take(n as int)), rest.skip(n as int)))
        } else {
            None
        },
        None => None,
    }
}

/// An optional name at the front of some bytes, and what follows it.
pub open spec fn read_name(bytes: Seq<u8>) -> Option<(Option<Seq<char>>, Seq<u8>)> {
    if bytes.len() == 0 {
        None
    } else if bytes[0] == 0 {
        match read_text(bytes.skip(1)) {
            Some((text, rest)) => Some((Some(text), rest)),
            None => None,
        }
    } else if bytes[0] == 1 {
        Some((None, bytes.skip(1)))
    } else {
        None
    }
}

/// The types without parts, in the order of the bytes that tell them.
pub open spec fn plain_types() -> Seq<PlainType> {
    seq![
        PlainType::String,
        PlainType::Bool,
        PlainType::I8,
        PlainType::U8,
        PlainType::I16,
        PlainType::U16,
        PlainType::I32,
        PlainType::U32,
        PlainType::I64,
        PlainType::U64,
        PlainType::I128,
        PlainType::U128,
        PlainType::I256,
        PlainType::U256,
        PlainType::F32,
        PlainType::F64,
    ]
}

/// A type at the front of some bytes, and what follows it.
pub open spec fn read_type(bytes: Seq<u8>) -> Option<(TypeModel, Seq<u8>)>
    decreases bytes.len(), 0nat,
{
    if bytes.len() == 0 {
        None
    } else if bytes[0] == 0 {
        match read_u32(bytes.skip(1)) {
            Some((r, rest)) => Some((TypeModel::Ref(r as u32), rest)),
            None => None,
        }
    } else if bytes[0] == 1 || bytes[0] == 2 {
        match read_u32(bytes.skip(1)) {
            Some((n, rest)) => match read_parts(n, rest) {
                Some((parts, rest)) => Some(
                    (
                        if bytes[0] == 1 {
                            TypeModel::Sum(parts)
                        } else {
                            TypeModel::Product(parts)
                        },
                        rest,
                    ),
                ),
                None => None,
            },
            None => None,
        }
    } else if bytes[0] == 3 {
        match read_type(bytes.skip(1)) {
            Some((elem_ty, rest)) => Some((TypeModel::Array(Box::new(elem_ty)), rest)),
            None => None,
        }
    } else if bytes[0] < 4 + plain_types().len() {
        Some((TypeModel::Plain(plain_types()[bytes[0] - 4]), bytes.skip(1)))
    } else {
        None
    }
}

/// So many parts, each a name and a type, one right after the other, and what follows them.
pub open spec fn read_parts(n: nat, bytes: Seq<u8>) -> Option<(Seq<ElementModel>, Seq<u8>)>
    decreases bytes.len(), n,
{
    if n == 0 {
        Some((seq![], bytes))
    } else {
        match read_name(bytes) {
            Some((name, rest)) => if rest.len() < bytes.len() {
                match read_type(rest) {
                    Some((ty, rest)) => if rest.len() < bytes.len() {
                        match read_parts((n - 1) as nat, rest) {
                            Some((parts, rest)) => Some(
                                (seq![ElementModel { name, ty }] + parts, rest),
                            ),
                            None => None,
                        }
                    } else {
                        None
                    },
                    None => None,
                }
            } else {
                None
            },
            None => None,
        }
    }
}

/// A number comes back from its four bytes, the least significant first, and what follows is left.
pub proof fn law_number_is_read_back(n: nat, after: Seq<u8>)
    requires
        n <= u32::MAX,
    ensures
        u32_bytes(n).len() == 4,
        n == u32_bytes(n)[0] + 0x100 * u32_bytes(n)[1] + 0x1_0000 * u32_bytes(n)[2] + 0x100_0000
            * u32_bytes(n)[3],
        read_u32(u32_bytes(n) + after) == Some((n, after)),
{
    let bytes = u32_bytes(n) + after;
    assert(bytes.skip(4) =~= after);
    assert(bytes[0] == u32_bytes(n)[0]);
    assert(bytes[1] == u32_bytes(n)[1]);
    assert(bytes[2] == u32_bytes(n)[2]);
    assert(bytes[3] == u32_bytes(n)[3]);
    assert(n == n % 256 + 256 * (n / 256 % 256) + 65536 * (n / 65536 % 256) + 16777216 * (n
        / 16777216 % 256));
}

/// A string comes back from its bytes, and what follows is left.
pub proof fn law_text_is_read_back(text: Seq<char>, after: Seq<u8>)
    requires
        text_fits(text),
    ensures
        text_bytes(text).len() == 4 + encode_utf8(text).len(),
        text_bytes(text).take(4) == u32_bytes(encode_utf8(text).len()),
        text_bytes(text).skip(4) == encode_utf8(text),
        read_text(text_bytes(text) + after) == Some((text, after)),
{
    let utf8 = encode_utf8(text);
    let bytes = text_bytes(text) + after;
    law_number_is_read_back(utf8.len(), utf8 + after);
    assert(text_bytes(text).take(4) =~= u32_bytes(utf8.len()));
    assert(text_bytes(text).skip(4) =~= utf8);
    assert(bytes =~= u32_bytes(utf8.len()) + (utf8 + after));
    assert((utf8 + after).take(utf8.len() as int) =~= utf8);
    assert((utf8 + after).skip(utf8.len() as int) =~= after);
    encode_utf8_valid_utf8(text);
    encode_utf8_decode_utf8(text);
}

/// An optional name comes back from its bytes, and what follows is left: it is a zero byte and the
/// text, or a one byte.
pub proof fn law_name_is_read_back(name: Option<Seq<char>>, after: Seq<u8>)
    requires
        name_fits(name),
    ensures
        name_bytes(name).len() > 0,
        name is None ==> name_bytes(name) == seq![1u8],
        name is Some ==> name_bytes(name) == seq![0u8] + text_bytes(name->Some_0),
        read_name(name_bytes(name) + after) == Some((name, after)),
{
    let bytes = name_bytes(name) + after;
    match name {
        Some(text) => {
            assert(bytes.skip(1) =~= text_bytes(text) + after);
            law_text_is_read_back(text, after);
        },
        None => {
            assert(bytes.skip(1) =~= after);
        },
    }
}

/// The parts of a sum or product stand one right after the other: the bytes of two sequences of
/// parts are those of the first and those of the second, and those of a single part are its name
/// and its type.
pub proof fn law_parts_are_concatenated(a: Seq<ElementModel>, b: Seq<ElementModel>)
    ensures
        elements_bytes(a + b) == elements_bytes(a) + elements_bytes(b),
        a.len() == 0 ==> elements_bytes(a).len() == 0,
        a.len() == 1 ==> elements_bytes(a) == name_bytes(a[0].name) + type_bytes(a[0].ty),
    decreases b.len(),
{
    if b.len() == 0 {
        assert(a + b =~= a);
        assert(elements_bytes(a) + elements_bytes(b) =~= elements_bytes(a));
    } else {
        law_parts_are_concatenated(a, b.drop_last());
        assert((a + b).drop_last() =~= a + b.drop_last());
        assert((a + b)[(a + b).len() - 1] == b[b.len() - 1]);
        assert(elements_bytes(a + b) =~= elements_bytes(a) + elements_bytes(b));
    }
    if a.len() == 1 {
        assert(a.drop_last() =~= seq![]);
        assert(elements_bytes(a.drop_last()) =~= seq![]);
        assert(element_bytes(a[0]) == name_bytes(a[0].name) + type_bytes(a[0].ty));
        assert(elements_bytes(a) =~= element_bytes(a[0]));
    }
}

/// What a type is written as, byte by byte: a byte that tells its kind, and then a reference's
/// number, or how many parts there are and the parts, or the type of an array's elements, or
/// nothing; never anything between these or after them.
pub proof fn law_layout_of_types(ty: TypeModel, a: Seq<ElementModel>, b: Seq<ElementModel>)
    ensures
        match ty {
            TypeModel::Ref(r) => type_bytes(ty) == seq![0u8] + u32_bytes(r as nat),
            TypeModel::Sum(parts) => {
                &&& type_bytes(ty) == seq![1u8] + u32_bytes(parts.len()) + elements_bytes(parts)
                &&& type_bytes(ty).len() == 5 + elements_bytes(parts).len()
            },
            TypeModel::Product(parts) => {
                &&& type_bytes(ty) == seq![2u8] + u32_bytes(parts.len()) + elements_bytes(parts)
                &&& type_bytes(ty).len() == 5 + elements_bytes(parts).len()
            },
            TypeModel::Array(elem_ty) => type_bytes(ty) == seq![3u8] + type_bytes(*elem_ty),
            TypeModel::Plain(_) => type_bytes(ty).len() == 1,
        },
        type_bytes(TypeModel::Sum(a + b)).len() + 5 == type_bytes(TypeModel::Sum(a)).len()
            + type_bytes(TypeModel::Sum(b)).len(),
        type_bytes(TypeModel::Product(a + b)).len() + 5 == type_bytes(TypeModel::Product(a)).len()
            + type_bytes(TypeModel::Product(b)).len(),
{
    match ty {
        TypeModel::Sum(parts) => {
            assert(type_bytes(ty) =~= seq![1u8] + u32_bytes(parts.len()) + elements_bytes(parts));
        },
        TypeModel::Product(parts) => {
            assert(type_bytes(ty) =~= seq![2u8] + u32_bytes(parts.len()) + elements_bytes(parts));
        },
        _ => {},
    }
    law_parts_are_concatenated(a, b);
    assert(type_bytes(TypeModel::Sum(a + b)).len() == 5 + elements_bytes(a + b).len());
    assert(type_bytes(TypeModel::Sum(a)).len() == 5 + elements_bytes(a).len());
    assert(type_bytes(TypeModel::Sum(b)).len() == 5 + elements_bytes(b).len());
    assert(type_bytes(TypeModel::Product(a + b)).len() == 5 + elements_bytes(a + b).len());
    assert(type_bytes(TypeModel::Product(a)).len() == 5 + elements_bytes(a).len());
    assert(type_bytes(TypeModel::Product(b)).len() == 5 + elements_bytes(b).len());
}

/// The types without parts are told by the bytes from 4 to 19, one each, in their order.
pub proof fn law_plain_types_are_counted(plain: PlainType, i: int)
    ensures
        type_bytes(TypeModel::Plain(plain)).len() == 1,
        4 <= type_bytes(TypeModel::Plain(plain))[0] <= 19,
        plain_types()[type_bytes(TypeModel::Plain(plain))[0] - 4] == plain,
        0 <= i < 16 ==> type_bytes(TypeModel::Plain(plain_types()[i]))[0] == i + 4,
{
}

/// A type comes back when its bytes are read, and what follows them is left.
pub proof fn law_type_is_read_back(ty: TypeModel, after: Seq<u8>)
    requires
        type_fits(ty),
    ensures
        type_bytes(ty).len() > 0,
        read_type(type_bytes(ty) + after) == Some((ty, after)),
    decreases ty, 0int,
{
    let bytes = type_bytes(ty) + after;
    match ty {
        TypeModel::Ref(r) => {
            assert(bytes.skip(1) =~= u32_bytes(r as nat) + after);
            law_number_is_read_back(r as nat, after);
        },
        TypeModel::Sum(parts) => {
            assert(bytes.skip(1) =~= u32_bytes(parts.len()) + (elements_bytes(parts) + after));
            law_number_is_read_back(parts.len(), elements_bytes(parts) + after);
            lemma_parts_are_read_back(parts, after);
        },
        TypeModel::Product(parts) => {
            assert(bytes.skip(1) =~= u32_bytes(parts.len()) + (elements_bytes(parts) + after));
            law_number_is_read_back(parts.len(), elements_bytes(parts) + after);
            lemma_parts_are_read_back(parts, after);
        },
        TypeModel::Array(elem_ty) => {
            assert(bytes.skip(1) =~= type_bytes(*elem_ty) + after);
            law_type_is_read_back(*elem_ty, after);
        },
        TypeModel::Plain(plain) => {
            assert(bytes.skip(1) =~= after);
            law_plain_types_are_counted(plain, 0);
        },
    }
}

proof fn lemma_elements_fit_without_first(elements: Seq<ElementModel>)
    requires
        elements_fit(elements),
        elements.len() > 0,
    ensures
        elements_fit(elements.drop_first()),
    decreases elements.len(),
{
    if elements.len() > 1 {
        lemma_elements_fit_without_first(elements.drop_last());
        assert(elements.drop_first().drop_last() =~= elements.drop_last().drop_first());
    }
}

proof fn lemma_parts_are_read_back(parts: Seq<ElementModel>, after: Seq<u8>)
    requires
        elements_fit(parts),
    ensures
        read_parts(parts.len(), elements_bytes(parts) + after) == Some((parts, after)),
    decreases parts, 1int,
{
    if parts.len() == 0 {
        assert(elements_bytes(parts) + after =~= after);
        assert(parts =~= seq![]);
    } else {
        let first = parts[0];
        let others = parts.drop_first();
        let rest = elements_bytes(others) + after;
        assert(parts =~= seq![first] + others);
        law_parts_are_concatenated(seq![first], others);
        lemma_elements_fit(parts, 0);
        lemma_elements_fit_without_first(parts);
        let bytes = elements_bytes(parts) + after;
        assert(bytes =~= name_bytes(first.name) + (type_bytes(first.ty) + rest));
        law_name_is_read_back(first.name, type_bytes(first.ty) + rest);
        assert(decreases_to!(parts => parts[0]));
        law_type_is_read_back(first.ty, rest);
        lemma_parts_are_read_back(others, after);
    }
}

/// Counted parts come back when their bytes are read, and what follows them is left.
pub proof fn law_parts_are_read_back(parts: Seq<ElementModel>, after: Seq<u8>)
    requires
        parts.len() <= u32::MAX,
        elements_fit(parts),
    ensures
        ({
            let bytes = u32_bytes(parts.len()) + elements_bytes(parts) + after;
            &&& read_u32(bytes) == Some((parts.len(), elements_bytes(parts) + after))
            &&& read_parts(parts.len(), elements_bytes(parts) + after) == Some((parts, after))
        }),
{
    assert(u32_bytes(parts.len()) + elements_bytes(parts) + after =~= u32_bytes(parts.len()) + (
    elements_bytes(parts) + after));
    law_number_is_read_back(parts.len(), elements_bytes(parts) + after);
    lemma_parts_are_read_back(parts, after);
}

/// All texts and types can be written but those with a length beyond four bytes in them, at any
/// depth.
pub proof fn law_what_can_be_written(text: Seq<char>, ty: TypeModel)
    ensures
        text_fits(text) <==> encode_utf8(text).len() <= u32::MAX,
        type_fits(ty) <==> match ty {
            TypeModel::Ref(_) => true,
            TypeModel::Plain(_) => true,
            TypeModel::Array(elem_ty) => type_fits(*elem_ty),
            TypeModel::Sum(parts) => parts.len() <= u32::MAX && forall|i: int|
                0 <= i < parts.len() ==> part_can_be_written(#[trigger] parts[i]),
            TypeModel::Product(parts) => parts.len() <= u32::MAX && forall|i: int|
                0 <= i < parts.len() ==> part_can_be_written(#[trigger] parts[i]),
        },
{
    match ty {
        TypeModel::Sum(parts) => {
            lemma_parts_can_be_written(parts);
        },
        TypeModel::Product(parts) => {
            lemma_parts_can_be_written(parts);
        },
        _ => {},
    }
}

/// Whether a part's name, if it has one, and its type can be written.
pub open spec fn part_can_be_written(part: ElementModel) -> bool {
    &&& part.name is Some ==> encode_utf8(part.name->Some_0).len() <= u32::MAX
    &&& type_fits(part.ty)
}

proof fn lemma_parts_can_be_written(parts: Seq<ElementModel>)
    ensures
        elements_fit(parts) <==> forall|i: int|
            0 <= i < parts.len() ==> part_can_be_written(#[trigger] parts[i]),
    decreases parts.len(),
{
    if parts.len() > 0 {
        let before = parts.drop_last();
        lemma_parts_can_be_written(before);
        if forall|i: int| 0 <= i < parts.len() ==> part_can_be_written(#[trigger] parts[i]) {
            assert forall|i: int| 0 <= i < before.len() implies part_can_be_written(
                #[trigger] before[i],
            ) by {
                assert(before[i] == parts[i]);
            }
            assert(part_can_be_written(parts[parts.len() - 1]));
        }
        if elements_fit(parts) {
            assert forall|i: int| 0 <= i < parts.len() implies part_can_be_written(
                #[trigger] parts[i],
            ) by {
                lemma_elements_fit(parts, i);
            }
        }
    }
}

} // verus!
