//! The structural types by which tables, columns and reducer arguments are described.

use vstd::prelude::*;

verus! {

/// The place of a type in a [`Typespace`](crate::typespace::Typespace).
#[derive(Clone, Copy, PartialEq, Eq, PartialOrd, Ord, Debug, Structural)]
pub struct AlgebraicTypeRef(pub u32);

/// A type without parts: strings, booleans and numbers.
#[derive(Clone, Copy, PartialEq, Eq, PartialOrd, Ord, Debug, Structural)]
pub enum PlainType {
    String,
    Bool,
    I8,
    U8,
    I16,
    U16,
    I32,
    U32,
    I64,
    U64,
    I128,
    U128,
    I256,
    U256,
    F32,
    F64,
}

/// A structural type.
#[derive(PartialEq, Eq, PartialOrd, Ord, Debug)]
pub enum AlgebraicType {
    /// A type that stands elsewhere in the typespace.
    Ref(AlgebraicTypeRef),
    /// One of several variants.
    Sum(SumType),
    /// All of several elements.
    Product(ProductType),
    /// Any number of elements of one type.
    Array(ArrayType),
    /// A type without parts.
    Plain(PlainType),
}

#[derive(Clone, PartialEq, Eq, PartialOrd, Ord, Debug)]
pub struct SumType {
    pub variants: Vec<SumTypeVariant>,
}

#[derive(Clone, PartialEq, Eq, PartialOrd, Ord, Debug)]
pub struct ProductType {
    pub elements: Vec<ProductTypeElement>,
}

#[derive(Clone, PartialEq, Eq, PartialOrd, Ord, Debug)]
pub struct ArrayType {
    pub elem_ty: Box<AlgebraicType>,
}

/// A part of a sum or product type: its type, and its name if it has one.
#[derive(PartialEq, Eq, PartialOrd, Ord, Debug)]
pub struct TypeElement {
    pub name: Option<String>,
    pub algebraic_type: AlgebraicType,
}

/// A variant of a sum type.
pub type SumTypeVariant = TypeElement;

/// An element of a product type.
pub type ProductTypeElement = TypeElement;

/// What an [`AlgebraicType`] is.
#[verifier::ext_equal]
pub enum TypeModel {
    Ref(u32),
    Sum(Seq<ElementModel>),
    Product(Seq<ElementModel>),
    Array(Box<TypeModel>),
    Plain(PlainType),
}

/// What a part of a sum or product type is.
#[verifier::ext_equal]
pub struct ElementModel {
    pub name: Option<Seq<char>>,
    pub ty: TypeModel,
}

/// An optional name as text.
pub open spec fn name_view(name: Option<String>) -> Option<Seq<char>> {
    match name {
        Some(text) => Some(text@),
        None => None,
    }
}

/// What a sequence of parts is.
pub open spec fn elements_view(elements: Seq<TypeElement>) -> Seq<ElementModel>
    decreases elements,
{
    if elements.len() == 0 {
        seq![]
    } else {
        elements_view(elements.drop_last()).push(elements[elements.len() - 1]@)
    }
}

pub broadcast proof fn lemma_elements_view_len(elements: Seq<TypeElement>)
    ensures
        (#[trigger] elements_view(elements)).len() == elements.len(),
    decreases elements.len(),
{
    if elements.len() > 0 {
        lemma_elements_view_len(elements.drop_last());
    }
}

pub broadcast proof fn lemma_elements_view_index(elements: Seq<TypeElement>, i: int)
    requires
        0 <= i < elements.len(),
    ensures
        #[trigger] elements_view(elements)[i] == elements[i]@,
    decreases elements.len(),
{
    lemma_elements_view_len(elements.drop_last());
    if i < elements.len() - 1 {
        lemma_elements_view_index(elements.drop_last(), i);
        assert(elements.drop_last()[i] == elements[i]);
    }
}

pub broadcast group group_elements_view {
    lemma_elements_view_len,
    lemma_elements_view_index,
}

impl TypeElement {
    pub open spec fn view(&self) -> ElementModel
        decreases self,
    {
        ElementModel { name: name_view(self.name), ty: self.algebraic_type@ }
    }
}

impl AlgebraicType {
    pub open spec fn view(&self) -> TypeModel
        decreases self,
    {
        match self {
            AlgebraicType::Ref(r) => TypeModel::Ref(r.0),
            AlgebraicType::Sum(sum) => TypeModel::Sum(elements_view(sum.variants@)),
            AlgebraicType::Product(product) => TypeModel::Product(elements_view(product.elements@)),
            AlgebraicType::Array(array) => TypeModel::Array(Box::new(array.elem_ty@)),
            AlgebraicType::Plain(plain) => TypeModel::Plain(*plain),
        }
    }

    /// The product of no elements.
    pub fn unit() -> (r: Self)
        ensures
            r@ == TypeModel::Product(seq![]),
    {
        let elements: Vec<ProductTypeElement> = Vec::new();
        assert(elements_view(elements@) =~= seq![]);
        AlgebraicType::Product(ProductType { elements })
    }
}

impl Clone for TypeElement {
    fn clone(&self) -> (r: Self)
        ensures
            r@ == self@,
        decreases self,
    {
        TypeElement { name: self.name.clone(), algebraic_type: self.algebraic_type.clone() }
    }
}

/// A copy of a sequence of parts.
fn clone_elements(elements: &Vec<TypeElement>) -> (r: Vec<TypeElement>)
    ensures
        elements_view(r@) == elements_view(elements@),
    decreases elements,
{
    broadcast use group_elements_view;

    let mut copies: Vec<TypeElement> = Vec::new();
    let mut i: usize = 0;
    while i < elements.len()
        invariant
            i <= elements.len(),
            copies@.len() == i,
            forall|j: int| 0 <= j < i ==> (#[trigger] copies@[j])@ == elements@[j]@,
        decreases elements.len() - i,
    {
        assert(decreases_to!(*elements => elements@));
        assert(decreases_to!(elements@ => elements@[i as int]));
        let copy = elements[i].clone();
        copies.push(copy);
        i += 1;
    }
    assert(elements_view(copies@) =~= elements_view(elements@));
    copies
}

impl Clone for AlgebraicType {
    fn clone(&self) -> (r: Self)
        ensures
            r@ == self@,
        decreases self,
    {
        match self {
            AlgebraicType::Ref(r) => AlgebraicType::Ref(*r),
            AlgebraicType::Sum(sum) => {
                AlgebraicType::Sum(SumType { variants: clone_elements(&sum.variants) })
            },
            AlgebraicType::Product(product) => {
                AlgebraicType::Product(ProductType { elements: clone_elements(&product.elements) })
            },
            AlgebraicType::Array(array) => {
                let elem_ty: &AlgebraicType = &array.elem_ty;
                AlgebraicType::Array(ArrayType { elem_ty: Box::new(elem_ty.clone()) })
            },
            AlgebraicType::Plain(plain) => AlgebraicType::Plain(*plain),
        }
    }
}

/// Two types that look the same are the same: of the same kind, with the same reference, the same
/// plain type, or as many parts, each with the same name and a type that looks the same.
pub proof fn law_view_tells_types_apart(a: AlgebraicType, b: AlgebraicType)
    requires
        a@ == b@,
    ensures
        match (a, b) {
            (AlgebraicType::Ref(r), AlgebraicType::Ref(s)) => r == s,
            (AlgebraicType::Plain(p), AlgebraicType::Plain(q)) => p == q,
            (AlgebraicType::Array(x), AlgebraicType::Array(y)) => x.elem_ty@ == y.elem_ty@,
            (AlgebraicType::Sum(x), AlgebraicType::Sum(y)) => same_parts(x.variants@, y.variants@),
            (AlgebraicType::Product(x), AlgebraicType::Product(y)) => same_parts(
                x.elements@,
                y.elements@,
            ),
            _ => false,
        },
{
    broadcast use group_elements_view;

    match (a, b) {
        (AlgebraicType::Sum(x), AlgebraicType::Sum(y)) => {
            lemma_same_parts(x.variants@, y.variants@);
        },
        (AlgebraicType::Product(x), AlgebraicType::Product(y)) => {
            lemma_same_parts(x.elements@, y.elements@);
        },
        _ => {},
    }
}

/// Whether there are as many parts, each with the same name and a type that looks the same.
pub open spec fn same_parts(a: Seq<TypeElement>, b: Seq<TypeElement>) -> bool {
    &&& a.len() == b.len()
    &&& forall|i: int|
        0 <= i < a.len() ==> {
            &&& (#[trigger] a[i]).algebraic_type@ == b[i].algebraic_type@
            &&& a[i].name is Some <==> b[i].name is Some
            &&& a[i].name is Some ==> a[i].name->Some_0@ == b[i].name->Some_0@
        }
}

proof fn lemma_same_parts(a: Seq<TypeElement>, b: Seq<TypeElement>)
    requires
        elements_view(a) == elements_view(b),
    ensures
        same_parts(a, b),
{
    broadcast use group_elements_view;

    assert(a.len() == elements_view(a).len());
    assert(b.len() == elements_view(b).len());
    assert forall|i: int| 0 <= i < a.len() implies (#[trigger] a[i])@ == b[i]@ by {
        assert(elements_view(a)[i] == a[i]@);
        assert(elements_view(b)[i] == b[i]@);
    }
    assert forall|i: int| 0 <= i < a.len() implies {
        &&& (#[trigger] a[i]).algebraic_type@ == b[i].algebraic_type@
        &&& a[i].name is Some <==> b[i].name is Some
        &&& a[i].name is Some ==> a[i].name->Some_0@ == b[i].name->Some_0@
    } by {
        assert(a[i]@ == b[i]@);
    }
}

/// A type shows of which kind it is, with its reference or its plain type, or with its parts: as
/// many as it has, in order, each with its own name and type.
pub proof fn law_type_shows_its_kind_and_parts(ty: AlgebraicType, part: TypeElement)
    ensures
        match ty {
            AlgebraicType::Ref(r) => ty@ == TypeModel::Ref(r.0),
            AlgebraicType::Plain(plain) => ty@ == TypeModel::Plain(plain),
            AlgebraicType::Array(array) => ty@ is Array && *ty@->Array_0 == array.elem_ty@,
            AlgebraicType::Sum(sum) => ty@ is Sum && shows_parts(sum.variants@, ty@->Sum_0),
            AlgebraicType::Product(product) => ty@ is Product && shows_parts(
                product.elements@,
                ty@->Product_0,
            ),
        },
        part@.ty == part.algebraic_type@,
        part.name is None ==> part@.name is None,
        part.name is Some ==> part@.name == Some(part.name->Some_0@),
{
    match ty {
        AlgebraicType::Sum(sum) => {
            lemma_shows_parts(sum.variants@);
            assert(ty@ == TypeModel::Sum(elements_view(sum.variants@)));
        },
        AlgebraicType::Product(product) => {
            lemma_shows_parts(product.elements@);
            assert(ty@ == TypeModel::Product(elements_view(product.elements@)));
        },
        AlgebraicType::Array(array) => {
            assert(ty@ == TypeModel::Array(Box::new(array.elem_ty@)));
        },
        AlgebraicType::Ref(r) => {
            assert(ty@ == TypeModel::Ref(r.0));
        },
        AlgebraicType::Plain(plain) => {
            assert(ty@ == TypeModel::Plain(plain));
        },
    }
}

proof fn lemma_shows_parts(parts: Seq<TypeElement>)
    ensures
        shows_parts(parts, elements_view(parts)),
{
    broadcast use group_elements_view;

    assert forall|i: int| 0 <= i < parts.len() implies #[trigger] elements_view(parts)[i]
        == parts[i]@ by {}
}

/// Whether these are the parts, one by one.
pub open spec fn shows_parts(parts: Seq<TypeElement>, shown: Seq<ElementModel>) -> bool {
    &&& shown.len() == parts.len()
    &&& forall|i: int| 0 <= i < parts.len() ==> #[trigger] shown[i] == parts[i]@
}

} // verus!
