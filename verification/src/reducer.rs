//! Reducers: the functions that a module offers, and the arguments that they take.

use vstd::prelude::*;
use vstd::slice::*;
use vstd::string::*;

use crate::bsatn::{
    elements_bytes, elements_fit, law_parts_are_read_back, law_text_is_read_back, put_elements,
    put_text, read_parts, read_text, read_u32, text_bytes, text_fits, type_fits, u32_bytes,
};
use crate::text::same_text;
use crate::types::{
    elements_view, name_view, AlgebraicType, ElementModel, ProductTypeElement, TypeModel,
};
use crate::typespace::{Typespace, WithTypespace};

verus! {

/// A reducer's name and the types of its arguments.
#[derive(Clone, PartialEq, Eq, Debug)]
pub struct ReducerDef {
    pub name: String,
    pub args: Vec<ProductTypeElement>,
}

/// What a reducer is.
#[verifier::ext_equal]
pub struct ReducerModel {
    pub name: Seq<char>,
    pub args: Seq<ElementModel>,
}

impl ReducerModel {
    /// A reducer's definition in the binary format: its name, and its arguments.
    pub open spec fn bytes(self) -> Seq<u8> {
        text_bytes(self.name) + (u32_bytes(self.args.len()) + elements_bytes(self.args))
    }

    /// Whether all lengths that occur in the definition can be written.
    pub open spec fn fits(self) -> bool {
        &&& text_fits(self.name)
        &&& self.args.len() <= u32::MAX
        &&& elements_fit(self.args)
    }
}

/// The values of several elements, in order.
#[derive(Clone, PartialEq, Eq, Debug)]
pub struct ProductValue<V> {
    pub elements: Vec<V>,
}

/// A value together with the type that it is written as, and the typespace of that type.
pub struct TypedValue<'a, V> {
    pub ty: WithTypespace<'a, AlgebraicType>,
    pub value: &'a V,
}

/// What a product stands for.
#[derive(Clone, Copy, PartialEq, Eq, Debug, Structural)]
pub enum ProductKind {
    Normal,
    /// The arguments of a reducer.
    ReducerArgs,
}

/// Why the arguments of a reducer could not be read.
#[derive(Clone, Copy, PartialEq, Eq, Debug, Structural)]
pub enum ArgsError {
    /// There are only so many arguments.
    InvalidLength(usize),
    /// No argument has this name.
    UnknownField,
    /// The argument at this place was given before.
    DuplicateField(usize),
    /// The argument at this place was not given.
    MissingField(usize),
}

/// Why the arguments of a reducer could not be read from bytes.
#[derive(Clone, Copy, PartialEq, Eq, Debug, Structural)]
pub enum ReadArgsError<E> {
    /// They do not fit the reducer.
    Args(ArgsError),
    /// A value could not be read.
    Source(E),
}

impl ReducerDef {
    pub open spec fn view(&self) -> ReducerModel {
        ReducerModel { name: self.name@, args: elements_view(self.args@) }
    }

    /// Writes the definition in the binary format.
    pub fn encode(&self, writer: &mut Vec<u8>)
        requires
            self@.fits(),
        ensures
            final(writer)@ == old(writer)@ + self@.bytes(),
            final(writer)@ == old(writer)@ + text_bytes(self.name@) + u32_bytes(self.args@.len())
                + elements_bytes(elements_view(self.args@)),
    {
        let ghost before = writer@;
        proof {
            crate::types::lemma_elements_view_len(self.args@);
        }
        put_text(writer, self.name.as_str());
        put_elements(writer, &self.args);
        assert(writer@ =~= before + self@.bytes());
        assert(writer@ =~= before + text_bytes(self.name@) + u32_bytes(self.args@.len())
            + elements_bytes(elements_view(self.args@)));
    }

    /// The arguments of a call as they are written: each value as the type of its argument, in
    /// order. There must be as many values as the reducer has arguments.
    pub fn serialize_args<'a, V>(
        ty: WithTypespace<'a, ReducerDef>,
        value: &'a ProductValue<V>,
    ) -> (r: Vec<TypedValue<'a, V>>)
        requires
            value.elements@.len() == ty.ty.args@.len(),
        ensures
            r@.len() == ty.ty.args@.len(),
            forall|i: int|
                0 <= i < r@.len() ==> {
                    &&& (#[trigger] r@[i]).ty.typespace == ty.typespace
                    &&& *r@[i].ty.ty == ty.ty.args@[i].algebraic_type
                    &&& *r@[i].value == value.elements@[i]
                },
    {
        let mut written: Vec<TypedValue<'a, V>> = Vec::new();
        let mut i: usize = 0;
        let args: &'a Vec<ProductTypeElement> = &ty.ty.args;
        while i < args.len()
            invariant
                i <= args.len(),
                *args == ty.ty.args,
                value.elements@.len() == args@.len(),
                written@.len() == i,
                forall|j: int|
                    0 <= j < i ==> {
                        &&& (#[trigger] written@[j]).ty.typespace == ty.typespace
                        &&& *written@[j].ty.ty == args@[j].algebraic_type
                        &&& *written@[j].value == value.elements@[j]
                    },
            decreases args.len() - i,
        {
            written.push(
                TypedValue { ty: ty.with(&args[i].algebraic_type), value: &value.elements[i] },
            );
            i += 1;
        }
        written
    }

    /// What reads the arguments of a call.
    pub fn deserialize(ty: WithTypespace<'_, ReducerDef>) -> (r: ReducerDeserialize<'_>)
        ensures
            r.ty == ty,
    {
        ReducerDeserialize { ty }
    }
}

/// Reads the arguments of a call of a reducer.
pub struct ReducerDeserialize<'a> {
    pub ty: WithTypespace<'a, ReducerDef>,
}

impl<'a> ReducerDeserialize<'a> {
    /// What the product is called: like the reducer.
    pub fn product_name(&self) -> (r: Option<&str>)
        ensures
            r matches Some(name) && name@ == self.ty.ty.name@,
    {
        Some(self.ty.ty.name.as_str())
    }

    /// How many elements the product has: one for each argument.
    pub fn product_len(&self) -> (r: usize)
        ensures
            r == self.ty.ty.args@.len(),
    {
        self.ty.ty.args.len()
    }

    /// What the product stands for: the arguments of a reducer.
    pub fn product_kind(&self) -> (r: ProductKind)
        ensures
            r == ProductKind::ReducerArgs,
    {
        ProductKind::ReducerArgs
    }

    /// Begins to read arguments that come in order.
    pub fn visit_seq_product<V>(&self) -> (r: SeqProductVisit<'a, V>)
        ensures
            r.wf(),
            r.typespace() == self.ty.typespace,
            r.args() == self.ty.ty.args@,
            r@ == Seq::<V>::empty(),
    {
        SeqProductVisit {
            typespace: self.ty.typespace,
            args: &self.ty.ty.args,
            elements: Vec::new(),
        }
    }

    /// Begins to read arguments that come by name, in any order.
    pub fn visit_named_product<V>(&self) -> (r: NamedProductVisit<'a, V>)
        ensures
            r.wf(),
            r.typespace() == self.ty.typespace,
            r.args() == self.ty.ty.args@,
            r@ == no_fields::<V>(self.ty.ty.args@.len()),
            r@.len() == self.ty.ty.args@.len(),
            forall|i: int| 0 <= i < r@.len() ==> (#[trigger] r@[i]) is None,
    {
        let args: &'a Vec<ProductTypeElement> = &self.ty.ty.args;
        let mut elements: Vec<Option<V>> = Vec::new();
        let mut i: usize = 0;
        assert(elements@ =~= no_fields::<V>(0));
        while i < args.len()
            invariant
                i <= args.len(),
                elements@ == no_fields::<V>(i as nat),
            decreases args.len() - i,
        {
            elements.push(None);
            i += 1;
            assert(elements@ =~= no_fields::<V>(i as nat));
        }
        NamedProductVisit { typespace: self.ty.typespace, args, elements }
    }
}

/// The elements read so far with the next one, or, if there is none, that they are too few.
pub open spec fn with_element<V>(elements: Seq<V>, element: Option<V>) -> Result<
    Seq<V>,
    ArgsError,
> {
    match element {
        Some(v) => Ok(elements.push(v)),
        None => Err(ArgsError::InvalidLength(elements.len() as usize)),
    }
}

/// Arguments that come in order, as far as they were read.
pub struct SeqProductVisit<'a, V> {
    typespace: &'a Typespace,
    args: &'a Vec<ProductTypeElement>,
    elements: Vec<V>,
}

impl<'a, V> SeqProductVisit<'a, V> {
    pub closed spec fn view(&self) -> Seq<V> {
        self.elements@
    }

    /// The typespace of the arguments' types.
    pub closed spec fn typespace(&self) -> &'a Typespace {
        self.typespace
    }

    /// The arguments that are to be read.
    pub closed spec fn args(&self) -> Seq<ProductTypeElement> {
        self.args@
    }

    pub open spec fn wf(&self) -> bool {
        self@.len() <= self.args().len()
    }

    /// The type that the next element is to be read as, if one is wanted.
    pub fn wanted(&self) -> (r: Option<WithTypespace<'a, AlgebraicType>>)
        requires
            self.wf(),
        ensures
            match r {
                Some(ty) => {
                    &&& self@.len() < self.args().len()
                    &&& ty.typespace == self.typespace()
                    &&& *ty.ty == self.args()[self@.len() as int].algebraic_type
                },
                None => self@.len() == self.args().len(),
            },
    {
        let i: usize = self.elements.len();
        if i < self.args.len() {
            Some(WithTypespace::new(self.typespace, &self.args[i].algebraic_type))
        } else {
            None
        }
    }

    /// Takes the element that was wanted, or that there is none: then there are too few.
    pub fn supply(&mut self, element: Option<V>) -> (r: Result<(), ArgsError>)
        requires
            old(self).wf(),
            old(self)@.len() < old(self).args().len(),
        ensures
            final(self).wf(),
            final(self).typespace() == old(self).typespace(),
            final(self).args() == old(self).args(),
            match with_element(old(self)@, element) {
                Ok(elements) => r is Ok && final(self)@ == elements,
                Err(e) => r == Err::<(), ArgsError>(e) && final(self)@ == old(self)@,
            },
            match element {
                Some(v) => r is Ok && final(self)@ == old(self)@.push(v),
                None => {
                    &&& r == Err::<(), ArgsError>(
                        ArgsError::InvalidLength(old(self)@.len() as usize),
                    )
                    &&& final(self)@ == old(self)@
                },
            },
    {
        match element {
            Some(v) => {
                self.elements.push(v);
                Ok(())
            },
            None => Err(ArgsError::InvalidLength(self.elements.len())),
        }
    }

    /// The arguments, when all were read.
    pub fn finish(self) -> (r: ProductValue<V>)
        requires
            self.wf(),
            self@.len() == self.args().len(),
        ensures
            r.elements@ == self@,
    {
        ProductValue { elements: self.elements }
    }
}

/// The names of arguments.
pub open spec fn arg_names(args: Seq<ProductTypeElement>) -> Seq<Option<Seq<char>>> {
    Seq::new(args.len(), |i: int| name_view(args[i].name))
}

/// So many arguments, none of which was given yet.
pub open spec fn no_fields<V>(n: nat) -> Seq<Option<V>> {
    Seq::new(n, |i: int| None)
}

/// The place of the first argument with a name.
pub open spec fn field_index(names: Seq<Option<Seq<char>>>, name: Seq<char>) -> Option<usize>
    decreases names.len(),
{
    if names.len() == 0 {
        None
    } else {
        match field_index(names.drop_last(), name) {
            Some(i) => Some(i),
            None => if names.last() == Some(name) {
                Some((names.len() - 1) as usize)
            } else {
                None
            },
        }
    }
}

/// The place of the argument that a name asks for, or why it cannot be given.
pub open spec fn field_place<V>(
    names: Seq<Option<Seq<char>>>,
    fields: Seq<Option<V>>,
    name: Seq<char>,
) -> Result<usize, ArgsError> {
    match field_index(names, name) {
        None => Err(ArgsError::UnknownField),
        Some(i) => if fields[i as int] is Some {
            Err(ArgsError::DuplicateField(i))
        } else {
            Ok(i)
        },
    }
}

/// The arguments after some were given by name, or why that failed.
pub open spec fn fields_given<V>(
    names: Seq<Option<Seq<char>>>,
    given: Seq<(Seq<char>, V)>,
) -> Result<Seq<Option<V>>, ArgsError>
    decreases given.len(),
{
    if given.len() == 0 {
        Ok(no_fields(names.len()))
    } else {
        match fields_given(names, given.drop_last()) {
            Err(e) => Err(e),
            Ok(fields) => match field_place(names, fields, given.last().0) {
                Err(e) => Err(e),
                Ok(i) => Ok(fields.update(i as int, Some(given.last().1))),
            },
        }
    }
}

/// Arguments that come by name, as far as they were read.
pub struct NamedProductVisit<'a, V> {
    typespace: &'a Typespace,
    args: &'a Vec<ProductTypeElement>,
    elements: Vec<Option<V>>,
}

impl<'a, V> NamedProductVisit<'a, V> {
    pub closed spec fn view(&self) -> Seq<Option<V>> {
        self.elements@
    }

    /// The typespace of the arguments' types.
    pub closed spec fn typespace(&self) -> &'a Typespace {
        self.typespace
    }

    /// The arguments that are to be read.
    pub closed spec fn args(&self) -> Seq<ProductTypeElement> {
        self.args@
    }

    pub open spec fn wf(&self) -> bool {
        self@.len() == self.args().len()
    }

    /// The place of the argument that a name asks for, or why it cannot be given.
    fn place(&self, name: &str) -> (r: Result<usize, ArgsError>)
        requires
            self.wf(),
        ensures
            r == field_place(arg_names(self.args()), self@, name@),
            r matches Ok(i) ==> i < self.args().len(),
    {
        let ghost names = arg_names(self.args());
        let mut i: usize = 0;
        assert(names.take(0) =~= seq![]);
        while i < self.args.len()
            invariant
                i <= self.args.len(),
                self.wf(),
                names == arg_names(self.args()),
                field_index(names.take(i as int), name@) is None,
            decreases self.args.len() - i,
        {
            assert(names.take(i + 1).drop_last() =~= names.take(i as int));
            if let Some(text) = &self.args[i].name {
                if same_text(text.as_str(), name) {
                    proof {
                        assert(field_index(names.take(i + 1), name@) == Some(i));
                        lemma_field_index_is_first(names, i + 1, name@);
                    }
                    return if self.elements[i].is_some() {
                        Err(ArgsError::DuplicateField(i))
                    } else {
                        Ok(i)
                    };
                }
            }
            i += 1;
        }
        assert(names.take(names.len() as int) =~= names);
        Err(ArgsError::UnknownField)
    }

    /// The type that the argument with this name is to be read as, or why it cannot be given: no
    /// argument has the name, or it was given before.
    pub fn wanted(&self, name: &str) -> (r: Result<WithTypespace<'a, AlgebraicType>, ArgsError>)
        requires
            self.wf(),
        ensures
            match field_place(arg_names(self.args()), self@, name@) {
                Ok(i) => {
                    &&& r matches Ok(ty)
                    &&& ty.typespace == self.typespace()
                    &&& *ty.ty == self.args()[i as int].algebraic_type
                },
                Err(e) => r == Err::<WithTypespace<'a, AlgebraicType>, ArgsError>(e),
            },
    {
        match self.place(name) {
            Ok(i) => Ok(WithTypespace::new(self.typespace, &self.args[i].algebraic_type)),
            Err(e) => Err(e),
        }
    }

    /// Takes the argument with a name, unless no argument has the name, or it was given before.
    pub fn supply(&mut self, name: &str, value: V) -> (r: Result<(), ArgsError>)
        requires
            old(self).wf(),
        ensures
            final(self).wf(),
            final(self).typespace() == old(self).typespace(),
            final(self).args() == old(self).args(),
            match field_place(arg_names(old(self).args()), old(self)@, name@) {
                Ok(i) => r is Ok && final(self)@ == old(self)@.update(i as int, Some(value)),
                Err(e) => r == Err::<(), ArgsError>(e) && final(self)@ == old(self)@,
            },
    {
        match self.place(name) {
            Ok(i) => {
                self.elements.set(i, Some(value));
                Ok(())
            },
            Err(e) => Err(e),
        }
    }

    /// The first argument that was not given yet, if there is one.
    pub fn missing(&self) -> (r: Option<usize>)
        requires
            self.wf(),
        ensures
            match r {
                Some(i) => {
                    &&& i < self@.len()
                    &&& self@[i as int] is None
                    &&& forall|j: int| 0 <= j < i ==> (#[trigger] self@[j]) is Some
                },
                None => forall|j: int| 0 <= j < self@.len() ==> (#[trigger] self@[j]) is Some,
            },
    {
        let mut i: usize = 0;
        while i < self.elements.len()
            invariant
                i <= self.elements.len(),
                forall|j: int| 0 <= j < i ==> (#[trigger] self.elements@[j]) is Some,
            decreases self.elements.len() - i,
        {
            if self.elements[i].is_none() {
                return Some(i);
            }
            i += 1;
        }
        None
    }

    /// The arguments, if all were given; else the first one that was not.
    pub fn finish(self) -> (r: Result<ProductValue<V>, ArgsError>)
        requires
            self.wf(),
        ensures
            match r {
                Ok(value) => {
                    &&& value.elements@.len() == self@.len()
                    &&& forall|j: int|
                        0 <= j < self@.len() ==> #[trigger] self@[j] == Some(value.elements@[j])
                },
                Err(e) => {
                    &&& e matches ArgsError::MissingField(i)
                    &&& i < self@.len()
                    &&& self@[i as int] is None
                    &&& forall|j: int| 0 <= j < i ==> (#[trigger] self@[j]) is Some
                },
            },
    {
        if let Some(i) = self.missing() {
            return Err(ArgsError::MissingField(i));
        }
        let ghost given = self@;
        let ghost n = given.len();
        let mut rest: Vec<Option<V>> = self.elements;
        let mut reversed: Vec<V> = Vec::new();
        while rest.len() > 0
            invariant
                rest@.len() + reversed@.len() == n,
                n == given.len(),
                rest@ == given.take(rest@.len() as int),
                forall|j: int| 0 <= j < n ==> (#[trigger] given[j]) is Some,
                forall|j: int|
                    0 <= j < reversed@.len() ==> given[n - 1 - j] == Some(#[trigger] reversed@[j]),
            decreases rest.len(),
        {
            let ghost k = rest@.len() - 1;
            assert(rest@[k] == given[k]);
            let last = rest.pop().unwrap();
            assert(rest@ =~= given.take(k));
            reversed.push(last.unwrap());
        }
        let ghost backwards = reversed@;
        let mut elements: Vec<V> = Vec::new();
        while reversed.len() > 0
            invariant
                reversed@.len() + elements@.len() == n,
                backwards.len() == n,
                reversed@ == backwards.take(reversed@.len() as int),
                forall|j: int|
                    0 <= j < elements@.len() ==> #[trigger] elements@[j] == backwards[n - 1 - j],
            decreases reversed.len(),
        {
            let ghost k = reversed@.len() - 1;
            assert(reversed@[k] == backwards[k]);
            let last = reversed.pop().unwrap();
            assert(reversed@ =~= backwards.take(k));
            elements.push(last);
        }
        assert forall|j: int| 0 <= j < n implies #[trigger] given[j] == Some(elements@[j]) by {
            assert(given[n - 1 - (n - 1 - j)] == Some(backwards[n - 1 - j]));
            assert(elements@[j] == backwards[n - 1 - j]);
        }
        Ok(ProductValue { elements })
    }
}

/// The first argument with a name is found whatever arguments follow.
proof fn lemma_field_index_is_first(names: Seq<Option<Seq<char>>>, n: int, name: Seq<char>)
    requires
        0 <= n <= names.len(),
        field_index(names.take(n), name) is Some,
    ensures
        field_index(names, name) == field_index(names.take(n), name),
    decreases names.len(),
{
    if n < names.len() {
        assert(names.drop_last().take(n) =~= names.take(n));
        lemma_field_index_is_first(names.drop_last(), n, name);
    } else {
        assert(names.take(n) =~= names);
    }
}

/// Where the definitions of two reducers stand at the front of the same bytes, they are the same,
/// and so is what follows: an encoded definition can be read in one way only.
pub proof fn law_definition_is_read_in_one_way(
    a: ReducerModel,
    x: Seq<u8>,
    b: ReducerModel,
    y: Seq<u8>,
)
    requires
        a.fits(),
        b.fits(),
        a.bytes() + x == b.bytes() + y,
    ensures
        a == b,
        x == y,
{
    let args_a = u32_bytes(a.args.len()) + elements_bytes(a.args);
    let args_b = u32_bytes(b.args.len()) + elements_bytes(b.args);
    assert(a.bytes() + x =~= text_bytes(a.name) + (args_a + x));
    assert(b.bytes() + y =~= text_bytes(b.name) + (args_b + y));
    crate::bsatn::law_text_is_read_in_one_way(a.name, args_a + x, b.name, args_b + y);
    crate::bsatn::law_elements_are_read_in_one_way(a.args, x, b.args, y);
}

/// What is read when `wanted` elements are asked for, one by one, and these are supplied.
pub open spec fn read_in_order<V>(supplied: Seq<V>, wanted: nat) -> Result<Seq<V>, ArgsError>
    decreases wanted,
{
    if wanted == 0 {
        Ok(seq![])
    } else {
        match read_in_order(supplied, (wanted - 1) as nat) {
            Err(e) => Err(e),
            Ok(before) => with_element(
                before,
                if wanted <= supplied.len() {
                    Some(supplied[wanted - 1])
                } else {
                    None
                },
            ),
        }
    }
}

/// The values of a call, as they were written, come back when they are read in order; if only some
/// of them arrive, the number of those is told.
pub proof fn law_written_args_come_back<V>(
    value: ProductValue<V>,
    written: Seq<TypedValue<V>>,
    n: nat,
)
    requires
        written.len() == value.elements@.len(),
        forall|i: int| 0 <= i < written.len() ==> *(#[trigger] written[i]).value == value.elements@[i],
        n <= written.len(),
    ensures
        ({
            let sent = Seq::new(written.len(), |i: int| *written[i].value);
            &&& read_in_order(sent, written.len()) == Ok::<Seq<V>, ArgsError>(value.elements@)
            &&& n < written.len() ==> read_in_order(sent.take(n as int), written.len()) == Err::<
                Seq<V>,
                ArgsError,
            >(ArgsError::InvalidLength(n as usize))
        }),
{
    let sent = Seq::new(written.len(), |i: int| *written[i].value);
    assert(sent =~= value.elements@);
    lemma_read_in_order(sent, written.len());
    assert(sent.take(written.len() as int) =~= sent);
    if n < written.len() {
        lemma_read_in_order(sent.take(n as int), n);
        lemma_read_too_few(sent.take(n as int), written.len());
    }
}

proof fn lemma_read_in_order<V>(sent: Seq<V>, n: nat)
    requires
        n <= sent.len(),
    ensures
        read_in_order(sent, n) == Ok::<Seq<V>, ArgsError>(sent.take(n as int)),
    decreases n,
{
    if n == 0 {
        assert(sent.take(0) =~= seq![]);
    } else {
        lemma_read_in_order(sent, (n - 1) as nat);
        assert(sent.take(n as int) =~= sent.take(n - 1).push(sent[n - 1]));
    }
}

proof fn lemma_read_too_few<V>(sent: Seq<V>, wanted: nat)
    requires
        sent.len() < wanted,
        read_in_order(sent, sent.len()) == Ok::<Seq<V>, ArgsError>(sent.take(sent.len() as int)),
    ensures
        read_in_order(sent, wanted) == Err::<Seq<V>, ArgsError>(
            ArgsError::InvalidLength(sent.len() as usize),
        ),
    decreases wanted,
{
    if wanted > sent.len() + 1 {
        lemma_read_too_few(sent, (wanted - 1) as nat);
    }
}

/// An argument's type, in the typespace of the reducer.
pub open spec fn arg_type<'a>(ty: WithTypespace<'a, ReducerDef>, i: int) -> WithTypespace<
    'a,
    AlgebraicType,
> {
    WithTypespace { typespace: ty.typespace, ty: &ty.ty.args@[i].algebraic_type }
}

/// Pieces of bytes, one after the other.
pub open spec fn joined(pieces: Seq<Vec<u8>>) -> Seq<u8>
    decreases pieces.len(),
{
    if pieces.len() == 0 {
        seq![]
    } else {
        joined(pieces.drop_last()) + pieces.last()@
    }
}

/// Whether `put` gave these pieces for the first values, each as the type of its argument.
pub open spec fn put_pieces<'a, V, E, F: Fn(WithTypespace<'a, AlgebraicType>, &V) -> Result<
    Vec<u8>,
    E,
>>(put: F, ty: WithTypespace<'a, ReducerDef>, values: Seq<V>, pieces: Seq<Vec<u8>>) -> bool {
    &&& pieces.len() <= values.len()
    &&& forall|i: int|
        0 <= i < pieces.len() ==> call_ensures(
            put,
            (arg_type(ty, i), &values[i]),
            Ok::<Vec<u8>, E>(#[trigger] pieces[i]),
        )
}

/// Whether `take`, asked for the argument at place `i` at the front of these bytes, may answer so.
pub open spec fn takes<'a, V, E, G: Fn(WithTypespace<'a, AlgebraicType>, &[u8]) -> Result<
    Option<(V, usize)>,
    E,
>>(
    take: G,
    ty: WithTypespace<'a, ReducerDef>,
    i: int,
    bytes: Seq<u8>,
    answer: Result<Option<(V, usize)>, E>,
) -> bool {
    exists|front: &[u8]|
        front@ == bytes && #[trigger] call_ensures(take, (arg_type(ty, i), front), answer)
}

/// Whether `take` gave this value for the argument at place `i`, from one place in the bytes to
/// another.
pub open spec fn took_value<'a, V, E, G: Fn(WithTypespace<'a, AlgebraicType>, &[u8]) -> Result<
    Option<(V, usize)>,
    E,
>>(
    take: G,
    ty: WithTypespace<'a, ReducerDef>,
    i: int,
    bytes: Seq<u8>,
    v: V,
    from: usize,
    to: usize,
) -> bool {
    &&& from <= to <= bytes.len()
    &&& takes::<V, E, G>(
        take,
        ty,
        i,
        bytes.skip(from as int),
        Ok(Some((v, (to - from) as usize))),
    )
}

/// Whether `take` gave these values for the first arguments, each from where the one before ended:
/// the argument at place `i` stands from `at[i]` to `at[i + 1]`.
pub open spec fn took_values<'a, V, E, G: Fn(WithTypespace<'a, AlgebraicType>, &[u8]) -> Result<
    Option<(V, usize)>,
    E,
>>(
    take: G,
    ty: WithTypespace<'a, ReducerDef>,
    bytes: Seq<u8>,
    values: Seq<V>,
    at: Seq<usize>,
) -> bool {
    &&& values.len() <= ty.ty.args@.len()
    &&& at.len() == values.len() + 1
    &&& at[0] == 0
    &&& forall|i: int|
        0 <= i < values.len() ==> took_value::<V, E, G>(
            take,
            ty,
            i,
            bytes,
            #[trigger] values[i],
            at[i],
            at[i + 1],
        )
}

/// Whether reading all arguments comes to this, after these values were taken: the values and how
/// many bytes they took; or that the arguments end too early, or that `take` failed, at the next
/// one.
pub open spec fn args_read_after<'a, V, E, G: Fn(WithTypespace<'a, AlgebraicType>, &[u8]) -> Result<
    Option<(V, usize)>,
    E,
>>(
    take: G,
    ty: WithTypespace<'a, ReducerDef>,
    bytes: Seq<u8>,
    values: Seq<V>,
    at: Seq<usize>,
    r: Result<(ProductValue<V>, usize), ReadArgsError<E>>,
) -> bool {
    let rest = bytes.skip(at.last() as int);
    &&& took_values::<V, E, G>(take, ty, bytes, values, at)
    &&& match r {
        Ok((value, used)) => {
            &&& values.len() == ty.ty.args@.len()
            &&& value.elements@ == values
            &&& used == at.last()
        },
        Err(ReadArgsError::Args(e)) => {
            &&& values.len() < ty.ty.args@.len()
            &&& takes::<V, E, G>(take, ty, values.len() as int, rest, Ok(None))
            &&& with_element(values, None) == Err::<Seq<V>, ArgsError>(e)
        },
        Err(ReadArgsError::Source(e)) => {
            &&& values.len() < ty.ty.args@.len()
            &&& takes::<V, E, G>(take, ty, values.len() as int, rest, Err(e))
        },
    }
}

/// Whether reading all arguments from these bytes may come to this.
pub open spec fn args_read<'a, V, E, G: Fn(WithTypespace<'a, AlgebraicType>, &[u8]) -> Result<
    Option<(V, usize)>,
    E,
>>(
    take: G,
    ty: WithTypespace<'a, ReducerDef>,
    bytes: Seq<u8>,
    r: Result<(ProductValue<V>, usize), ReadArgsError<E>>,
) -> bool {
    exists|values: Seq<V>, at: Seq<usize>|
        #[trigger] args_read_after::<V, E, G>(take, ty, bytes, values, at, r)
}

/// Writes the arguments of a call as bytes: each as the type of its argument, in order, with
/// nothing between them. `put` gives the bytes of one value. There must be as many values as the
/// reducer has arguments.
pub fn write_args<'a, V, E, F: Fn(WithTypespace<'a, AlgebraicType>, &V) -> Result<Vec<u8>, E>>(
    ty: WithTypespace<'a, ReducerDef>,
    value: &'a ProductValue<V>,
    writer: &mut Vec<u8>,
    put: F,
) -> (r: Result<(), E>)
    requires
        value.elements@.len() == ty.ty.args@.len(),
        forall|i: int|
            0 <= i < value.elements@.len() ==> call_requires(
                put,
                (arg_type(ty, i), &#[trigger] value.elements@[i]),
            ),
    ensures
        exists|pieces: Seq<Vec<u8>>|
            {
                &&& #[trigger] put_pieces::<V, E, F>(put, ty, value.elements@, pieces)
                &&& final(writer)@ == old(writer)@ + joined(pieces)
                &&& match r {
                    Ok(_) => pieces.len() == value.elements@.len(),
                    Err(e) => {
                        &&& pieces.len() < value.elements@.len()
                        &&& call_ensures(
                            put,
                            (
                                arg_type(ty, pieces.len() as int),
                                &value.elements@[pieces.len() as int],
                            ),
                            Err::<Vec<u8>, E>(e),
                        )
                    },
                }
            },
{
    let ghost before = writer@;
    let ghost values = value.elements@;
    let ghost mut pieces: Seq<Vec<u8>> = seq![];
    let written = ReducerDef::serialize_args(
        WithTypespace { typespace: ty.typespace, ty: ty.ty },
        value,
    );
    assert(writer@ =~= before + joined(pieces));
    let mut i: usize = 0;
    while i < written.len()
        invariant
            i <= written.len(),
            values == value.elements@,
            before == old(writer)@,
            written@.len() == values.len(),
            values.len() == ty.ty.args@.len(),
            pieces.len() == i,
            put_pieces::<V, E, F>(put, ty, values, pieces),
            writer@ == before + joined(pieces),
            forall|j: int|
                0 <= j < values.len() ==> call_requires(
                    put,
                    (arg_type(ty, j), &#[trigger] values[j]),
                ),
            forall|j: int|
                0 <= j < written@.len() ==> {
                    &&& (#[trigger] written@[j]).ty.typespace == ty.typespace
                    &&& *written@[j].ty.ty == ty.ty.args@[j].algebraic_type
                    &&& *written@[j].value == values[j]
                },
        decreases written.len() - i,
    {
        let element = &written[i];
        let element_type = WithTypespace::new(element.ty.typespace, element.ty.ty);
        assert(element_type == arg_type(ty, i as int));
        assert(*element.value == values[i as int]);
        match put(element_type, element.value) {
            Ok(piece) => {
                writer.extend_from_slice(piece.as_slice());
                proof {
                    let more = pieces.push(piece);
                    assert(more.drop_last() =~= pieces);
                    assert(writer@ =~= before + joined(more));
                    pieces = more;
                }
            },
            Err(e) => {
                return Err(e);
            },
        }
        i += 1;
    }
    Ok(())
}

impl<'a> ReducerDeserialize<'a> {
    /// Reads all arguments from bytes, in order, and tells how many bytes they took. `take` reads
    /// one value of a type at the front of some bytes, and tells how many of them it took, if there
    /// is one more.
    pub fn read_args<V, E, G: Fn(WithTypespace<'a, AlgebraicType>, &[u8]) -> Result<
        Option<(V, usize)>,
        E,
    >>(&self, bytes: &[u8], take: G) -> (r: Result<(ProductValue<V>, usize), ReadArgsError<E>>)
        requires
            forall|ty: WithTypespace<'a, AlgebraicType>, front: &[u8]| #[trigger]
                call_requires(take, (ty, front)),
            forall|ty: WithTypespace<'a, AlgebraicType>, front: &[u8], v: V, n: usize|
                #[trigger] call_ensures(take, (ty, front), Ok::<Option<(V, usize)>, E>(Some((v, n))))
                    ==> n <= front@.len(),
        ensures
            args_read::<V, E, G>(take, self.ty, bytes@, r),
    {
        let mut visit: SeqProductVisit<'a, V> = self.visit_seq_product();
        let mut used: usize = 0;
        let ghost mut at: Seq<usize> = seq![0usize];
        loop
            invariant
                visit.wf(),
                visit.typespace() == self.ty.typespace,
                visit.args() == self.ty.ty.args@,
                used <= bytes@.len(),
                at.len() > 0,
                used == at.last(),
                took_values::<V, E, G>(take, self.ty, bytes@, visit@, at),
                forall|ty: WithTypespace<'a, AlgebraicType>, front: &[u8]| #[trigger]
                    call_requires(take, (ty, front)),
                forall|ty: WithTypespace<'a, AlgebraicType>, front: &[u8], v: V, n: usize|
                    #[trigger] call_ensures(
                        take,
                        (ty, front),
                        Ok::<Option<(V, usize)>, E>(Some((v, n))),
                    ) ==> n <= front@.len(),
            decreases visit.args().len() - visit@.len(),
        {
            match visit.wanted() {
                None => {
                    let ghost values = visit@;
                    let r: Result<(ProductValue<V>, usize), ReadArgsError<E>> = Ok(
                        (visit.finish(), used),
                    );
                    assert(args_read_after::<V, E, G>(take, self.ty, bytes@, values, at, r));
                    return r;
                },
                Some(wanted) => {
                    let ghost values = visit@;
                    let front = slice_subrange(bytes, used, bytes.len());
                    assert(front@ =~= bytes@.skip(used as int));
                    assert(wanted == arg_type(self.ty, values.len() as int));
                    let answer = take(wanted, front);
                    assert(takes::<V, E, G>(
                        take,
                        self.ty,
                        values.len() as int,
                        bytes@.skip(used as int),
                        answer,
                    ));
                    match answer {
                        Ok(Some((v, n))) => {
                            let _ = visit.supply(Some(v));
                            used = used + n;
                            proof {
                                lemma_one_more_taken::<V, E, G>(
                                    take,
                                    self.ty,
                                    bytes@,
                                    values,
                                    at,
                                    v,
                                    used,
                                );
                                at = at.push(used);
                            }
                        },
                        Ok(None) => {
                            if let Err(e) = visit.supply(None) {
                                let r: Result<(ProductValue<V>, usize), ReadArgsError<E>> = Err(
                                    ReadArgsError::Args(e),
                                );
                                assert(args_read_after::<V, E, G>(
                                    take,
                                    self.ty,
                                    bytes@,
                                    values,
                                    at,
                                    r,
                                ));
                                return r;
                            }
                        },
                        Err(e) => {
                            let r: Result<(ProductValue<V>, usize), ReadArgsError<E>> = Err(
                                ReadArgsError::Source(e),
                            );
                            assert(args_read_after::<V, E, G>(
                                take,
                                self.ty,
                                bytes@,
                                values,
                                at,
                                r,
                            ));
                            return r;
                        },
                    }
                },
            }
        }
    }
}

proof fn lemma_one_more_taken<
    'a,
    V,
    E,
    G: Fn(WithTypespace<'a, AlgebraicType>, &[u8]) -> Result<Option<(V, usize)>, E>,
>(
    take: G,
    ty: WithTypespace<'a, ReducerDef>,
    bytes: Seq<u8>,
    values: Seq<V>,
    at: Seq<usize>,
    v: V,
    end: usize,
)
    requires
        took_values::<V, E, G>(take, ty, bytes, values, at),
        values.len() < ty.ty.args@.len(),
        at.last() <= end <= bytes.len(),
        takes::<V, E, G>(
            take,
            ty,
            values.len() as int,
            bytes.skip(at.last() as int),
            Ok(Some((v, (end - at.last()) as usize))),
        ),
    ensures
        took_values::<V, E, G>(take, ty, bytes, values.push(v), at.push(end)),
{
    let more = values.push(v);
    let ends = at.push(end);
    assert forall|i: int| 0 <= i < more.len() implies took_value::<V, E, G>(
        take,
        ty,
        i,
        bytes,
        #[trigger] more[i],
        ends[i],
        ends[i + 1],
    ) by {
        if i < values.len() {
            assert(more[i] == values[i]);
        }
    }
}

/// Whether `take` reads a value back from the bytes that `put` gives for it, whatever follows them,
/// and leaves what follows.
pub open spec fn gives_back<
    'a,
    V,
    E,
    F: Fn(WithTypespace<'a, AlgebraicType>, &V) -> Result<Vec<u8>, E>,
    G: Fn(WithTypespace<'a, AlgebraicType>, &[u8]) -> Result<Option<(V, usize)>, E>,
>(put: F, take: G, ty: WithTypespace<'a, ReducerDef>, i: int, v: V) -> bool {
    forall|piece: Vec<u8>, bytes: Seq<u8>, answer: Result<Option<(V, usize)>, E>|
        #[trigger] call_ensures(put, (arg_type(ty, i), &v), Ok::<Vec<u8>, E>(piece))
            && #[trigger] takes::<V, E, G>(take, ty, i, bytes, answer) && piece@.is_prefix_of(bytes)
            ==> answer == Ok::<Option<(V, usize)>, E>(Some((v, piece@.len() as usize)))
}

/// The arguments of a call come back from the bytes that they were written as, and all of these
/// bytes are used, whatever follows them: what [`write_args`] has written,
/// [`ReducerDeserialize::read_args`] reads, and nothing else. This holds for every way of writing
/// values that gives each one back.
pub proof fn law_args_come_back_from_bytes<
    'a,
    V,
    E,
    F: Fn(WithTypespace<'a, AlgebraicType>, &V) -> Result<Vec<u8>, E>,
    G: Fn(WithTypespace<'a, AlgebraicType>, &[u8]) -> Result<Option<(V, usize)>, E>,
>(
    ty: WithTypespace<'a, ReducerDef>,
    value: ProductValue<V>,
    put: F,
    take: G,
    pieces: Seq<Vec<u8>>,
    after: Seq<u8>,
    r: Result<(ProductValue<V>, usize), ReadArgsError<E>>,
)
    requires
        value.elements@.len() == ty.ty.args@.len(),
        put_pieces::<V, E, F>(put, ty, value.elements@, pieces),
        pieces.len() == value.elements@.len(),
        joined(pieces).len() <= usize::MAX,
        forall|i: int|
            0 <= i < value.elements@.len() ==> gives_back::<V, E, F, G>(
                put,
                take,
                ty,
                i,
                #[trigger] value.elements@[i],
            ),
        args_read::<V, E, G>(take, ty, joined(pieces) + after, r),
    ensures
        r matches Ok((read, used)) && read.elements@ == value.elements@ && used == joined(
            pieces,
        ).len(),
{
    let values = value.elements@;
    let bytes = joined(pieces) + after;
    let (taken, at) = choose|taken: Seq<V>, at: Seq<usize>| #[trigger]
        args_read_after::<V, E, G>(take, ty, bytes, taken, at, r);
    lemma_taken_is_put::<V, E, F, G>(
        ty,
        values,
        put,
        take,
        pieces,
        after,
        taken,
        at,
        taken.len(),
    );
    if taken.len() < values.len() {
        let n = taken.len() as int;
        lemma_piece_is_next(pieces, after, n);
        assert(gives_back::<V, E, F, G>(put, take, ty, n, values[n]));
        assert(call_ensures(put, (arg_type(ty, n), &values[n]), Ok::<Vec<u8>, E>(pieces[n])));
    } else {
        assert(taken =~= values);
        assert(pieces.take(pieces.len() as int) =~= pieces);
    }
}

/// After `n` pieces, the next one is at the front.
proof fn lemma_piece_is_next(pieces: Seq<Vec<u8>>, after: Seq<u8>, n: int)
    requires
        0 <= n < pieces.len(),
    ensures
        joined(pieces.take(n)).len() + pieces[n]@.len() <= joined(pieces).len(),
        joined(pieces.take(n + 1)) == joined(pieces.take(n)) + pieces[n]@,
        pieces[n]@.is_prefix_of(
            (joined(pieces) + after).skip(joined(pieces.take(n)).len() as int),
        ),
    decreases pieces.len(),
{
    assert(pieces.take(n + 1).drop_last() =~= pieces.take(n));
    if n < pieces.len() - 1 {
        let before = pieces.drop_last();
        let last = pieces.last()@;
        lemma_piece_is_next(before, last + after, n);
        assert(before.take(n) =~= pieces.take(n));
        assert(joined(pieces) + after =~= joined(before) + (last + after));
    } else {
        assert(pieces.take(n + 1) =~= pieces);
        let front = (joined(pieces) + after).skip(joined(pieces.take(n)).len() as int);
        assert(pieces[n]@ =~= front.subrange(0, pieces[n]@.len() as int));
    }
}

/// As far as values were taken, they are those that were put, each from its own piece.
proof fn lemma_taken_is_put<
    'a,
    V,
    E,
    F: Fn(WithTypespace<'a, AlgebraicType>, &V) -> Result<Vec<u8>, E>,
    G: Fn(WithTypespace<'a, AlgebraicType>, &[u8]) -> Result<Option<(V, usize)>, E>,
>(
    ty: WithTypespace<'a, ReducerDef>,
    values: Seq<V>,
    put: F,
    take: G,
    pieces: Seq<Vec<u8>>,
    after: Seq<u8>,
    taken: Seq<V>,
    at: Seq<usize>,
    n: nat,
)
    requires
        values.len() == ty.ty.args@.len(),
        put_pieces::<V, E, F>(put, ty, values, pieces),
        pieces.len() == values.len(),
        joined(pieces).len() <= usize::MAX,
        forall|i: int|
            0 <= i < values.len() ==> gives_back::<V, E, F, G>(
                put,
                take,
                ty,
                i,
                #[trigger] values[i],
            ),
        took_values::<V, E, G>(take, ty, joined(pieces) + after, taken, at),
        n <= taken.len(),
    ensures
        forall|i: int| 0 <= i < n ==> #[trigger] taken[i] == values[i],
        at[n as int] == joined(pieces.take(n as int)).len(),
    decreases n,
{
    if n == 0 {
        assert(pieces.take(0) =~= seq![]);
    } else {
        let m = n - 1;
        lemma_taken_is_put::<V, E, F, G>(
            ty,
            values,
            put,
            take,
            pieces,
            after,
            taken,
            at,
            m as nat,
        );
        lemma_piece_is_next(pieces, after, m);
        assert(gives_back::<V, E, F, G>(put, take, ty, m, values[m]));
        assert(call_ensures(put, (arg_type(ty, m), &values[m]), Ok::<Vec<u8>, E>(pieces[m])));
        assert(took_value::<V, E, G>(
            take,
            ty,
            m,
            joined(pieces) + after,
            taken[m],
            at[m],
            at[m + 1],
        ));
    }
}

/// A name that only one argument has is found at that argument.
proof fn lemma_field_index_of_distinct(names: Seq<Option<Seq<char>>>, i: int)
    requires
        0 <= i < names.len() <= usize::MAX,
        names[i] is Some,
        forall|j: int| 0 <= j < names.len() && j != i ==> #[trigger] names[j] != names[i],
    ensures
        field_index(names, names[i]->Some_0) == Some(i as usize),
    decreases names.len(),
{
    let before = names.drop_last();
    if i < names.len() - 1 {
        assert forall|j: int| 0 <= j < before.len() && j != i implies #[trigger] before[j]
            != before[i] by {
            assert(before[j] == names[j]);
        }
        lemma_field_index_of_distinct(before, i);
    } else {
        lemma_field_index_of_absent(before, names[i]->Some_0);
    }
}

proof fn lemma_field_index_of_absent(names: Seq<Option<Seq<char>>>, name: Seq<char>)
    requires
        forall|j: int| 0 <= j < names.len() ==> #[trigger] names[j] != Some(name),
    ensures
        field_index(names, name) is None,
    decreases names.len(),
{
    if names.len() > 0 {
        assert forall|j: int| 0 <= j < names.drop_last().len() implies #[trigger] names.drop_last()[j]
            != Some(name) by {
            assert(names.drop_last()[j] == names[j]);
        }
        lemma_field_index_of_absent(names.drop_last(), name);
    }
}

/// Arguments that come by name can come in any order: if every argument has a name of its own, and
/// each is given once, they are all read, and each at its place.
pub proof fn law_named_args_come_in_any_order<V>(
    names: Seq<Option<Seq<char>>>,
    values: Seq<V>,
    order: Seq<int>,
    given: Seq<(Seq<char>, V)>,
)
    requires
        names.len() == values.len() <= usize::MAX,
        forall|i: int| 0 <= i < names.len() ==> (#[trigger] names[i]) is Some,
        forall|i: int, j: int|
            0 <= i < j < names.len() ==> #[trigger] names[i] != #[trigger] names[j],
        order.len() == names.len(),
        order.no_duplicates(),
        forall|k: int| 0 <= k < order.len() ==> 0 <= #[trigger] order[k] < names.len(),
        given.len() == order.len(),
        forall|k: int|
            0 <= k < given.len() ==> #[trigger] given[k] == (
                names[order[k]]->Some_0,
                values[order[k]],
            ),
    ensures
        fields_given(names, given) == Ok::<Seq<Option<V>>, ArgsError>(
            Seq::new(values.len(), |i: int| Some(values[i])),
        ),
{
    lemma_named_args_given(names, values, order, given, given.len());
    assert(given.take(given.len() as int) =~= given);
    let fields = fields_given(names, given)->Ok_0;
    assert forall|i: int| 0 <= i < names.len() implies #[trigger] fields[i] == Some(values[i]) by {
        lemma_order_covers(order, names.len(), i);
        let k = choose|k: int| 0 <= k < order.len() && order[k] == i;
        assert(order.take(order.len() as int) =~= order);
        assert(order.take(order.len() as int).contains(i));
    }
    assert(fields =~= Seq::new(values.len(), |i: int| Some(values[i])));
}

proof fn lemma_named_args_given<V>(
    names: Seq<Option<Seq<char>>>,
    values: Seq<V>,
    order: Seq<int>,
    given: Seq<(Seq<char>, V)>,
    n: nat,
)
    requires
        names.len() == values.len() <= usize::MAX,
        forall|i: int| 0 <= i < names.len() ==> (#[trigger] names[i]) is Some,
        forall|i: int, j: int|
            0 <= i < j < names.len() ==> #[trigger] names[i] != #[trigger] names[j],
        order.no_duplicates(),
        forall|k: int| 0 <= k < order.len() ==> 0 <= #[trigger] order[k] < names.len(),
        given.len() == order.len(),
        forall|k: int|
            0 <= k < given.len() ==> #[trigger] given[k] == (
                names[order[k]]->Some_0,
                values[order[k]],
            ),
        n <= given.len(),
    ensures
        fields_given(names, given.take(n as int)) matches Ok(fields) && fields.len() == names.len()
            && forall|i: int|
            0 <= i < names.len() ==> #[trigger] fields[i] == if order.take(n as int).contains(i) {
                Some(values[i])
            } else {
                None::<V>
            },
    decreases n,
{
    if n == 0 {
        assert(given.take(0) =~= seq![]);
    } else {
        let m = (n - 1) as nat;
        lemma_named_args_given(names, values, order, given, m);
        assert(given.take(n as int).drop_last() =~= given.take(m as int));
        let before = fields_given(names, given.take(m as int))->Ok_0;
        let at = order[m as int];
        lemma_field_index_of_distinct(names, at);
        if order.take(m as int).contains(at) {
            let k = choose|k: int| 0 <= k < m && order.take(m as int)[k] == at;
            assert(order[k] == order[m as int]);
        }
        assert(before[at] is None);
        assert(given.take(n as int).last() == given[m as int]);
        let after = before.update(at, Some(values[at]));
        assert(fields_given(names, given.take(n as int)) == Ok::<Seq<Option<V>>, ArgsError>(after));
        assert forall|i: int| 0 <= i < names.len() implies #[trigger] after[i] == if order.take(
            n as int,
        ).contains(i) {
            Some(values[i])
        } else {
            None::<V>
        } by {
            assert(order.take(n as int) =~= order.take(m as int).push(at));
            if order.take(m as int).contains(i) {
                let k = choose|k: int| 0 <= k < m && order.take(m as int)[k] == i;
                assert(order.take(n as int)[k] == i);
            }
            if i == at {
                assert(order.take(n as int)[m as int] == i);
            }
            if order.take(n as int).contains(i) && i != at {
                let k = choose|k: int| 0 <= k < n && order.take(n as int)[k] == i;
                assert(k < m);
                assert(order.take(m as int)[k] == i);
            }
        }
    }
}

/// An order of as many places as there are, none twice, holds every place.
proof fn lemma_order_covers(order: Seq<int>, n: nat, i: int)
    requires
        order.len() == n,
        order.no_duplicates(),
        forall|k: int| 0 <= k < order.len() ==> 0 <= #[trigger] order[k] < n,
        0 <= i < n,
    ensures
        exists|k: int| 0 <= k < order.len() && order[k] == i,
{
    let places = vstd::set_lib::set_int_range(0, n as int);
    vstd::set_lib::lemma_int_range(0, n as int);
    order.unique_seq_to_set();
    assert(order.to_set().subset_of(places));
    vstd::set_lib::lemma_subset_equality(order.to_set(), places);
    assert(order.to_set().contains(i));
}

/// A definition comes back when its bytes are read, name first, then how many arguments there are,
/// then these, and all of its bytes are used: what follows them is left.
pub proof fn law_definition_is_read_back(def: ReducerModel, after: Seq<u8>)
    requires
        def.fits(),
    ensures
        match read_text(def.bytes() + after) {
            Some((name, rest)) => {
                &&& name == def.name
                &&& match read_u32(rest) {
                    Some((n, rest)) => {
                        &&& n == def.args.len()
                        &&& read_parts(n, rest) == Some((def.args, after))
                    },
                    None => false,
                }
            },
            None => false,
        },
        def.bytes().len() == text_bytes(def.name).len() + 4 + elements_bytes(def.args).len(),
{
    let args = u32_bytes(def.args.len()) + elements_bytes(def.args);
    assert(def.bytes() + after =~= text_bytes(def.name) + (args + after));
    law_text_is_read_back(def.name, args + after);
    law_parts_are_read_back(def.args, after);
}

/// A reducer shows its name, and its arguments one by one; and it can be written if its name, its
/// arguments' names and types, and their number can.
pub proof fn law_reducer_shows_name_and_args(def: ReducerDef)
    ensures
        def@.name == def.name@,
        def@.args.len() == def.args@.len(),
        forall|i: int| 0 <= i < def.args@.len() ==> def@.args[i] == (#[trigger] def.args@[i])@,
        def@.fits() <==> {
            &&& text_fits(def.name@)
            &&& type_fits(TypeModel::Product(def@.args))
        },
{
    broadcast use crate::types::group_elements_view;

}

/// The argument that a name asks for is the first one that has it: no earlier one does. Where none
/// is found, no argument has the name.
pub proof fn law_name_finds_its_first_argument(
    names: Seq<Option<Seq<char>>>,
    name: Seq<char>,
)
    requires
        names.len() <= usize::MAX,
    ensures
        match field_index(names, name) {
            Some(i) => {
                &&& i < names.len()
                &&& names[i as int] == Some(name)
                &&& forall|j: int| 0 <= j < i ==> #[trigger] names[j] != Some(name)
            },
            None => forall|j: int| 0 <= j < names.len() ==> #[trigger] names[j] != Some(name),
        },
    decreases names.len(),
{
    if names.len() > 0 {
        let before = names.drop_last();
        law_name_finds_its_first_argument(before, name);
        match field_index(before, name) {
            Some(i) => {
                assert(names[i as int] == before[i as int]);
                assert forall|j: int| 0 <= j < i implies #[trigger] names[j] != Some(name) by {
                    assert(names[j] == before[j]);
                }
            },
            None => {
                assert forall|j: int| 0 <= j < names.len() - 1 implies #[trigger] names[j] != Some(
                    name,
                ) by {
                    assert(names[j] == before[j]);
                }
            },
        }
    }
}

/// A name is refused as unknown exactly when no argument has it, and as given before exactly when
/// the first argument that has it was given; else it is that argument's.
pub proof fn law_each_name_is_taken_once<V>(
    names: Seq<Option<Seq<char>>>,
    fields: Seq<Option<V>>,
    name: Seq<char>,
)
    requires
        names.len() <= usize::MAX,
        fields.len() == names.len(),
    ensures
        match field_place(names, fields, name) {
            Ok(i) => {
                &&& i < names.len()
                &&& names[i as int] == Some(name)
                &&& fields[i as int] is None
                &&& forall|j: int| 0 <= j < i ==> #[trigger] names[j] != Some(name)
            },
            Err(ArgsError::UnknownField) => forall|j: int|
                0 <= j < names.len() ==> #[trigger] names[j] != Some(name),
            Err(ArgsError::DuplicateField(i)) => {
                &&& i < names.len()
                &&& names[i as int] == Some(name)
                &&& fields[i as int] is Some
                &&& forall|j: int| 0 <= j < i ==> #[trigger] names[j] != Some(name)
            },
            Err(_) => false,
        },
{
    law_name_finds_its_first_argument(names, name);
}

/// The names of arguments are their names, in order, and an argument's type is its type, in the
/// typespace of the reducer.
pub proof fn law_args_have_their_names_and_types(ty: WithTypespace<ReducerDef>, i: int)
    requires
        0 <= i < ty.ty.args@.len(),
    ensures
        arg_names(ty.ty.args@).len() == ty.ty.args@.len(),
        match ty.ty.args@[i].name {
            Some(name) => arg_names(ty.ty.args@)[i] == Some(name@),
            None => arg_names(ty.ty.args@)[i] is None,
        },
        arg_type(ty, i).typespace == ty.typespace,
        *arg_type(ty, i).ty == ty.ty.args@[i].algebraic_type,
{
}

/// Joined pieces stand one right after the other: joining two sequences of pieces is joining each
/// and then both, and a single piece is joined to itself.
pub proof fn law_joined_pieces_are_concatenated(a: Seq<Vec<u8>>, b: Seq<Vec<u8>>)
    ensures
        joined(a + b) == joined(a) + joined(b),
        a.len() == 0 ==> joined(a).len() == 0,
        a.len() == 1 ==> joined(a) == a[0]@,
    decreases b.len(),
{
    if b.len() == 0 {
        assert(a + b =~= a);
        assert(joined(a) + joined(b) =~= joined(a));
    } else {
        law_joined_pieces_are_concatenated(a, b.drop_last());
        assert((a + b).drop_last() =~= a + b.drop_last());
        assert((a + b).last() == b.last());
        assert(joined(a + b) =~= joined(a) + joined(b));
    }
    if a.len() == 1 {
        assert(a.drop_last() =~= seq![]);
        assert(joined(a.drop_last()) =~= seq![]);
        assert(joined(a) =~= a[0]@);
    }
}

/// Values that were given by name stand where their names say, and nowhere else: every argument
/// that was given holds a value that came with its name, and every name that came is an argument's.
pub proof fn law_given_values_stand_at_their_names<V>(
    names: Seq<Option<Seq<char>>>,
    given: Seq<(Seq<char>, V)>,
)
    requires
        names.len() <= usize::MAX,
    ensures
        fields_given(names, given) matches Ok(fields) ==> {
            &&& fields.len() == names.len()
            &&& forall|i: int|
                0 <= i < names.len() && (#[trigger] fields[i]) is Some ==> exists|k: int|
                    {
                        &&& 0 <= k < given.len()
                        &&& names[i] == Some((#[trigger] given[k]).0)
                        &&& fields[i] == Some(given[k].1)
                    }
            &&& forall|k: int|
                0 <= k < given.len() ==> exists|i: int|
                    {
                        &&& 0 <= i < names.len()
                        &&& #[trigger] names[i] == Some((#[trigger] given[k]).0)
                        &&& fields[i] == Some(given[k].1)
                    }
        },
    decreases given.len(),
{
    if given.len() > 0 && fields_given(names, given) is Ok {
        let earlier = given.drop_last();
        let last = given.last();
        law_given_values_stand_at_their_names(names, earlier);
        let before = fields_given(names, earlier)->Ok_0;
        let fields = fields_given(names, given)->Ok_0;
        law_each_name_is_taken_once(names, before, last.0);
        let at = field_place(names, before, last.0)->Ok_0 as int;
        assert(fields == before.update(at, Some(last.1)));
        assert(given[given.len() - 1] == last);
        assert forall|i: int| 0 <= i < names.len() && (#[trigger] fields[i]) is Some implies exists|
            k: int,
        |
            {
                &&& 0 <= k < given.len()
                &&& names[i] == Some((#[trigger] given[k]).0)
                &&& fields[i] == Some(given[k].1)
            } by {
            if i == at {
                assert(names[i] == Some(given[given.len() - 1].0));
            } else {
                assert(before[i] == fields[i]);
                let k = choose|k: int|
                    {
                        &&& 0 <= k < earlier.len()
                        &&& names[i] == Some((#[trigger] earlier[k]).0)
                        &&& before[i] == Some(earlier[k].1)
                    };
                assert(given[k] == earlier[k]);
            }
        }
        assert forall|k: int| 0 <= k < given.len() implies exists|i: int|
            {
                &&& 0 <= i < names.len()
                &&& #[trigger] names[i] == Some((#[trigger] given[k]).0)
                &&& fields[i] == Some(given[k].1)
            } by {
            if k == given.len() - 1 {
                assert(names[at] == Some(given[k].0));
            } else {
                assert(given[k] == earlier[k]);
                let i = choose|i: int|
                    {
                        &&& 0 <= i < names.len()
                        &&& #[trigger] names[i] == Some(earlier[k].0)
                        &&& before[i] == Some(earlier[k].1)
                    };
                assert(i != at);
                assert(fields[i] == before[i]);
            }
        }
    }
}

/// Reading gives as many values as the reducer has arguments, from no more bytes than there are; or
/// it tells how many there were, fewer than that.
pub proof fn law_read_args_are_complete<
    'a,
    V,
    E,
    G: Fn(WithTypespace<'a, AlgebraicType>, &[u8]) -> Result<Option<(V, usize)>, E>,
>(
    take: G,
    ty: WithTypespace<'a, ReducerDef>,
    bytes: Seq<u8>,
    r: Result<(ProductValue<V>, usize), ReadArgsError<E>>,
)
    requires
        args_read::<V, E, G>(take, ty, bytes, r),
        ty.ty.args@.len() <= usize::MAX,
    ensures
        match r {
            Ok((value, used)) => {
                &&& value.elements@.len() == ty.ty.args@.len()
                &&& used <= bytes.len()
            },
            Err(ReadArgsError::Args(e)) => e matches ArgsError::InvalidLength(n) && n
                < ty.ty.args@.len(),
            Err(ReadArgsError::Source(_)) => ty.ty.args@.len() > 0,
        },
{
    let (values, at) = choose|values: Seq<V>, at: Seq<usize>| #[trigger]
        args_read_after::<V, E, G>(take, ty, bytes, values, at, r);
    if values.len() > 0 {
        let n = values.len() - 1;
        assert(took_value::<V, E, G>(take, ty, n, bytes, values[n], at[n], at[n + 1]));
    }
}

} // verus!
