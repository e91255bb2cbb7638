//! Types that refer to each other, and types with all references filled in.

use vstd::prelude::*;
use vstd::set_lib::*;

use crate::types::{
    elements_view, lemma_elements_view_index, lemma_elements_view_len, AlgebraicType,
    AlgebraicTypeRef, ArrayType, ElementModel, ProductType, SumType, TypeElement, TypeModel,
};

verus! {

/// Types by their place: a reference names one of them, and they may refer to each other.
#[derive(Clone, PartialEq, Eq, Debug)]
pub struct Typespace {
    pub types: Vec<AlgebraicType>,
}

/// What the types of a typespace are.
pub open spec fn types_view(types: Seq<AlgebraicType>) -> Seq<TypeModel> {
    Seq::new(types.len(), |i: int| types[i]@)
}

/// The references that lead to one of `n` types.
pub open spec fn all_refs(n: nat) -> Set<int> {
    set_int_range(0, n as int)
}

/// A type with its references filled in, and those that this brings in, where only the references
/// in `allowed` may be followed, and no reference is followed inside of itself. None, if that
/// leaves a reference that may not be followed.
pub open spec fn resolved(types: Seq<TypeModel>, ty: TypeModel, allowed: Set<int>) -> Option<
    TypeModel,
>
    decreases allowed.len(), ty,
    when allowed.finite()
{
    match ty {
        TypeModel::Ref(r) => if allowed.contains(r as int) {
            resolved(types, types[r as int], allowed.remove(r as int))
        } else {
            None
        },
        TypeModel::Sum(variants) => match resolved_elements(types, variants, allowed) {
            Some(variants) => Some(TypeModel::Sum(variants)),
            None => None,
        },
        TypeModel::Product(elements) => match resolved_elements(types, elements, allowed) {
            Some(elements) => Some(TypeModel::Product(elements)),
            None => None,
        },
        TypeModel::Array(elem_ty) => match resolved(types, *elem_ty, allowed) {
            Some(elem_ty) => Some(TypeModel::Array(Box::new(elem_ty))),
            None => None,
        },
        TypeModel::Plain(plain) => Some(TypeModel::Plain(plain)),
    }
}

/// The parts of a sum or product type with their references filled in.
pub open spec fn resolved_elements(
    types: Seq<TypeModel>,
    elements: Seq<ElementModel>,
    allowed: Set<int>,
) -> Option<Seq<ElementModel>>
    decreases allowed.len(), elements,
    when allowed.finite()
{
    if elements.len() == 0 {
        Some(seq![])
    } else {
        let last = elements[elements.len() - 1];
        match (
            resolved_elements(types, elements.drop_last(), allowed),
            resolved(types, last.ty, allowed),
        ) {
            (Some(before), Some(ty)) => Some(before.push(ElementModel { name: last.name, ty })),
            _ => None,
        }
    }
}

/// The references that may still be followed while those on the stack are.
spec fn allowed_refs(n: nat, stack: Seq<AlgebraicTypeRef>) -> Set<int> {
    all_refs(n).filter(|r: int| !on_stack(stack, r))
}

spec fn on_stack(stack: Seq<AlgebraicTypeRef>, r: int) -> bool {
    exists|i: int| 0 <= i < stack.len() && (#[trigger] stack[i]).0 == r
}

proof fn lemma_allowed_refs(n: nat, stack: Seq<AlgebraicTypeRef>)
    ensures
        allowed_refs(n, stack).finite(),
        stack.len() == 0 ==> allowed_refs(n, stack) == all_refs(n),
{
    lemma_int_range(0, n as int);
    vstd::set::axiom_set_intersect_finite(all_refs(n), Set::new(|r: int| !on_stack(stack, r)));
    if stack.len() == 0 {
        assert(allowed_refs(n, stack) =~= all_refs(n));
    }
}

proof fn lemma_allowed_refs_push(n: nat, stack: Seq<AlgebraicTypeRef>, r: AlgebraicTypeRef)
    ensures
        allowed_refs(n, stack.push(r)) == allowed_refs(n, stack).remove(r.0 as int),
{
    let pushed = stack.push(r);
    assert forall|x: int| on_stack(pushed, x) <==> on_stack(stack, x) || x == r.0 by {
        if on_stack(stack, x) {
            let i = choose|i: int| 0 <= i < stack.len() && (#[trigger] stack[i]).0 == x;
            assert(pushed[i].0 == x);
        }
        if x == r.0 {
            assert(pushed[stack.len() as int].0 == x);
        }
    }
    assert(allowed_refs(n, pushed) =~= allowed_refs(n, stack).remove(r.0 as int));
}

fn stack_contains(stack: &Vec<AlgebraicTypeRef>, r: AlgebraicTypeRef) -> (found: bool)
    ensures
        found == on_stack(stack@, r.0 as int),
{
    let mut i: usize = 0;
    while i < stack.len()
        invariant
            i <= stack.len(),
            forall|j: int| 0 <= j < i ==> (#[trigger] stack@[j]).0 != r.0,
        decreases stack.len() - i,
    {
        if stack[i].0 == r.0 {
            return true;
        }
        i += 1;
    }
    false
}

fn resolve(types: &Vec<AlgebraicType>, ty: &AlgebraicType, stack: &mut Vec<AlgebraicTypeRef>) -> (r:
    Option<AlgebraicType>)
    ensures
        final(stack)@ == old(stack)@,
        match r {
            Some(t) => resolved(
                types_view(types@),
                ty@,
                allowed_refs(types@.len(), old(stack)@),
            ) == Some(t@),
            None => resolved(types_view(types@), ty@, allowed_refs(types@.len(), old(stack)@))
                is None,
        },
    decreases allowed_refs(types@.len(), old(stack)@).len(), ty,
{
    let ghost n = types@.len();
    let ghost before = stack@;
    let ghost allowed = allowed_refs(n, stack@);
    proof {
        lemma_allowed_refs(n, stack@);
    }
    match ty {
        AlgebraicType::Ref(r) => {
            if (r.0 as usize) >= types.len() || stack_contains(stack, *r) {
                assert(!allowed.contains(r.0 as int));
                return None;
            }
            assert(allowed.contains(r.0 as int));
            proof {
                lemma_allowed_refs_push(n, stack@, *r);
            }
            stack.push(*r);
            let t = resolve(types, &types[r.0 as usize], stack);
            let _ = stack.pop();
            assert(stack@ =~= before);
            t
        },
        AlgebraicType::Sum(sum) => {
            match resolve_elements(types, &sum.variants, stack) {
                Some(variants) => Some(AlgebraicType::Sum(SumType { variants })),
                None => None,
            }
        },
        AlgebraicType::Product(product) => {
            match resolve_elements(types, &product.elements, stack) {
                Some(elements) => Some(AlgebraicType::Product(ProductType { elements })),
                None => None,
            }
        },
        AlgebraicType::Array(array) => {
            match resolve(types, &array.elem_ty, stack) {
                Some(elem_ty) => Some(
                    AlgebraicType::Array(ArrayType { elem_ty: Box::new(elem_ty) }),
                ),
                None => None,
            }
        },
        AlgebraicType::Plain(plain) => Some(AlgebraicType::Plain(*plain)),
    }
}

fn resolve_elements(
    types: &Vec<AlgebraicType>,
    elements: &Vec<TypeElement>,
    stack: &mut Vec<AlgebraicTypeRef>,
) -> (r: Option<Vec<TypeElement>>)
    ensures
        final(stack)@ == old(stack)@,
        match r {
            Some(es) => resolved_elements(
                types_view(types@),
                elements_view(elements@),
                allowed_refs(types@.len(), old(stack)@),
            ) == Some(elements_view(es@)),
            None => resolved_elements(
                types_view(types@),
                elements_view(elements@),
                allowed_refs(types@.len(), old(stack)@),
            ) is None,
        },
    decreases allowed_refs(types@.len(), old(stack)@).len(), elements,
{
    let ghost n = types@.len();
    let ghost models = types_view(types@);
    let ghost before = stack@;
    let ghost allowed = allowed_refs(n, stack@);
    let ghost parts = elements_view(elements@);
    proof {
        lemma_allowed_refs(n, stack@);
        lemma_elements_view_len(elements@);
    }
    let mut done: Vec<TypeElement> = Vec::new();
    let mut i: usize = 0;
    assert(parts.take(0) =~= seq![]);
    while i < elements.len()
        invariant
            i <= elements.len(),
            stack@ == before,
            before == old(stack)@,
            n == types@.len(),
            models == types_view(types@),
            allowed == allowed_refs(n, before),
            allowed.finite(),
            parts == elements_view(elements@),
            parts.len() == elements@.len(),
            resolved_elements(models, parts.take(i as int), allowed) == Some(elements_view(done@)),
        decreases elements.len() - i,
    {
        assert(decreases_to!(*elements => elements@));
        assert(decreases_to!(elements@ => elements@[i as int]));
        assert(decreases_to!(elements@[i as int] => elements@[i as int].algebraic_type));
        proof {
            lemma_elements_view_index(elements@, i as int);
            assert(parts.take(i + 1).drop_last() =~= parts.take(i as int));
            lemma_elements_fail_early(models, parts, i + 1, allowed);
        }
        match resolve(types, &elements[i].algebraic_type, stack) {
            Some(algebraic_type) => {
                let ghost so_far = done@;
                let part = TypeElement { name: elements[i].name.clone(), algebraic_type };
                done.push(part);
                assert(done@.drop_last() =~= so_far);
                assert(part@ == (ElementModel { name: parts[i as int].name, ty: algebraic_type@ }));
                assert(parts.take(i + 1)[i as int] == parts[i as int]);
            },
            None => {
                return None;
            },
        }
        i += 1;
    }
    assert(parts.take(parts.len() as int) =~= parts);
    Some(done)
}

/// Parts of which some cannot be resolved cannot be resolved as a whole.
proof fn lemma_elements_fail_early(
    types: Seq<TypeModel>,
    elements: Seq<ElementModel>,
    n: int,
    allowed: Set<int>,
)
    requires
        0 <= n <= elements.len(),
        allowed.finite(),
    ensures
        resolved_elements(types, elements, allowed) is Some ==> resolved_elements(
            types,
            elements.take(n),
            allowed,
        ) is Some,
    decreases elements.len(),
{
    if n < elements.len() {
        lemma_elements_fail_early(types, elements.drop_last(), n, allowed);
        assert(elements.drop_last().take(n) =~= elements.take(n));
    } else {
        assert(elements.take(n) =~= elements);
    }
}

/// Something that may refer to types, together with the typespace in which they stand.
pub struct WithTypespace<'a, T> {
    pub typespace: &'a Typespace,
    pub ty: &'a T,
}

impl<'a, T> WithTypespace<'a, T> {
    pub fn new(typespace: &'a Typespace, ty: &'a T) -> (r: Self)
        ensures
            r.typespace == typespace,
            r.ty == ty,
    {
        WithTypespace { typespace, ty }
    }

    /// Something else, in the same typespace.
    pub fn with<U>(&self, ty: &'a U) -> (r: WithTypespace<'a, U>)
        ensures
            r.typespace == self.typespace,
            r.ty == ty,
    {
        WithTypespace { typespace: self.typespace, ty }
    }
}

impl Typespace {
    pub open spec fn view(&self) -> Seq<TypeModel> {
        types_view(self.types@)
    }

    /// The type `ty` with all references filled in; none, if a reference leads nowhere, or comes
    /// back to itself.
    pub open spec fn resolved(&self, ty: TypeModel) -> Option<TypeModel> {
        resolved(self@, ty, all_refs(self@.len()))
    }

    pub fn new() -> (r: Self)
        ensures
            r@ == Seq::<TypeModel>::empty(),
    {
        let types: Vec<AlgebraicType> = Vec::new();
        assert(types_view(types@) =~= Seq::empty());
        Typespace { types }
    }

    /// Adds a type at the end, and gives the reference that leads to it.
    pub fn add(&mut self, ty: AlgebraicType) -> (r: AlgebraicTypeRef)
        requires
            old(self)@.len() <= u32::MAX,
        ensures
            r.0 == old(self)@.len(),
            final(self)@ == old(self)@.push(ty@),
    {
        let ghost before = self@;
        let r = AlgebraicTypeRef(self.types.len() as u32);
        self.types.push(ty);
        assert(self@ =~= before.push(ty@));
        r
    }

    /// The type that a reference leads to, if it leads to one.
    pub fn get(&self, r: AlgebraicTypeRef) -> (ty: Option<&AlgebraicType>)
        ensures
            match ty {
                Some(ty) => r.0 < self@.len() && ty@ == self@[r.0 as int],
                None => r.0 >= self@.len(),
            },
    {
        if (r.0 as usize) < self.types.len() {
            Some(&self.types[r.0 as usize])
        } else {
            None
        }
    }

    /// Puts a type in the place of the one that a reference leads to.
    pub fn set(&mut self, r: AlgebraicTypeRef, ty: AlgebraicType)
        requires
            r.0 < old(self)@.len(),
        ensures
            final(self)@ == old(self)@.update(r.0 as int, ty@),
    {
        let ghost before = self@;
        self.types.set(r.0 as usize, ty);
        assert(self@ =~= before.update(r.0 as int, ty@));
    }

    /// A copy of `ty` in which every reference is replaced by the type that it leads to. There is
    /// none if the type is recursive, or if one of the references leads to no type.
    pub fn resolve_refs(&self, ty: &AlgebraicType) -> (r: Option<AlgebraicType>)
        ensures
            match r {
                Some(t) => self.resolved(ty@) == Some(t@),
                None => self.resolved(ty@) is None,
            },
    {
        let mut stack: Vec<AlgebraicTypeRef> = Vec::new();
        proof {
            lemma_allowed_refs(self.types@.len(), stack@);
        }
        resolve(&self.types, ty, &mut stack)
    }
}

/// Whether no reference is left in a type.
pub open spec fn ref_free(ty: TypeModel) -> bool
    decreases ty,
{
    match ty {
        TypeModel::Ref(_) => false,
        TypeModel::Sum(variants) => elements_ref_free(variants),
        TypeModel::Product(elements) => elements_ref_free(elements),
        TypeModel::Array(elem_ty) => ref_free(*elem_ty),
        TypeModel::Plain(_) => true,
    }
}

pub open spec fn elements_ref_free(elements: Seq<ElementModel>) -> bool
    decreases elements,
{
    elements.len() == 0 || (elements_ref_free(elements.drop_last()) && ref_free(
        elements[elements.len() - 1].ty,
    ))
}

/// Whether a type mentions a reference, at any depth, without following references.
pub open spec fn mentions(ty: TypeModel, r: int) -> bool
    decreases ty,
{
    match ty {
        TypeModel::Ref(s) => s == r,
        TypeModel::Sum(variants) => elements_mention(variants, r),
        TypeModel::Product(elements) => elements_mention(elements, r),
        TypeModel::Array(elem_ty) => mentions(*elem_ty, r),
        TypeModel::Plain(_) => false,
    }
}

pub open spec fn elements_mention(elements: Seq<ElementModel>, r: int) -> bool
    decreases elements,
{
    elements.len() > 0 && (elements_mention(elements.drop_last(), r) || mentions(
        elements[elements.len() - 1].ty,
        r,
    ))
}

/// Whether a path of references leads on from a type: the type mentions the first, and the type
/// that each of them leads to mentions the next.
pub open spec fn is_path(types: Seq<TypeModel>, ty: TypeModel, path: Seq<int>) -> bool
    decreases path.len(),
{
    &&& path.len() > 0
    &&& mentions(ty, path[0])
    &&& path.len() > 1 ==> 0 <= path[0] < types.len() && is_path(
        types,
        types[path[0]],
        path.drop_first(),
    )
}

/// Whether the last reference of a path cannot be filled in: it is not among the allowed ones, or
/// it is being filled in already.
pub open spec fn is_dead_end(path: Seq<int>, allowed: Set<int>) -> bool {
    path.len() > 0 && (!allowed.contains(path.last()) || path.drop_last().contains(path.last()))
}

/// A resolved type contains no references.
pub proof fn law_resolved_is_ref_free(types: Seq<TypeModel>, ty: TypeModel, allowed: Set<int>)
    requires
        allowed.finite(),
    ensures
        resolved(types, ty, allowed) matches Some(t) ==> ref_free(t),
    decreases allowed.len(), ty,
{
    match ty {
        TypeModel::Ref(r) => {
            if allowed.contains(r as int) {
                law_resolved_is_ref_free(types, types[r as int], allowed.remove(r as int));
            }
        },
        TypeModel::Sum(variants) => {
            lemma_resolved_elements_are_ref_free(types, variants, allowed);
        },
        TypeModel::Product(elements) => {
            lemma_resolved_elements_are_ref_free(types, elements, allowed);
        },
        TypeModel::Array(elem_ty) => {
            law_resolved_is_ref_free(types, *elem_ty, allowed);
        },
        TypeModel::Plain(_) => {},
    }
}

proof fn lemma_resolved_elements_are_ref_free(
    types: Seq<TypeModel>,
    elements: Seq<ElementModel>,
    allowed: Set<int>,
)
    requires
        allowed.finite(),
    ensures
        resolved_elements(types, elements, allowed) matches Some(es) ==> elements_ref_free(es),
    decreases allowed.len(), elements,
{
    if elements.len() > 0 {
        lemma_resolved_elements_are_ref_free(types, elements.drop_last(), allowed);
        law_resolved_is_ref_free(types, elements[elements.len() - 1].ty, allowed);
        if let Some(es) = resolved_elements(types, elements, allowed) {
            assert(es.drop_last() =~= resolved_elements(
                types,
                elements.drop_last(),
                allowed,
            )->Some_0);
        }
    }
}

/// A type without references is resolved already: filling in changes nothing.
pub proof fn law_ref_free_is_resolved(types: Seq<TypeModel>, ty: TypeModel, allowed: Set<int>)
    requires
        allowed.finite(),
        ref_free(ty),
    ensures
        resolved(types, ty, allowed) == Some(ty),
    decreases ty,
{
    match ty {
        TypeModel::Ref(r) => {},
        TypeModel::Sum(variants) => {
            lemma_ref_free_elements_are_resolved(types, variants, allowed);
        },
        TypeModel::Product(elements) => {
            lemma_ref_free_elements_are_resolved(types, elements, allowed);
        },
        TypeModel::Array(elem_ty) => {
            law_ref_free_is_resolved(types, *elem_ty, allowed);
        },
        TypeModel::Plain(_) => {},
    }
}

proof fn lemma_ref_free_elements_are_resolved(
    types: Seq<TypeModel>,
    elements: Seq<ElementModel>,
    allowed: Set<int>,
)
    requires
        allowed.finite(),
        elements_ref_free(elements),
    ensures
        resolved_elements(types, elements, allowed) == Some(elements),
    decreases elements,
{
    if elements.len() > 0 {
        lemma_ref_free_elements_are_resolved(types, elements.drop_last(), allowed);
        law_ref_free_is_resolved(types, elements[elements.len() - 1].ty, allowed);
        assert(elements =~= elements.drop_last().push(elements[elements.len() - 1]));
    } else {
        assert(elements =~= seq![]);
    }
}

/// A type that cannot be resolved has a path of references to a dead end.
proof fn lemma_dead_end_if_unresolved(
    types: Seq<TypeModel>,
    ty: TypeModel,
    allowed: Set<int>,
) -> (path: Seq<int>)
    requires
        allowed.finite(),
        forall|r: int| #[trigger] allowed.contains(r) ==> 0 <= r < types.len(),
        resolved(types, ty, allowed) is None,
    ensures
        is_path(types, ty, path),
        is_dead_end(path, allowed),
    decreases allowed.len(), ty,
{
    match ty {
        TypeModel::Ref(r) => {
            if allowed.contains(r as int) {
                let rest = lemma_dead_end_if_unresolved(
                    types,
                    types[r as int],
                    allowed.remove(r as int),
                );
                let path = seq![r as int] + rest;
                assert(path.drop_first() =~= rest);
                assert(path.last() == rest.last());
                if !allowed.remove(r as int).contains(rest.last()) {
                    if rest.last() == r {
                        assert(path.drop_last()[0] == r);
                    }
                } else {
                    let i = choose|i: int|
                        0 <= i < rest.drop_last().len() && rest.drop_last()[i] == rest.last();
                    assert(path.drop_last()[i + 1] == rest.last());
                }
                path
            } else {
                seq![r as int]
            }
        },
        TypeModel::Sum(variants) => {
            lemma_dead_end_if_elements_unresolved(types, variants, allowed)
        },
        TypeModel::Product(elements) => {
            lemma_dead_end_if_elements_unresolved(types, elements, allowed)
        },
        TypeModel::Array(elem_ty) => { lemma_dead_end_if_unresolved(types, *elem_ty, allowed) },
        TypeModel::Plain(_) => { seq![] },
    }
}

proof fn lemma_dead_end_if_elements_unresolved(
    types: Seq<TypeModel>,
    elements: Seq<ElementModel>,
    allowed: Set<int>,
) -> (path: Seq<int>)
    requires
        allowed.finite(),
        forall|r: int| #[trigger] allowed.contains(r) ==> 0 <= r < types.len(),
        resolved_elements(types, elements, allowed) is None,
    ensures
        is_path(types, TypeModel::Sum(elements), path),
        is_path(types, TypeModel::Product(elements), path),
        is_dead_end(path, allowed),
    decreases allowed.len(), elements,
{
    let before = elements.drop_last();
    let path = if resolved_elements(types, before, allowed) is None {
        let path = lemma_dead_end_if_elements_unresolved(types, before, allowed);
        assert(mentions(TypeModel::Sum(before), path[0]));
        assert(elements_mention(before, path[0]));
        path
    } else {
        lemma_dead_end_if_unresolved(types, elements[elements.len() - 1].ty, allowed)
    };
    assert(elements_mention(elements, path[0]));
    assert(mentions(TypeModel::Sum(elements), path[0]));
    assert(mentions(TypeModel::Product(elements), path[0]));
    path
}

/// Every reference that a resolved type mentions was allowed, and leads to a type that is resolved
/// without it.
proof fn lemma_mentioned_is_resolved(
    types: Seq<TypeModel>,
    ty: TypeModel,
    allowed: Set<int>,
    r: int,
)
    requires
        allowed.finite(),
        resolved(types, ty, allowed) is Some,
        mentions(ty, r),
    ensures
        allowed.contains(r),
        resolved(types, types[r], allowed.remove(r)) is Some,
    decreases ty,
{
    match ty {
        TypeModel::Ref(s) => {},
        TypeModel::Sum(variants) => {
            lemma_mentioned_in_elements_is_resolved(types, variants, allowed, r);
        },
        TypeModel::Product(elements) => {
            lemma_mentioned_in_elements_is_resolved(types, elements, allowed, r);
        },
        TypeModel::Array(elem_ty) => {
            lemma_mentioned_is_resolved(types, *elem_ty, allowed, r);
        },
        TypeModel::Plain(_) => {},
    }
}

proof fn lemma_mentioned_in_elements_is_resolved(
    types: Seq<TypeModel>,
    elements: Seq<ElementModel>,
    allowed: Set<int>,
    r: int,
)
    requires
        allowed.finite(),
        resolved_elements(types, elements, allowed) is Some,
        elements_mention(elements, r),
    ensures
        allowed.contains(r),
        resolved(types, types[r], allowed.remove(r)) is Some,
    decreases elements,
{
    if elements_mention(elements.drop_last(), r) {
        lemma_mentioned_in_elements_is_resolved(types, elements.drop_last(), allowed, r);
    } else {
        lemma_mentioned_is_resolved(types, elements[elements.len() - 1].ty, allowed, r);
    }
}

/// A type from which a path of references comes to a dead end cannot be resolved.
proof fn lemma_unresolved_if_dead_end(
    types: Seq<TypeModel>,
    ty: TypeModel,
    allowed: Set<int>,
    path: Seq<int>,
)
    requires
        allowed.finite(),
        is_path(types, ty, path),
        is_dead_end(path, allowed),
    ensures
        resolved(types, ty, allowed) is None,
    decreases path.len(),
{
    if resolved(types, ty, allowed) is Some {
        let r = path[0];
        lemma_mentioned_is_resolved(types, ty, allowed, r);
        if path.len() > 1 {
            let rest = path.drop_first();
            assert(rest.last() == path.last());
            if allowed.remove(r).contains(rest.last()) {
                let i = choose|i: int|
                    0 <= i < path.drop_last().len() && path.drop_last()[i] == path.last();
                assert(i > 0);
                assert(rest.drop_last()[i - 1] == rest.last());
            }
            lemma_unresolved_if_dead_end(types, types[r], allowed.remove(r), rest);
        }
    }
}

/// A type cannot be resolved exactly when following references from it comes to one that leads to
/// no type, or to one that was followed before: when it is broken or recursive.
pub proof fn law_unresolved_iff_dead_end(types: Seq<TypeModel>, ty: TypeModel)
    ensures
        resolved(types, ty, all_refs(types.len())) is None <==> exists|path: Seq<int>|
            #[trigger] is_path(types, ty, path) && is_dead_end(path, all_refs(types.len())),
{
    let allowed = all_refs(types.len());
    lemma_int_range(0, types.len() as int);
    if resolved(types, ty, allowed) is None {
        let path = lemma_dead_end_if_unresolved(types, ty, allowed);
        assert(is_path(types, ty, path) && is_dead_end(path, allowed));
    }
    if exists|path: Seq<int>|
        #[trigger] is_path(types, ty, path) && is_dead_end(path, allowed) {
        let path = choose|path: Seq<int>|
            #[trigger] is_path(types, ty, path) && is_dead_end(path, allowed);
        lemma_unresolved_if_dead_end(types, ty, allowed, path);
    }
}

/// Filling in references keeps the parts of a sum or product: as many, with the same names.
pub proof fn law_resolution_keeps_names(
    types: Seq<TypeModel>,
    elements: Seq<ElementModel>,
    allowed: Set<int>,
)
    requires
        allowed.finite(),
    ensures
        resolved_elements(types, elements, allowed) matches Some(es) ==> {
            &&& es.len() == elements.len()
            &&& forall|i: int| 0 <= i < es.len() ==> (#[trigger] es[i]).name == elements[i].name
        },
    decreases elements.len(),
{
    if elements.len() > 0 {
        law_resolution_keeps_names(types, elements.drop_last(), allowed);
    }
}

/// A reference resolves to exactly what the type that it leads to resolves to, with that reference
/// used up; one that may not be followed does not resolve. So a reference to a type without
/// references resolves to that very type.
pub proof fn law_reference_resolves_to_its_type(
    types: Seq<TypeModel>,
    r: u32,
    allowed: Set<int>,
)
    requires
        allowed.finite(),
    ensures
        allowed.contains(r as int) ==> resolved(types, TypeModel::Ref(r), allowed) == resolved(
            types,
            types[r as int],
            allowed.remove(r as int),
        ),
        !allowed.contains(r as int) ==> resolved(types, TypeModel::Ref(r), allowed) is None,
        allowed.contains(r as int) && ref_free(types[r as int]) ==> resolved(
            types,
            TypeModel::Ref(r),
            allowed,
        ) == Some(types[r as int]),
{
    if allowed.contains(r as int) && ref_free(types[r as int]) {
        law_ref_free_is_resolved(types, types[r as int], allowed.remove(r as int));
    }
}

/// Whether the parts of a type that was resolved are those of the type as it was, one by one: as
/// many, with the same names, and each with its type resolved.
pub open spec fn parts_resolved(
    types: Seq<TypeModel>,
    before: Seq<ElementModel>,
    after: Seq<ElementModel>,
    allowed: Set<int>,
) -> bool {
    &&& after.len() == before.len()
    &&& forall|i: int|
        0 <= i < before.len() ==> {
            &&& (#[trigger] after[i]).name == before[i].name
            &&& resolved(types, before[i].ty, allowed) == Some(after[i].ty)
        }
}

/// Resolving keeps what a type is. A sum resolves to a sum, a product to a product and an array to
/// an array, each part in its place, with its name, and resolved by itself; a plain type stays as
/// it is. It succeeds exactly when it succeeds for every part.
pub proof fn law_resolution_goes_part_by_part(
    types: Seq<TypeModel>,
    ty: TypeModel,
    allowed: Set<int>,
)
    requires
        allowed.finite(),
    ensures
        match ty {
            TypeModel::Plain(_) => resolved(types, ty, allowed) == Some(ty),
            TypeModel::Array(elem_ty) => match resolved(types, ty, allowed) {
                Some(t) => t is Array && resolved(types, *elem_ty, allowed) == Some(*t->Array_0),
                None => resolved(types, *elem_ty, allowed) is None,
            },
            TypeModel::Sum(variants) => match resolved(types, ty, allowed) {
                Some(t) => t is Sum && parts_resolved(types, variants, t->Sum_0, allowed),
                None => exists|i: int|
                    0 <= i < variants.len() && resolved(
                        types,
                        (#[trigger] variants[i]).ty,
                        allowed,
                    ) is None,
            },
            TypeModel::Product(elements) => match resolved(types, ty, allowed) {
                Some(t) => t is Product && parts_resolved(types, elements, t->Product_0, allowed),
                None => exists|i: int|
                    0 <= i < elements.len() && resolved(
                        types,
                        (#[trigger] elements[i]).ty,
                        allowed,
                    ) is None,
            },
            TypeModel::Ref(r) => allowed.contains(r as int) ==> resolved(types, ty, allowed)
                == resolved(types, types[r as int], allowed.remove(r as int)),
        },
{
    match ty {
        TypeModel::Sum(variants) => {
            lemma_parts_are_resolved(types, variants, allowed);
        },
        TypeModel::Product(elements) => {
            lemma_parts_are_resolved(types, elements, allowed);
        },
        _ => {},
    }
}

proof fn lemma_parts_are_resolved(
    types: Seq<TypeModel>,
    elements: Seq<ElementModel>,
    allowed: Set<int>,
)
    requires
        allowed.finite(),
    ensures
        match resolved_elements(types, elements, allowed) {
            Some(es) => parts_resolved(types, elements, es, allowed),
            None => exists|i: int|
                0 <= i < elements.len() && resolved(types, (#[trigger] elements[i]).ty, allowed)
                    is None,
        },
    decreases elements.len(),
{
    if elements.len() > 0 {
        let before = elements.drop_last();
        let last = elements[elements.len() - 1];
        lemma_parts_are_resolved(types, before, allowed);
        match resolved_elements(types, before, allowed) {
            None => {
                let i = choose|i: int|
                    0 <= i < before.len() && resolved(types, (#[trigger] before[i]).ty, allowed)
                        is None;
                assert(elements[i] == before[i]);
            },
            Some(es) => {
                if let Some(all) = resolved_elements(types, elements, allowed) {
                    assert forall|i: int| 0 <= i < elements.len() implies {
                        &&& (#[trigger] all[i]).name == elements[i].name
                        &&& resolved(types, elements[i].ty, allowed) == Some(all[i].ty)
                    } by {
                        if i < before.len() {
                            assert(all[i] == es[i]);
                            assert(elements[i] == before[i]);
                        }
                    }
                } else {
                    assert(resolved(types, last.ty, allowed) is None);
                    assert(elements[elements.len() - 1].ty == last.ty);
                }
            },
        }
    }
}

/// In a typespace every reference that leads to a type may be followed, and no other one.
pub proof fn law_typespace_allows_its_own_references(typespace: Typespace, ty: TypeModel, r: u32)
    ensures
        typespace@.len() == typespace.types@.len(),
        forall|i: int|
            0 <= i < typespace.types@.len() ==> (#[trigger] typespace.types@[i])@ == typespace@[i],
        r >= typespace.types@.len() ==> typespace.resolved(TypeModel::Ref(r)) is None,
        r < typespace.types@.len() && ref_free(typespace.types@[r as int]@) ==> typespace.resolved(
            TypeModel::Ref(r),
        ) == Some(typespace.types@[r as int]@),
        typespace.resolved(ty) == resolved(
            typespace@,
            ty,
            Set::new(|i: int| 0 <= i < typespace.types@.len()),
        ),
{
    let n = typespace.types@.len();
    lemma_int_range(0, n as int);
    assert(all_refs(n) =~= Set::new(|i: int| 0 <= i < n));
    law_reference_resolves_to_its_type(typespace@, r, all_refs(n));
}

/// A type is free of references exactly when it mentions none; and a type mentions what its parts
/// mention.
pub proof fn law_ref_free_mentions_nothing(ty: TypeModel)
    ensures
        ref_free(ty) <==> forall|r: u32| !#[trigger] mentions(ty, r as int),
        forall|r: int|
            #[trigger] mentions(ty, r) <==> match ty {
                TypeModel::Ref(s) => s == r,
                TypeModel::Sum(parts) => exists|i: int|
                    0 <= i < parts.len() && mentions((#[trigger] parts[i]).ty, r),
                TypeModel::Product(parts) => exists|i: int|
                    0 <= i < parts.len() && mentions((#[trigger] parts[i]).ty, r),
                TypeModel::Array(elem_ty) => mentions(*elem_ty, r),
                TypeModel::Plain(_) => false,
            },
    decreases ty,
{
    match ty {
        TypeModel::Ref(s) => {
            assert(mentions(ty, s as int));
        },
        TypeModel::Sum(parts) => {
            lemma_parts_mention(parts);
            lemma_mentions_as_its_parts(ty, parts);
        },
        TypeModel::Product(parts) => {
            lemma_parts_mention(parts);
            lemma_mentions_as_its_parts(ty, parts);
        },
        TypeModel::Array(elem_ty) => {
            law_ref_free_mentions_nothing(*elem_ty);
            assert forall|r: u32| #[trigger] mentions(ty, r as int) == mentions(
                *elem_ty,
                r as int,
            ) by {}
            if !ref_free(ty) {
                let r = choose|r: u32| #[trigger] mentions(*elem_ty, r as int);
                assert(mentions(ty, r as int));
            }
        },
        TypeModel::Plain(_) => {},
    }
}

proof fn lemma_mentions_as_its_parts(ty: TypeModel, parts: Seq<ElementModel>)
    requires
        ty == TypeModel::Sum(parts) || ty == TypeModel::Product(parts),
        elements_ref_free(parts) <==> forall|r: u32| !#[trigger] elements_mention(parts, r as int),
    ensures
        forall|r: int| #[trigger] mentions(ty, r) == elements_mention(parts, r),
        ref_free(ty) <==> forall|r: u32| !#[trigger] mentions(ty, r as int),
{
    if elements_ref_free(parts) {
        assert forall|r: u32| !#[trigger] mentions(ty, r as int) by {
            assert(!elements_mention(parts, r as int));
        }
    } else {
        let r = choose|r: u32| #[trigger] elements_mention(parts, r as int);
        assert(mentions(ty, r as int));
    }
}

proof fn lemma_parts_mention(parts: Seq<ElementModel>)
    ensures
        elements_ref_free(parts) <==> forall|r: u32| !#[trigger] elements_mention(parts, r as int),
        forall|r: int|
            #[trigger] elements_mention(parts, r) <==> exists|i: int|
                0 <= i < parts.len() && mentions((#[trigger] parts[i]).ty, r),
    decreases parts,
{
    if parts.len() > 0 {
        let before = parts.drop_last();
        let last = parts[parts.len() - 1];
        lemma_parts_mention(before);
        law_ref_free_mentions_nothing(last.ty);
        assert forall|r: int| #[trigger] elements_mention(parts, r) <==> exists|i: int|
            0 <= i < parts.len() && mentions((#[trigger] parts[i]).ty, r) by {
            if elements_mention(before, r) {
                let i = choose|i: int|
                    0 <= i < before.len() && mentions((#[trigger] before[i]).ty, r);
                assert(parts[i] == before[i]);
            }
            if mentions(last.ty, r) {
                assert(mentions(parts[parts.len() - 1].ty, r));
            }
            if exists|i: int| 0 <= i < parts.len() && mentions((#[trigger] parts[i]).ty, r) {
                let i = choose|i: int|
                    0 <= i < parts.len() && mentions((#[trigger] parts[i]).ty, r);
                if i < before.len() {
                    assert(before[i] == parts[i]);
                }
            }
        }
        if !elements_ref_free(before) {
            let r = choose|r: u32| #[trigger] elements_mention(before, r as int);
            assert(elements_mention(parts, r as int));
        } else if !ref_free(last.ty) {
            let r = choose|r: u32| #[trigger] mentions(last.ty, r as int);
            assert(elements_mention(parts, r as int));
        } else {
            assert forall|r: u32| !#[trigger] elements_mention(parts, r as int) by {
                assert(!elements_mention(before, r as int));
                assert(!mentions(last.ty, r as int));
            }
        }
    }
}

} // verus!
