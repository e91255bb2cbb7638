//! What a module defines: its types, tables, reducers and exported names, and how a definition is
//! put together.

use std::collections::BTreeMap;

use vstd::prelude::*;

use crate::reducer::{ReducerDef, ReducerModel};
use crate::types::{
    elements_view, AlgebraicType, AlgebraicTypeRef, ElementModel, ProductType, ProductTypeElement,
    TypeModel,
};
use crate::typespace::{
    all_refs, law_reference_resolves_to_its_type, law_resolved_is_ref_free, ref_free, resolved,
    resolved_elements, Typespace, WithTypespace,
};

verus! {

/// A column of a table.
#[derive(PartialEq, Eq, PartialOrd, Ord, Debug)]
pub struct RawColumnDefV8 {
    pub col_name: String,
    pub col_type: AlgebraicType,
}

/// A table: its name and its columns.
#[derive(PartialEq, Eq, PartialOrd, Ord, Debug)]
pub struct RawTableDefV8 {
    pub table_name: String,
    pub columns: Vec<RawColumnDefV8>,
}

/// A table together with the type of its rows.
#[derive(Clone, PartialEq, Eq, PartialOrd, Ord, Debug)]
pub struct TableDesc {
    pub schema: RawTableDefV8,
    /// data should always point to a ProductType in the typespace
    pub data: AlgebraicTypeRef,
}

/// A name for a type of the typespace.
#[derive(Clone, PartialEq, Eq, Debug)]
pub struct TypeAlias {
    pub name: String,
    pub ty: AlgebraicTypeRef,
}

/// Something else that a module exports.
#[derive(Clone, PartialEq, Eq, Debug)]
pub enum MiscModuleExport {
    TypeAlias(TypeAlias),
}

/// A module definition of version 8.
#[derive(Clone, PartialEq, Eq, Debug)]
pub struct RawModuleDefV8 {
    pub typespace: Typespace,
    pub tables: Vec<TableDesc>,
    pub reducers: Vec<ReducerDef>,
    pub misc_exports: Vec<MiscModuleExport>,
}

/// A module definition of version 9, as far as types are resolved by it: its typespace.
#[derive(Clone, PartialEq, Eq, Debug)]
pub struct RawModuleDefV9 {
    pub typespace: Typespace,
}

/// A versioned raw module definition.
#[non_exhaustive]
#[derive(Clone, PartialEq, Eq, Debug)]
pub enum RawModuleDef {
    V8BackCompat(RawModuleDefV8),
    V9(RawModuleDefV9),
}

/// What a column is.
#[verifier::ext_equal]
pub struct ColumnModel {
    pub name: Seq<char>,
    pub ty: TypeModel,
}

/// What a table is.
#[verifier::ext_equal]
pub struct TableModel {
    pub name: Seq<char>,
    pub columns: Seq<ColumnModel>,
}

/// What a table together with the type of its rows is.
#[verifier::ext_equal]
pub struct TableDescModel {
    pub schema: TableModel,
    pub data: AlgebraicTypeRef,
}

/// What an exported name is.
#[verifier::ext_equal]
pub enum ExportModel {
    TypeAlias { name: Seq<char>, ty: AlgebraicTypeRef },
}

/// What a module definition is.
#[verifier::ext_equal]
pub struct ModuleModel {
    pub types: Seq<TypeModel>,
    pub tables: Seq<TableDescModel>,
    pub reducers: Seq<ReducerModel>,
    pub exports: Seq<ExportModel>,
}

impl RawColumnDefV8 {
    pub open spec fn view(&self) -> ColumnModel {
        ColumnModel { name: self.col_name@, ty: self.col_type@ }
    }
}

impl Clone for RawColumnDefV8 {
    fn clone(&self) -> (r: Self)
        ensures
            r@ == self@,
    {
        RawColumnDefV8 { col_name: self.col_name.clone(), col_type: self.col_type.clone() }
    }
}

impl RawTableDefV8 {
    pub open spec fn view(&self) -> TableModel {
        TableModel {
            name: self.table_name@,
            columns: Seq::new(self.columns@.len(), |i: int| self.columns@[i]@),
        }
    }
}

impl Clone for RawTableDefV8 {
    fn clone(&self) -> (r: Self)
        ensures
            r@ == self@,
    {
        let mut columns: Vec<RawColumnDefV8> = Vec::new();
        let mut i: usize = 0;
        while i < self.columns.len()
            invariant
                i <= self.columns.len(),
                columns@.len() == i,
                forall|j: int| 0 <= j < i ==> (#[trigger] columns@[j])@ == self.columns@[j]@,
            decreases self.columns.len() - i,
        {
            columns.push(self.columns[i].clone());
            i += 1;
        }
        let copy = RawTableDefV8 { table_name: self.table_name.clone(), columns };
        assert(copy@ =~= self@);
        copy
    }
}

impl MiscModuleExport {
    pub open spec fn view(&self) -> ExportModel {
        match self {
            MiscModuleExport::TypeAlias(alias) => ExportModel::TypeAlias {
                name: alias.name@,
                ty: alias.ty,
            },
        }
    }
}

impl RawModuleDefV8 {
    pub open spec fn view(&self) -> ModuleModel {
        ModuleModel {
            types: self.typespace@,
            tables: Seq::new(self.tables@.len(), |i: int| self.tables@[i]@),
            reducers: Seq::new(self.reducers@.len(), |i: int| self.reducers@[i]@),
            exports: Seq::new(self.misc_exports@.len(), |i: int| self.misc_exports@[i]@),
        }
    }
}

/// Why a table cannot be taken over.
#[derive(Clone, Copy, PartialEq, Eq, Debug, Structural)]
pub enum TableDefError {
    /// The type of the rows is recursive, or refers to a type that there is not.
    RecursiveTypes,
    /// The type of the rows is not a product.
    NotAProduct,
    /// The type of the rows has not as many elements as the table has columns.
    MismatchedColumns,
}

impl TableDefError {
    pub open spec fn text(self) -> Seq<char> {
        match self {
            TableDefError::RecursiveTypes => "recursive types not yet supported"@,
            TableDefError::NotAProduct => "table not a product type?"@,
            TableDefError::MismatchedColumns => "mismatched number of columns"@,
        }
    }

    pub fn message(&self) -> (r: &'static str)
        ensures
            r@ == self.text(),
            self is RecursiveTypes ==> r@ == "recursive types not yet supported"@,
            self is NotAProduct ==> r@ == "table not a product type?"@,
            self is MismatchedColumns ==> r@ == "mismatched number of columns"@,
    {
        match self {
            TableDefError::RecursiveTypes => "recursive types not yet supported",
            TableDefError::NotAProduct => "table not a product type?",
            TableDefError::MismatchedColumns => "mismatched number of columns",
        }
    }
}

impl TableDesc {
    pub open spec fn view(&self) -> TableDescModel {
        TableDescModel { schema: self.schema@, data: self.data }
    }

    /// The table's definition, if the type of its rows fits its columns: the type must resolve
    /// within the typespace, be a product, and have one element for each column.
    pub fn into_table_def(table: WithTypespace<'_, TableDesc>) -> (r: Result<
        RawTableDefV8,
        TableDefError,
    >)
        ensures
            match r {
                Ok(def) => table_def(table.typespace@, table.ty@) == Ok::<
                    TableModel,
                    TableDefError,
                >(def@),
                Err(e) => table_def(table.typespace@, table.ty@) == Err::<
                    TableModel,
                    TableDefError,
                >(e),
            },
            r is Ok ==> r->Ok_0@ == table.ty.schema@,
            match table.typespace.resolved(TypeModel::Ref(table.ty.data.0)) {
                None => r matches Err(TableDefError::RecursiveTypes),
                Some(TypeModel::Product(elements)) => {
                    &&& elements.len() == table.ty.schema.columns@.len() <==> r is Ok
                    &&& elements.len() != table.ty.schema.columns@.len() ==> r matches Err(
                        TableDefError::MismatchedColumns,
                    )
                },
                Some(_) => r matches Err(TableDefError::NotAProduct),
            },
    {
        let rows = match table.typespace.resolve_refs(&AlgebraicType::Ref(table.ty.data)) {
            Some(ty) => ty,
            None => {
                return Err(TableDefError::RecursiveTypes);
            },
        };
        let product = match rows {
            AlgebraicType::Product(product) => product,
            _ => {
                return Err(TableDefError::NotAProduct);
            },
        };
        proof {
            crate::types::lemma_elements_view_len(product.elements@);
        }
        let table = table.ty;
        if table.schema.columns.len() != product.elements.len() {
            return Err(TableDefError::MismatchedColumns);
        }
        Ok(table.schema.clone())
    }
}

/// A table's definition, if the type of its rows fits its columns.
pub open spec fn table_def(types: Seq<TypeModel>, table: TableDescModel) -> Result<
    TableModel,
    TableDefError,
> {
    match resolved(types, TypeModel::Ref(table.data.0), all_refs(types.len())) {
        None => Err(TableDefError::RecursiveTypes),
        Some(TypeModel::Product(elements)) => if elements.len() == table.schema.columns.len() {
            Ok(table.schema)
        } else {
            Err(TableDefError::MismatchedColumns)
        },
        Some(_) => Err(TableDefError::NotAProduct),
    }
}

impl ModuleModel {
    pub open spec fn empty() -> ModuleModel {
        ModuleModel { types: seq![], tables: seq![], reducers: seq![], exports: seq![] }
    }

    pub open spec fn with_type(self, ty: TypeModel) -> ModuleModel {
        ModuleModel { types: self.types.push(ty), ..self }
    }

    pub open spec fn with_table(self, table: TableDescModel) -> ModuleModel {
        ModuleModel { tables: self.tables.push(table), ..self }
    }

    pub open spec fn with_reducer(self, reducer: ReducerModel) -> ModuleModel {
        ModuleModel { reducers: self.reducers.push(reducer), ..self }
    }

    pub open spec fn with_export(self, export: ExportModel) -> ModuleModel {
        ModuleModel { exports: self.exports.push(export), ..self }
    }
}

impl ColumnModel {
    /// A column as an element of the type of the table's rows.
    pub open spec fn as_element(self) -> ElementModel {
        ElementModel { name: Some(self.name), ty: self.ty }
    }
}

impl TableModel {
    /// The type of the table's rows: a product with an element for each column.
    pub open spec fn row_type(self) -> TypeModel {
        TypeModel::Product(Seq::new(self.columns.len(), |i: int| self.columns[i].as_element()))
    }
}

impl ModuleModel {
    /// The definition with a table added, with the type of its rows, and with that type exported
    /// under the table's name.
    pub open spec fn with_generated_table(self, schema: TableModel) -> ModuleModel {
        let data = AlgebraicTypeRef(self.types.len() as u32);
        self.with_type(schema.row_type()).with_export(
            ExportModel::TypeAlias { name: schema.name, ty: data },
        ).with_table(TableDescModel { schema, data })
    }
}

/// What a builder holds: the definition so far, and which types have their place already.
#[verifier::ext_equal]
pub struct BuilderModel {
    pub module: ModuleModel,
    pub type_map: Map<u64, AlgebraicTypeRef>,
}

impl BuilderModel {
    pub open spec fn empty() -> BuilderModel {
        BuilderModel { module: ModuleModel::empty(), type_map: map![] }
    }

    /// Every type that has its place stands in the typespace, and no two have the same place.
    pub open spec fn wf(self) -> bool {
        &&& forall|typeid: u64| #[trigger]
            self.type_map.contains_key(typeid) ==> self.type_map[typeid].0
                < self.module.types.len()
        &&& forall|a: u64, b: u64|
            #[trigger] self.type_map.contains_key(a) && #[trigger] self.type_map.contains_key(b)
                && a != b ==> self.type_map[a] != self.type_map[b]
    }

    /// Nothing that stood in `earlier` has lost its place.
    pub open spec fn extends(self, earlier: BuilderModel) -> bool {
        &&& self.module.types.len() >= earlier.module.types.len()
        &&& forall|typeid: u64| #[trigger]
            earlier.type_map.contains_key(typeid) ==> {
                &&& self.type_map.contains_key(typeid)
                &&& self.type_map[typeid] == earlier.type_map[typeid]
            }
    }

    /// The reference that the next type of the typespace gets.
    pub open spec fn next_ref(self) -> AlgebraicTypeRef {
        AlgebraicTypeRef(self.module.types.len() as u32)
    }

    /// The builder after a type was given its place, before it is known what the type is: the unit
    /// type stands there meanwhile. With a name, the name is exported.
    pub open spec fn begun(self, typeid: u64, name: Option<Seq<char>>) -> BuilderModel {
        let placed = self.module.with_type(TypeModel::Product(seq![]));
        BuilderModel {
            module: match name {
                Some(name) => placed.with_export(
                    ExportModel::TypeAlias { name, ty: self.next_ref() },
                ),
                None => placed,
            },
            type_map: self.type_map.insert(typeid, self.next_ref()),
        }
    }

    /// The builder after a type was put in its place.
    pub open spec fn filled(self, r: AlgebraicTypeRef, ty: TypeModel) -> BuilderModel {
        BuilderModel {
            module: ModuleModel { types: self.module.types.update(r.0 as int, ty), ..self.module },
            ..self
        }
    }
}

proof fn lemma_extends_carries_over(a: BuilderModel, b: BuilderModel, c: BuilderModel)
    requires
        b.extends(a),
        c.extends(b),
    ensures
        c.extends(a),
{
    assert forall|typeid: u64| #[trigger] a.type_map.contains_key(typeid) implies {
        &&& c.type_map.contains_key(typeid)
        &&& a.type_map[typeid] == c.type_map[typeid]
    } by {
        assert(b.type_map.contains_key(typeid));
    }
}

/// An optional text.
pub open spec fn text_view(text: Option<&str>) -> Option<Seq<char>> {
    match text {
        Some(text) => Some(text@),
        None => None,
    }
}

/// A builder for a [`RawModuleDefV8`].
pub struct ModuleDefBuilder {
    /// The module definition.
    module: RawModuleDefV8,
    /// The place of each type, by the number that stands for it.
    type_map: BTreeMap<u64, AlgebraicTypeRef>,
}

impl Default for RawModuleDefV8 {
    fn default() -> (r: Self)
        ensures
            r@ == ModuleModel::empty(),
    {
        let module = RawModuleDefV8 {
            typespace: Typespace::new(),
            tables: Vec::new(),
            reducers: Vec::new(),
            misc_exports: Vec::new(),
        };
        assert(module@ =~= ModuleModel::empty());
        module
    }
}

impl Default for ModuleDefBuilder {
    fn default() -> (r: Self)
        ensures
            r@ == BuilderModel::empty(),
    {
        ModuleDefBuilder { module: RawModuleDefV8::default(), type_map: BTreeMap::new() }
    }
}

impl RawModuleDefV8 {
    /// A builder with nothing in it.
    pub fn builder() -> (r: ModuleDefBuilder)
        ensures
            r@ == BuilderModel::empty(),
    {
        ModuleDefBuilder::default()
    }

    /// The definition that `f` puts together.
    pub fn with_builder(f: impl FnOnce(&mut ModuleDefBuilder)) -> (r: Self)
        requires
            forall|b: &mut ModuleDefBuilder|
                (*b)@ == BuilderModel::empty() ==> #[trigger] call_requires(f, (b,)),
        ensures
            exists|b: &mut ModuleDefBuilder|
                {
                    &&& (*b)@ == BuilderModel::empty()
                    &&& #[trigger] call_ensures(f, (b,), ())
                    &&& r@ == (*final(b))@.module
                },
    {
        let mut builder = Self::builder();
        f(&mut builder);
        builder.finish()
    }
}

impl ModuleDefBuilder {
    pub closed spec fn view(&self) -> BuilderModel {
        BuilderModel { module: self.module@, type_map: self.type_map@ }
    }

    /// The place of a type in the typespace, as a reference to it. `typeid` is the number that
    /// stands for the type. A type that has its place already keeps it. For any other one, a place
    /// is taken and, if the type has a name, the name is exported; then `make_ty` tells what the
    /// type is. Since the place is taken before, a type may refer to itself. As long as `make_ty`
    /// keeps what stands in the builder, nothing loses its place.
    pub fn add(
        &mut self,
        typeid: u64,
        name: Option<&str>,
        make_ty: impl FnOnce(&mut ModuleDefBuilder) -> AlgebraicType,
    ) -> (r: AlgebraicType)
        requires
            !old(self)@.type_map.contains_key(typeid) ==> {
                let begun = old(self)@.begun(typeid, text_view(name));
                &&& old(self)@.module.types.len() <= u32::MAX
                &&& forall|b: &mut ModuleDefBuilder|
                    (*b)@ == begun ==> #[trigger] call_requires(make_ty, (b,))
                &&& forall|b: &mut ModuleDefBuilder, ty: AlgebraicType|
                    (*b)@ == begun && #[trigger] call_ensures(make_ty, (b,), ty)
                        ==> old(self)@.next_ref().0 < (*final(b))@.module.types.len()
            },
        ensures
            old(self)@.wf() && (forall|b: &mut ModuleDefBuilder, ty: AlgebraicType|
                (*b)@ == old(self)@.begun(typeid, text_view(name)) && #[trigger] call_ensures(
                    make_ty,
                    (b,),
                    ty,
                ) ==> (*final(b))@.wf() && (*final(b))@.extends((*b)@)) ==> {
                &&& final(self)@.wf()
                &&& final(self)@.extends(old(self)@)
            },
            old(self)@.type_map.contains_key(typeid) ==> {
                &&& final(self)@ == old(self)@
                &&& r@ == TypeModel::Ref(old(self)@.type_map[typeid].0)
            },
            !old(self)@.type_map.contains_key(typeid) ==> {
                &&& r@ == TypeModel::Ref(old(self)@.next_ref().0)
                &&& exists|b: &mut ModuleDefBuilder, ty: AlgebraicType|
                    {
                        &&& (*b)@ == old(self)@.begun(typeid, text_view(name))
                        &&& #[trigger] call_ensures(make_ty, (b,), ty)
                        &&& final(self)@ == (*final(b))@.filled(old(self)@.next_ref(), ty@)
                    }
            },
    {
        broadcast use vstd::laws_cmp::group_laws_cmp;

        let ghost before = self@;
        let known: Option<AlgebraicTypeRef> = match self.type_map.get(&typeid) {
            Some(r) => Some(*r),
            None => None,
        };
        let r = match known {
            Some(r) => r,
            None => {
                let slot_ref = self.module.typespace.add(AlgebraicType::unit());
                let _ = self.type_map.insert(typeid, slot_ref);
                if let Some(name) = name {
                    self.add_type_alias(TypeAlias { name: name.to_owned(), ty: slot_ref });
                }
                assert(self@ =~= before.begun(typeid, text_view(name)));
                let ty = make_ty(self);
                let ghost made = self@;
                self.module.typespace.set(slot_ref, ty);
                assert(self@ =~= made.filled(slot_ref, ty@));
                proof {
                    let begun = before.begun(typeid, text_view(name));
                    assert(begun.extends(before));
                    if made.extends(begun) {
                        lemma_extends_carries_over(before, begun, made);
                    }
                }
                slot_ref
            },
        };
        AlgebraicType::Ref(r)
    }

    /// The type that `make_type` describes; it may add types and names to the module.
    pub fn add_type(
        &mut self,
        make_type: impl FnOnce(&mut ModuleDefBuilder) -> AlgebraicType,
    ) -> (r: AlgebraicType)
        requires
            forall|b: &mut ModuleDefBuilder|
                (*b)@ == old(self)@ ==> #[trigger] call_requires(make_type, (b,)),
        ensures
            exists|b: &mut ModuleDefBuilder|
                {
                    &&& (*b)@ == old(self)@
                    &&& #[trigger] call_ensures(make_type, (b,), r)
                    &&& final(self)@ == (*final(b))@
                },
    {
        make_type(self)
    }

    /// Add a type that may not correspond to a Rust type, and export it under a name.
    pub fn add_type_for_tests(&mut self, name: &str, ty: AlgebraicType) -> (r: AlgebraicTypeRef)
        requires
            old(self)@.module.types.len() <= u32::MAX,
        ensures
            r == old(self)@.next_ref(),
            final(self)@ == (BuilderModel {
                module: old(self)@.module.with_type(ty@).with_export(
                    ExportModel::TypeAlias { name: name@, ty: r },
                ),
                ..old(self)@
            }),
    {
        let ghost before = self@;
        let slot_ref = self.module.typespace.add(ty);
        assert(self@.module =~= before.module.with_type(ty@));
        self.add_misc_export(
            MiscModuleExport::TypeAlias(TypeAlias { name: name.to_owned(), ty: slot_ref }),
        );
        slot_ref
    }

    /// Add a table that may not correspond to a Rust type.
    /// Wraps it in a `TableDesc` and generates a corresponding `ProductType` in the typespace.
    /// Returns the `AlgebraicTypeRef` of the generated `ProductType`.
    pub fn add_table_for_tests(&mut self, schema: RawTableDefV8) -> (r: AlgebraicTypeRef)
        requires
            old(self)@.module.types.len() <= u32::MAX,
        ensures
            r == old(self)@.next_ref(),
            final(self)@ == (BuilderModel {
                module: old(self)@.module.with_generated_table(schema@),
                ..old(self)@
            }),
    {
        broadcast use crate::types::group_elements_view;

        let ghost before = self@;
        let mut elements: Vec<ProductTypeElement> = Vec::new();
        let mut i: usize = 0;
        while i < schema.columns.len()
            invariant
                i <= schema.columns.len(),
                elements@.len() == i,
                forall|j: int|
                    0 <= j < i ==> (#[trigger] elements@[j])@ == schema@.columns[j].as_element(),
            decreases schema.columns.len() - i,
        {
            let column = &schema.columns[i];
            elements.push(
                ProductTypeElement {
                    name: Some(column.col_name.clone()),
                    algebraic_type: column.col_type.clone(),
                },
            );
            i += 1;
        }
        assert(elements_view(elements@) =~= Seq::new(
            schema@.columns.len(),
            |i: int| schema@.columns[i].as_element(),
        ));
        let data = self.module.typespace.add(AlgebraicType::Product(ProductType { elements }));
        assert(self@.module =~= before.module.with_type(schema@.row_type()));
        self.add_type_alias(TypeAlias { name: schema.table_name.clone(), ty: data });
        self.add_table(TableDesc { schema, data });
        data
    }

    /// Add a reducer that may not correspond to a Rust function.
    pub fn add_reducer_for_tests(&mut self, name: &str, args: ProductType)
        ensures
            final(self)@ == (BuilderModel {
                module: old(self)@.module.with_reducer(
                    ReducerModel { name: name@, args: elements_view(args.elements@) },
                ),
                ..old(self)@
            }),
    {
        self.add_reducer(ReducerDef { name: name.to_owned(), args: args.elements });
    }

    pub fn add_table(&mut self, table: TableDesc)
        ensures
            final(self)@ == (BuilderModel {
                module: old(self)@.module.with_table(table@),
                ..old(self)@
            }),
    {
        let ghost before = self@;
        self.module.tables.push(table);
        assert(self@.module =~= before.module.with_table(table@));
    }

    pub fn add_reducer(&mut self, reducer: ReducerDef)
        ensures
            final(self)@ == (BuilderModel {
                module: old(self)@.module.with_reducer(reducer@),
                ..old(self)@
            }),
    {
        let ghost before = self@;
        self.module.reducers.push(reducer);
        assert(self@.module =~= before.module.with_reducer(reducer@));
    }

    pub fn add_misc_export(&mut self, misc_export: MiscModuleExport)
        ensures
            final(self)@ == (BuilderModel {
                module: old(self)@.module.with_export(misc_export@),
                ..old(self)@
            }),
    {
        let ghost before = self@;
        self.module.misc_exports.push(misc_export);
        assert(self@.module =~= before.module.with_export(misc_export@));
    }

    pub fn add_type_alias(&mut self, type_alias: TypeAlias)
        ensures
            final(self)@ == (BuilderModel {
                module: old(self)@.module.with_export(
                    ExportModel::TypeAlias { name: type_alias.name@, ty: type_alias.ty },
                ),
                ..old(self)@
            }),
    {
        self.add_misc_export(MiscModuleExport::TypeAlias(type_alias))
    }

    pub fn typespace(&self) -> (r: &Typespace)
        ensures
            r@ == self@.module.types,
    {
        &self.module.typespace
    }

    pub fn finish(self) -> (r: RawModuleDefV8)
        ensures
            r@ == self@.module,
    {
        self.module
    }
}

/// A table that was generated together with the type of its rows is taken over as it is, unless
/// that type cannot be resolved; no other fault is possible.
pub proof fn law_generated_table_is_accepted(module: ModuleModel, schema: TableModel)
    requires
        module.types.len() <= u32::MAX,
    ensures
        ({
            let after = module.with_generated_table(schema);
            let def = table_def(after.types, after.tables.last());
            let data = after.tables.last().data;
            &&& after.types[data.0 as int] == schema.row_type()
            &&& def == if resolved(
                after.types,
                TypeModel::Ref(data.0),
                all_refs(after.types.len()),
            ) is Some {
                Ok::<TableModel, TableDefError>(schema)
            } else {
                Err(TableDefError::RecursiveTypes)
            }
        }),
{
    let after = module.with_generated_table(schema);
    let data = after.tables.last().data;
    let allowed = all_refs(after.types.len());
    vstd::set_lib::lemma_int_range(0, after.types.len() as int);
    assert(allowed.contains(data.0 as int));
    let columns = schema.row_type()->Product_0;
    let rest = allowed.remove(data.0 as int);
    crate::typespace::law_resolution_keeps_names(after.types, columns, rest);
    assert(resolved(after.types, TypeModel::Ref(data.0), allowed) == resolved(
        after.types,
        schema.row_type(),
        rest,
    ));
    assert(resolved(after.types, schema.row_type(), rest) is Some <==> resolved_elements(
        after.types,
        columns,
        rest,
    ) is Some);
}

/// A table is taken over exactly as it was described, or not at all.
pub proof fn law_table_def_is_the_schema(types: Seq<TypeModel>, table: TableDescModel)
    ensures
        table_def(types, table) matches Ok(def) ==> def == table.schema,
{
}

/// A type that is being added has its place already while it is described, so it can refer to
/// itself; and nothing else has moved.
pub proof fn law_place_is_taken_before_the_type_is_known(
    builder: BuilderModel,
    typeid: u64,
    name: Option<Seq<char>>,
)
    requires
        builder.wf(),
        builder.module.types.len() <= u32::MAX,
        !builder.type_map.contains_key(typeid),
    ensures
        ({
            let begun = builder.begun(typeid, name);
            &&& begun.wf()
            &&& begun.extends(builder)
            &&& begun.type_map.contains_key(typeid)
            &&& begun.type_map[typeid] == builder.next_ref()
            &&& begun.module.types.len() == builder.module.types.len() + 1
            &&& forall|i: int|
                0 <= i < builder.module.types.len() ==> #[trigger] begun.module.types[i]
                    == builder.module.types[i]
        }),
{
}

/// Once a type was added, its place is known and holds what the type was described to be, whatever
/// else was added while it was described; so adding it again gives the same place.
pub proof fn law_added_type_keeps_its_place(
    builder: BuilderModel,
    typeid: u64,
    name: Option<Seq<char>>,
    made: BuilderModel,
    ty: TypeModel,
)
    requires
        builder.wf(),
        builder.module.types.len() <= u32::MAX,
        !builder.type_map.contains_key(typeid),
        made.wf(),
        made.extends(builder.begun(typeid, name)),
    ensures
        ({
            let r = builder.next_ref();
            let after = made.filled(r, ty);
            &&& after.wf()
            &&& after.extends(made)
            &&& after.type_map.contains_key(typeid)
            &&& after.type_map[typeid] == r
            &&& after.module.types[r.0 as int] == ty
        }),
{
    let begun = builder.begun(typeid, name);
    assert(begun.type_map.contains_key(typeid));
}

/// The place that the next type gets is one that no type has yet.
pub proof fn law_new_place_is_free(builder: BuilderModel)
    requires
        builder.wf(),
        builder.module.types.len() <= u32::MAX,
    ensures
        forall|typeid: u64| #[trigger]
            builder.type_map.contains_key(typeid) ==> builder.type_map[typeid]
                != builder.next_ref(),
{
}

/// Adding tables, reducers and exported names moves no type.
pub proof fn law_other_additions_move_no_type(
    builder: BuilderModel,
    table: TableDescModel,
    reducer: ReducerModel,
    export: ExportModel,
)
    requires
        builder.wf(),
    ensures
        builder.module.with_table(table).types == builder.module.types,
        builder.module.with_reducer(reducer).types == builder.module.types,
        builder.module.with_export(export).types == builder.module.types,
        ({
            let after = BuilderModel { module: builder.module.with_table(table), ..builder };
            after.wf() && after.extends(builder)
        }),
        ({
            let after = BuilderModel { module: builder.module.with_reducer(reducer), ..builder };
            after.wf() && after.extends(builder)
        }),
        ({
            let after = BuilderModel { module: builder.module.with_export(export), ..builder };
            after.wf() && after.extends(builder)
        }),
{
}

/// Adding a type moves no other one.
pub proof fn law_adding_a_type_moves_no_other(builder: BuilderModel, ty: TypeModel)
    requires
        builder.wf(),
    ensures
        ({
            let after = BuilderModel { module: builder.module.with_type(ty), ..builder };
            &&& after.wf()
            &&& after.extends(builder)
            &&& forall|i: int|
                0 <= i < builder.module.types.len() ==> #[trigger] after.module.types[i]
                    == builder.module.types[i]
        }),
{
}

/// The type `ty` with all references filled in from the typespace of `module`, so that none is
/// left. The type must not be recursive.
pub fn resolved_type_via_v9(module: &RawModuleDefV9, ty: &AlgebraicType) -> (r: AlgebraicType)
    requires
        module.typespace.resolved(ty@) is Some,
    ensures
        module.typespace.resolved(ty@) == Some(r@),
        ref_free(r@),
{
    proof {
        let types = module.typespace@;
        vstd::set_lib::lemma_int_range(0, types.len() as int);
        law_resolved_is_ref_free(types, ty@, all_refs(types.len()));
    }
    module.typespace.resolve_refs(ty).unwrap()
}

/// A table is taken over exactly when the type of its rows resolves to a product with as many
/// elements as the table has columns. Whatever else it resolves to is told: nothing, another kind
/// of type, or a product with fewer or more elements.
pub proof fn law_table_needs_an_element_for_each_column(
    types: Seq<TypeModel>,
    table: TableDescModel,
)
    ensures
        match resolved(types, TypeModel::Ref(table.data.0), all_refs(types.len())) {
            None => table_def(types, table) == Err::<TableModel, TableDefError>(
                TableDefError::RecursiveTypes,
            ),
            Some(rows) => {
                &&& !(rows is Product) ==> table_def(types, table) == Err::<
                    TableModel,
                    TableDefError,
                >(TableDefError::NotAProduct)
                &&& rows is Product && rows->Product_0.len() != table.schema.columns.len()
                    ==> table_def(types, table) == Err::<TableModel, TableDefError>(
                    TableDefError::MismatchedColumns,
                )
                &&& rows is Product && rows->Product_0.len() == table.schema.columns.len()
                    ==> table_def(types, table) == Ok::<TableModel, TableDefError>(table.schema)
            },
        },
{
}

/// Of the schemas for one type of rows, all with the same number of columns are taken over, or
/// none: if one is, any with another number is refused for its columns.
pub proof fn law_row_type_fixes_the_number_of_columns(
    types: Seq<TypeModel>,
    a: TableDescModel,
    b: TableDescModel,
)
    requires
        a.data == b.data,
        table_def(types, a) is Ok,
    ensures
        a.schema.columns.len() == b.schema.columns.len() ==> table_def(types, b) == Ok::<
            TableModel,
            TableDefError,
        >(b.schema),
        a.schema.columns.len() != b.schema.columns.len() ==> table_def(types, b) == Err::<
            TableModel,
            TableDefError,
        >(TableDefError::MismatchedColumns),
{
}

/// A type of rows without references is held against the columns as it stands in the typespace.
pub proof fn law_rows_are_what_stands_in_the_typespace(
    types: Seq<TypeModel>,
    table: TableDescModel,
)
    requires
        table.data.0 < types.len(),
        ref_free(types[table.data.0 as int]),
    ensures
        table_def(types, table) is Ok <==> match types[table.data.0 as int] {
            TypeModel::Product(elements) => elements.len() == table.schema.columns.len(),
            _ => false,
        },
        table_def(types, table) matches Err(e) ==> (e is NotAProduct <==> !(
        types[table.data.0 as int] is Product)),
{
    vstd::set_lib::lemma_int_range(0, types.len() as int);
    law_reference_resolves_to_its_type(types, table.data.0, all_refs(types.len()));
}

/// A name is exported for the type that it was given with. While a type is being added, the exports
/// are those before, in order, and, if the type has a name, one more: that name, for the reference
/// that the type has from then on. Tables and reducers stay as they were, and so do the places of
/// all other types.
pub proof fn law_name_is_exported_for_its_own_type(
    builder: BuilderModel,
    typeid: u64,
    name: Option<Seq<char>>,
)
    requires
        builder.module.types.len() <= u32::MAX,
    ensures
        ({
            let begun = builder.begun(typeid, name);
            let exports = builder.module.exports;
            &&& begun.type_map.contains_key(typeid)
            &&& begun.type_map[typeid].0 == builder.module.types.len()
            &&& forall|other: u64|
                other != typeid ==> {
                    &&& #[trigger] begun.type_map.contains_key(other)
                        <==> builder.type_map.contains_key(other)
                    &&& begun.type_map[other] == builder.type_map[other]
                }
            &&& match name {
                Some(name) => {
                    &&& begun.module.exports.len() == exports.len() + 1
                    &&& begun.module.exports.last() == (ExportModel::TypeAlias {
                        name,
                        ty: begun.type_map[typeid],
                    })
                },
                None => begun.module.exports.len() == exports.len(),
            }
            &&& forall|i: int|
                0 <= i < exports.len() ==> #[trigger] begun.module.exports[i] == exports[i]
            &&& begun.module.tables == builder.module.tables
            &&& begun.module.reducers == builder.module.reducers
            &&& begun.module.types.len() == builder.module.types.len() + 1
            &&& forall|i: int|
                0 <= i < builder.module.types.len() ==> #[trigger] begun.module.types[i]
                    == builder.module.types[i]
            &&& begun.module.types.last() matches TypeModel::Product(parts) && parts.len() == 0
        }),
{
}

/// Putting a type in its place changes that place only.
pub proof fn law_filling_a_place_changes_nothing_else(
    builder: BuilderModel,
    r: AlgebraicTypeRef,
    ty: TypeModel,
)
    requires
        r.0 < builder.module.types.len(),
    ensures
        ({
            let after = builder.filled(r, ty);
            &&& after.module.types.len() == builder.module.types.len()
            &&& after.module.types[r.0 as int] == ty
            &&& forall|i: int|
                0 <= i < builder.module.types.len() && i != r.0
                    ==> #[trigger] after.module.types[i] == builder.module.types[i]
            &&& after.module.tables == builder.module.tables
            &&& after.module.reducers == builder.module.reducers
            &&& after.module.exports == builder.module.exports
            &&& after.type_map == builder.type_map
        }),
{
}

/// Whatever is added goes to the end of what is there of its kind, and changes nothing else.
pub proof fn law_additions_go_to_the_end(
    module: ModuleModel,
    ty: TypeModel,
    table: TableDescModel,
    reducer: ReducerModel,
    export: ExportModel,
)
    ensures
        ({
            let after = module.with_type(ty);
            &&& after.types == module.types.push(ty)
            &&& after.tables == module.tables
            &&& after.reducers == module.reducers
            &&& after.exports == module.exports
        }),
        ({
            let after = module.with_table(table);
            &&& after.types == module.types
            &&& after.tables == module.tables.push(table)
            &&& after.reducers == module.reducers
            &&& after.exports == module.exports
        }),
        ({
            let after = module.with_reducer(reducer);
            &&& after.types == module.types
            &&& after.tables == module.tables
            &&& after.reducers == module.reducers.push(reducer)
            &&& after.exports == module.exports
        }),
        ({
            let after = module.with_export(export);
            &&& after.types == module.types
            &&& after.tables == module.tables
            &&& after.reducers == module.reducers
            &&& after.exports == module.exports.push(export)
        }),
{
}

/// The rows of a table are a product with an element for each column, in order, with the column's
/// name and type.
pub proof fn law_rows_follow_the_columns(schema: TableModel)
    ensures
        schema.row_type() matches TypeModel::Product(elements) && {
            &&& elements.len() == schema.columns.len()
            &&& forall|i: int|
                0 <= i < schema.columns.len() ==> {
                    &&& (#[trigger] elements[i]).name == Some(schema.columns[i].name)
                    &&& elements[i].ty == schema.columns[i].ty
                }
        },
{
}

/// A generated table brings one type, the rows of the table, at the end of the typespace; one
/// export, of that type under the table's name; and one table, with its schema and that type. The
/// rest stays as it was.
pub proof fn law_generated_table_brings_its_rows_and_its_name(
    module: ModuleModel,
    schema: TableModel,
)
    requires
        module.types.len() <= u32::MAX,
    ensures
        ({
            let after = module.with_generated_table(schema);
            let data = AlgebraicTypeRef(module.types.len() as u32);
            &&& after.types == module.types.push(schema.row_type())
            &&& after.tables == module.tables.push(TableDescModel { schema, data })
            &&& after.exports == module.exports.push(
                ExportModel::TypeAlias { name: schema.name, ty: data },
            )
            &&& after.reducers == module.reducers
            &&& after.types[after.tables.last().data.0 as int] == schema.row_type()
        }),
{
}

/// The next type gets the place behind the last one; a new builder holds nothing at all.
pub proof fn law_places_are_counted(builder: BuilderModel)
    requires
        builder.module.types.len() <= u32::MAX,
    ensures
        builder.next_ref().0 == builder.module.types.len(),
        BuilderModel::empty().next_ref().0 == 0,
        BuilderModel::empty().module.types.len() == 0,
        BuilderModel::empty().module.tables.len() == 0,
        BuilderModel::empty().module.reducers.len() == 0,
        BuilderModel::empty().module.exports.len() == 0,
        forall|typeid: u64| !#[trigger] BuilderModel::empty().type_map.contains_key(typeid),
{
}

/// A module definition shows what it holds: its types, tables, reducers and exports, one by one,
/// each with all that belongs to it.
pub proof fn law_module_shows_what_it_holds(module: RawModuleDefV8)
    ensures
        module@.types == module.typespace@,
        module@.tables.len() == module.tables@.len(),
        module@.reducers.len() == module.reducers@.len(),
        module@.exports.len() == module.misc_exports@.len(),
        forall|i: int|
            0 <= i < module.tables@.len() ==> {
                &&& module@.tables[i].data == (#[trigger] module.tables@[i]).data
                &&& module@.tables[i].schema.name == module.tables@[i].schema.table_name@
                &&& module@.tables[i].schema.columns.len()
                    == module.tables@[i].schema.columns@.len()
            },
        forall|i: int, j: int|
            0 <= i < module.tables@.len() && 0 <= j < module.tables@[i].schema.columns@.len() ==> {
                let column = #[trigger] module.tables@[i].schema.columns@[j];
                &&& module@.tables[i].schema.columns[j].name == column.col_name@
                &&& module@.tables[i].schema.columns[j].ty == column.col_type@
            },
        forall|i: int|
            0 <= i < module.reducers@.len() ==> {
                &&& module@.reducers[i].name == (#[trigger] module.reducers@[i]).name@
                &&& module@.reducers[i].args == elements_view(module.reducers@[i].args@)
            },
        forall|i: int|
            0 <= i < module.misc_exports@.len() ==> match #[trigger] module.misc_exports@[i] {
                MiscModuleExport::TypeAlias(alias) => module@.exports[i] == (
                ExportModel::TypeAlias { name: alias.name@, ty: alias.ty }),
            },
{
}

/// In a well-formed builder every type that has a place stands in the typespace, and two types have
/// two places; and what extends a builder keeps each of these places.
pub proof fn law_types_have_places_of_their_own(
    builder: BuilderModel,
    later: BuilderModel,
    a: u64,
    b: u64,
)
    requires
        builder.wf(),
        later.extends(builder),
        builder.type_map.contains_key(a),
        builder.type_map.contains_key(b),
    ensures
        builder.type_map[a].0 < builder.module.types.len(),
        a != b ==> builder.type_map[a] != builder.type_map[b],
        later.type_map.contains_key(a),
        later.type_map[a] == builder.type_map[a],
        later.module.types.len() >= builder.module.types.len(),
{
}

} // verus!
