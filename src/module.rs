//! A model of a WebAssembly module, section by section, as the binary
//! format lays it out.
use vstd::prelude::*;

verus! {

/// A value type of the Wasm stack.
#[derive(Clone, Copy, PartialEq, Eq, Structural, Debug, Hash)]
pub enum ValType {
    I32,
    I64,
    F32,
    F64,
}

impl ValType {
    /// The byte that stands for this type in the binary format.
    pub open spec fn spec_value(self) -> u8 {
        match self {
            ValType::I32 => 0x7F,
            ValType::I64 => 0x7E,
            ValType::F32 => 0x7D,
            ValType::F64 => 0x7C,
        }
    }

    pub fn value(&self) -> (r: u8)
        ensures
            r == self.spec_value(),
    {
        match self {
            ValType::I32 => 0x7F,
            ValType::I64 => 0x7E,
            ValType::F32 => 0x7D,
            ValType::F64 => 0x7C,
        }
    }
}

/// Index of a function type in the Type section.
#[derive(Clone, Copy, PartialEq, Eq, Structural, Debug, Hash)]
pub struct TypeIdx {
    pub idx: u32,
}

/// Index of a function: imported functions first, then local ones.
#[derive(Clone, Copy, PartialEq, Eq, Structural, Debug, Hash)]
pub struct FuncIdx {
    pub idx: u32,
}

/// Index of a table.
#[derive(Clone, Copy, PartialEq, Eq, Structural, Debug, Hash)]
pub struct TableIdx {
    pub idx: u32,
}

/// Index of a linear memory.
#[derive(Clone, Copy, PartialEq, Eq, Structural, Debug, Hash)]
pub struct MemIdx {
    pub idx: u32,
}

/// Index of a global.
#[derive(Clone, Copy, PartialEq, Eq, Structural, Debug, Hash)]
pub struct GlobalIdx {
    pub idx: u32,
}

/// Index of a local of a function: parameters first, then declared locals.
#[derive(Clone, Copy, PartialEq, Eq, Structural, Debug, Hash)]
pub struct LocalIdx {
    pub idx: u32,
}

/// A value whose view can be compared at run time.
pub trait SameView: View + Sized {
    fn same_view(&self, other: &Self) -> (r: bool)
        ensures
            r == (self@ == other@),
    ;
}

fn same_valtypes(a: &Vec<ValType>, b: &Vec<ValType>) -> (r: bool)
    ensures
        r == (a@ == b@),
{
    if a.len() != b.len() {
        return false;
    }
    let mut i: usize = 0;
    while i < a.len()
        invariant
            a@.len() == b@.len(),
            i <= a@.len(),
            forall|j: int| 0 <= j < i ==> a@[j] == b@[j],
        decreases a@.len() - i,
    {
        if a[i] != b[i] {
            return false;
        }
        i += 1;
    }
    assert(a@ =~= b@);
    true
}

/// The signature of a function: parameter types and result types.
#[derive(Clone, Debug)]
pub struct FuncType {
    pub param_types: Vec<ValType>,
    pub result_types: Vec<ValType>,
}

impl View for FuncType {
    type V = (Seq<ValType>, Seq<ValType>);

    open spec fn view(&self) -> (Seq<ValType>, Seq<ValType>) {
        (self.param_types@, self.result_types@)
    }
}

impl FuncType {
    pub fn new(param_types: Vec<ValType>, result_types: Vec<ValType>) -> (r: FuncType)
        ensures
            r@ == (param_types@, result_types@),
    {
        FuncType { param_types, result_types }
    }
}

impl SameView for FuncType {
    fn same_view(&self, other: &FuncType) -> (r: bool) {
        same_valtypes(&self.param_types, &other.param_types) && same_valtypes(
            &self.result_types,
            &other.result_types,
        )
    }
}

/// Insertion into a list that keeps each value once.
pub trait Insert<T: View> {
    /// The views of the values held, in order of insertion.
    spec fn items(&self) -> Seq<T::V>;

    /// Holds when no view occurs twice.
    spec fn wf(&self) -> bool;

    /// Inserts `value` unless an equal value is already held; returns its
    /// position and whether it was inserted.
    fn insert(&mut self, value: T) -> (r: (usize, bool))
        requires
            old(self).wf(),
        ensures
            final(self).wf(),
            r.1 == !old(self).items().contains(value@),
            r.1 ==> final(self).items() == old(self).items().push(value@),
            !r.1 ==> final(self).items() == old(self).items(),
            r.0 < final(self).items().len(),
            final(self).items()[r.0 as int] == value@,
    ;
}

/// An append-only vector that holds each value once: inserting a value
/// equal to one already held returns the existing position. Lookup is a
/// linear scan over the views: an ordered map keyed by `FuncType` or
/// `Import` would order them through a derived `Ord` that Verus does not
/// read, so nothing about its lookups could be proved.
pub struct SearchableVec<T> {
    pub vec: Vec<T>,
}

impl<T: View> SearchableVec<T> {
    pub open spec fn spec_items(&self) -> Seq<T::V> {
        self.vec@.map_values(|t: T| t@)
    }

    pub open spec fn spec_wf(&self) -> bool {
        forall|i: int, j: int|
            0 <= i < j < self.vec@.len() ==> #[trigger] self.vec@[i]@ != #[trigger] self.vec@[j]@
    }

    pub fn new() -> (r: SearchableVec<T>)
        ensures
            r.spec_wf(),
            r.vec@.len() == 0,
    {
        SearchableVec { vec: Vec::new() }
    }

    pub fn vec(&self) -> (r: &Vec<T>)
        ensures
            r == &self.vec,
    {
        &self.vec
    }

    pub fn len(&self) -> (r: usize)
        ensures
            r == self.vec@.len(),
    {
        self.vec.len()
    }
}

impl<T: SameView> Insert<T> for SearchableVec<T> {
    open spec fn items(&self) -> Seq<T::V> {
        self.spec_items()
    }

    open spec fn wf(&self) -> bool {
        self.spec_wf()
    }

    fn insert(&mut self, value: T) -> (r: (usize, bool)) {
        let mut i: usize = 0;
        while i < self.vec.len()
            invariant
                i <= self.vec@.len(),
                self.vec@ == old(self).vec@,
                self.spec_wf(),
                forall|j: int| 0 <= j < i ==> self.vec@[j]@ != value@,
            decreases self.vec@.len() - i,
        {
            if self.vec[i].same_view(&value) {
                assert(self.spec_items()[i as int] == value@);
                return (i, false);
            }
            i += 1;
        }
        proof {
            if self.spec_items().contains(value@) {
                let k = choose|k: int| 0 <= k < self.spec_items().len() && self.spec_items()[k] == value@;
                assert(self.vec@[k]@ == value@);
            }
        }
        let ghost before = self.vec@;
        self.vec.push(value);
        assert(self.spec_items() =~= before.map_values(|t: T| t@).push(value@));
        (i, true)
    }
}

fn copy_valtypes(a: &Vec<ValType>) -> (r: Vec<ValType>)
    ensures
        r@ == a@,
{
    let mut r: Vec<ValType> = Vec::new();
    let mut i: usize = 0;
    while i < a.len()
        invariant
            i <= a@.len(),
            r@ == a@.subrange(0, i as int),
        decreases a@.len() - i,
    {
        r.push(a[i]);
        i += 1;
        assert(r@ =~= a@.subrange(0, i as int));
    }
    assert(a@.subrange(0, a@.len() as int) =~= a@);
    r
}

impl FuncType {
    /// A copy with the same parameter and result types.
    pub fn duplicate(&self) -> (r: FuncType)
        ensures
            r@ == self@,
    {
        FuncType { param_types: copy_valtypes(&self.param_types), result_types: copy_valtypes(&self.result_types) }
    }
}

/// The kind of element a table holds.
#[derive(Clone, Copy, PartialEq, Eq, Structural, Debug, Hash)]
pub enum ElemType {
    FuncRef,
}

/// Size limits of a table or memory.
#[derive(Clone, Copy, PartialEq, Eq, Structural, Debug, Hash)]
pub enum Limits {
    Unbounded { min: u32 },
    Bounded { min: u32, max: u32 },
}

#[derive(Clone, Copy, PartialEq, Eq, Structural, Debug, Hash)]
pub struct TableType {
    pub elem_type: ElemType,
    pub limits: Limits,
}

#[derive(Clone, Copy, PartialEq, Eq, Structural, Debug, Hash)]
pub struct MemType {
    pub limits: Limits,
}

/// Mutability of a global.
#[derive(Clone, Copy, PartialEq, Eq, Structural, Debug, Hash)]
pub enum Mut {
    Const,
    Var,
}

#[derive(Clone, Copy, PartialEq, Eq, Structural, Debug, Hash)]
pub struct GlobalType {
    pub val_type: ValType,
    pub mutability: Mut,
}

/// What an import brings in.
#[derive(Clone, Copy, PartialEq, Eq, Structural, Debug, Hash)]
pub enum ImportDesc {
    Func(TypeIdx),
    Table(TableType),
    Mem(MemType),
    Global(GlobalType),
}

/// An entity imported from the host, by module name and entity name.
#[derive(Clone, Debug)]
pub struct Import {
    pub module_name: String,
    pub entity_name: String,
    pub desc: ImportDesc,
}

impl View for Import {
    type V = (Seq<char>, Seq<char>, ImportDesc);

    open spec fn view(&self) -> (Seq<char>, Seq<char>, ImportDesc) {
        (self.module_name@, self.entity_name@, self.desc)
    }
}

impl SameView for Import {
    fn same_view(&self, other: &Import) -> (r: bool) {
        self.module_name == other.module_name && self.entity_name == other.entity_name && self.desc
            == other.desc
    }
}

/// A constant expression as raw bytecode, ending with `end`.
#[derive(Clone, Debug)]
pub struct Expr {
    pub bytecode: Vec<u8>,
}

pub struct TypeSection {
    pub content: SearchableVec<FuncType>,
}

pub struct ImportSection {
    pub content: SearchableVec<Import>,
}

/// The type of each locally defined function, in index order.
pub struct FuncSection {
    pub content: Vec<TypeIdx>,
}

pub struct Table {
    pub table_type: TableType,
}

pub struct TableSection {
    pub content: Vec<Table>,
}

pub struct Mem {
    pub mem_type: MemType,
}

pub struct MemSection {
    pub content: Vec<Mem>,
}

pub struct Global {
    pub global_type: GlobalType,
    pub init_expr: Expr,
}

pub struct GlobalSection {
    pub content: Vec<Global>,
}

/// What an export refers to.
#[derive(Clone, Copy, PartialEq, Eq, Structural, Debug, Hash)]
pub enum ExportDesc {
    Func(FuncIdx),
    Table(TableIdx),
    Mem(MemIdx),
    Global(GlobalIdx),
}

pub struct Export {
    pub entity_name: String,
    pub desc: ExportDesc,
}

pub struct ExportSection {
    pub content: Vec<Export>,
}

pub struct StartSection {
    pub start: Option<FuncIdx>,
}

/// A segment of function indices copied into a table at an offset.
pub struct Elem {
    pub table_idx: TableIdx,
    pub offset: Expr,
    pub content: Vec<FuncIdx>,
}

pub struct ElemSection {
    pub content: Vec<Elem>,
}

/// The body of a locally defined function: `None` until it is committed.
pub struct Code {
    pub func: Option<Vec<u8>>,
}

pub struct CodeSection {
    pub content: Vec<Code>,
}

/// A segment of bytes copied into a memory at an offset.
pub struct Data {
    pub mem_idx: MemIdx,
    pub offset: Expr,
    pub content: Vec<u8>,
}

pub struct DataSection {
    pub content: Vec<Data>,
}

/// A WebAssembly module under construction.
pub struct WasmModule {
    pub type_section: TypeSection,
    pub import_section: ImportSection,
    pub func_section: FuncSection,
    pub table_section: TableSection,
    pub mem_section: MemSection,
    pub global_section: GlobalSection,
    pub export_section: ExportSection,
    pub start_section: StartSection,
    pub elem_section: ElemSection,
    pub code_section: CodeSection,
    pub data_section: DataSection,
}

/// The largest number of entries that one index space may hold here.
pub const MAX_ENTRIES: usize = 0xFFFF_FFFF;

impl WasmModule {
    /// The function types registered so far.
    pub open spec fn types(&self) -> Seq<(Seq<ValType>, Seq<ValType>)> {
        self.type_section.content.spec_items()
    }

    /// Number of imported functions, which come first in the function index space.
    pub open spec fn num_imports(&self) -> nat {
        self.import_section.content.vec@.len()
    }

    /// Number of locally defined functions.
    pub open spec fn num_funcs(&self) -> nat {
        self.code_section.content@.len()
    }

    /// Whether the body of the local function at `i` has been committed.
    pub open spec fn committed(&self, i: int) -> bool {
        self.code_section.content@[i].func is Some
    }

    /// Holds when the function index `f` names a locally defined function.
    pub open spec fn is_local_func(&self, f: FuncIdx) -> bool {
        self.num_imports() <= f.idx < self.num_imports() + self.num_funcs()
    }

    /// The module's own invariant: types and imports are held once each,
    /// every import is a function import, each local function has a type
    /// and a code slot, and each index space fits in 32 bits.
    pub open spec fn wf(&self) -> bool {
        &&& self.type_section.content.spec_wf()
        &&& self.import_section.content.spec_wf()
        &&& forall|i: int|
            0 <= i < self.num_imports() ==> #[trigger] self.import_section.content.vec@[i].desc is Func
        &&& self.func_section.content@.len() == self.num_funcs()
        &&& forall|i: int|
            0 <= i < self.num_funcs() ==> (#[trigger] self.func_section.content@[i]).idx
                < self.types().len()
        &&& self.types().len() <= MAX_ENTRIES
        &&& self.num_imports() + self.num_funcs() <= MAX_ENTRIES
        &&& self.table_section.content@.len() <= MAX_ENTRIES
        &&& self.mem_section.content@.len() <= MAX_ENTRIES
        &&& self.global_section.content@.len() <= MAX_ENTRIES
    }

    /// A module with every section empty and no start function.
    pub fn new() -> (r: WasmModule)
        ensures
            r.wf(),
            r.types().len() == 0,
            r.num_imports() == 0,
            r.num_funcs() == 0,
            r.table_section.content@.len() == 0,
            r.mem_section.content@.len() == 0,
            r.global_section.content@.len() == 0,
            r.export_section.content@.len() == 0,
            r.start_section.start is None,
            r.elem_section.content@.len() == 0,
            r.data_section.content@.len() == 0,
    {
        WasmModule {
            type_section: TypeSection { content: SearchableVec::new() },
            import_section: ImportSection { content: SearchableVec::new() },
            func_section: FuncSection { content: Vec::new() },
            table_section: TableSection { content: Vec::new() },
            mem_section: MemSection { content: Vec::new() },
            global_section: GlobalSection { content: Vec::new() },
            export_section: ExportSection { content: Vec::new() },
            start_section: StartSection { start: None },
            elem_section: ElemSection { content: Vec::new() },
            code_section: CodeSection { content: Vec::new() },
            data_section: DataSection { content: Vec::new() },
        }
    }

    /// Registers a function type, returning the index of the equal type
    /// already held if there is one.
    pub fn register_type(&mut self, functype: FuncType) -> (r: TypeIdx)
        requires
            old(self).wf(),
            old(self).types().len() < MAX_ENTRIES,
        ensures
            final(self).wf(),
            old(self).types().contains(functype@) ==> final(self).types() == old(self).types(),
            !old(self).types().contains(functype@) ==> final(self).types() == old(self).types().push(
                functype@,
            ),
            r.idx < final(self).types().len(),
            final(self).types()[r.idx as int] == functype@,
            final(self).import_section == old(self).import_section,
            final(self).func_section == old(self).func_section,
            final(self).table_section == old(self).table_section,
            final(self).mem_section == old(self).mem_section,
            final(self).global_section == old(self).global_section,
            final(self).export_section == old(self).export_section,
            final(self).start_section == old(self).start_section,
            final(self).elem_section == old(self).elem_section,
            final(self).code_section == old(self).code_section,
            final(self).data_section == old(self).data_section,
    {
        let (pos, _) = self.type_section.content.insert(functype);
        TypeIdx { idx: pos as u32 }
    }

    /// Registers a locally defined function of the given type; its body is
    /// left uncommitted. Local functions are numbered after the imports.
    pub fn register_func(&mut self, functype: &FuncType) -> (r: (TypeIdx, FuncIdx))
        requires
            old(self).wf(),
            old(self).types().len() < MAX_ENTRIES,
            old(self).num_imports() + old(self).num_funcs() < MAX_ENTRIES,
        ensures
            final(self).wf(),
            old(self).types().contains(functype@) ==> final(self).types() == old(self).types(),
            !old(self).types().contains(functype@) ==> final(self).types() == old(self).types().push(
                functype@,
            ),
            r.0.idx < final(self).types().len(),
            final(self).types()[r.0.idx as int] == functype@,
            r.1.idx == old(self).num_imports() + old(self).num_funcs(),
            final(self).func_section.content@ == old(self).func_section.content@.push(r.0),
            final(self).code_section.content@ == old(self).code_section.content@.push(
                Code { func: None },
            ),
            final(self).import_section == old(self).import_section,
            final(self).table_section == old(self).table_section,
            final(self).mem_section == old(self).mem_section,
            final(self).global_section == old(self).global_section,
            final(self).export_section == old(self).export_section,
            final(self).start_section == old(self).start_section,
            final(self).elem_section == old(self).elem_section,
            final(self).data_section == old(self).data_section,
    {
        let type_idx = self.register_type(functype.duplicate());
        let func_idx = FuncIdx {
            idx: (self.import_section.content.len() + self.code_section.content.len()) as u32,
        };
        self.func_section.content.push(type_idx);
        self.code_section.content.push(Code { func: None });
        (type_idx, func_idx)
    }

    /// Imports a function of the given type from the host. Importing the
    /// same entity with the same type again returns the index it already has.
    /// Imports come first in the function index space, so they are added
    /// before any local function is registered.
    pub fn import_func(&mut self, module_name: String, entity_name: String, functype: &FuncType) -> (r: FuncIdx)
        requires
            old(self).wf(),
            old(self).num_funcs() == 0,
            old(self).types().len() < MAX_ENTRIES,
            old(self).num_imports() < MAX_ENTRIES,
        ensures
            final(self).wf(),
            old(self).types().contains(functype@) ==> final(self).types() == old(self).types(),
            !old(self).types().contains(functype@) ==> final(self).types() == old(self).types().push(
                functype@,
            ),
            r.idx < final(self).num_imports(),
            final(self).import_section.content.spec_items()[r.idx as int].0 == module_name@,
            final(self).import_section.content.spec_items()[r.idx as int].1 == entity_name@,
            final(self).import_section.content.spec_items()[r.idx as int].2 matches ImportDesc::Func(t)
                && final(self).types()[t.idx as int] == functype@,
            final(self).import_section.content.spec_items().len() <= old(self).import_section.content.spec_items().len() + 1,
            forall|i: int| 0 <= i < old(self).num_imports() ==>
                #[trigger] final(self).import_section.content.spec_items()[i] == old(self).import_section.content.spec_items()[i],
            final(self).num_funcs() == 0,
            final(self).func_section == old(self).func_section,
            final(self).table_section == old(self).table_section,
            final(self).mem_section == old(self).mem_section,
            final(self).global_section == old(self).global_section,
            final(self).export_section == old(self).export_section,
            final(self).start_section == old(self).start_section,
            final(self).elem_section == old(self).elem_section,
            final(self).data_section == old(self).data_section,
    {
        let type_idx = self.register_type(functype.duplicate());
        let import = Import { module_name, entity_name, desc: ImportDesc::Func(type_idx) };
        let ghost before = self.import_section.content.spec_items();
        let (pos, _) = self.import_section.content.insert(import);
        proof {
            let after = self.import_section.content.spec_items();
            assert forall|i: int| 0 <= i < self.num_imports() implies #[trigger] self.import_section.content.vec@[i].desc is Func by {
                if i >= before.len() {
                    assert(after[i].2 == ImportDesc::Func(type_idx));
                } else {
                    assert(after[i] == before[i]);
                }
            }
        }
        FuncIdx { idx: pos as u32 }
    }

    /// Exports a function under the given name.
    pub fn export_func(&mut self, func_idx: FuncIdx, name: String)
        requires
            old(self).wf(),
        ensures
            final(self).wf(),
            final(self).export_section.content@.len() == old(self).export_section.content@.len() + 1,
            final(self).export_section.content@.last().entity_name@ == name@,
            final(self).export_section.content@.last().desc == ExportDesc::Func(func_idx),
            final(self).export_section.content@.drop_last() == old(self).export_section.content@,
            final(self).type_section == old(self).type_section,
            final(self).import_section == old(self).import_section,
            final(self).func_section == old(self).func_section,
            final(self).table_section == old(self).table_section,
            final(self).mem_section == old(self).mem_section,
            final(self).global_section == old(self).global_section,
            final(self).start_section == old(self).start_section,
            final(self).elem_section == old(self).elem_section,
            final(self).code_section == old(self).code_section,
            final(self).data_section == old(self).data_section,
    {
        self.export_section.content.push(Export { entity_name: name, desc: ExportDesc::Func(func_idx) });
        assert(self.export_section.content@.drop_last() =~= old(self).export_section.content@);
    }

    /// Adds a table, returning its index.
    pub fn add_table(&mut self, table_type: TableType) -> (r: TableIdx)
        requires
            old(self).wf(),
            old(self).table_section.content@.len() < MAX_ENTRIES,
        ensures
            final(self).wf(),
            r.idx == old(self).table_section.content@.len(),
            final(self).table_section.content@ == old(self).table_section.content@.push(
                Table { table_type },
            ),
            final(self).type_section == old(self).type_section,
            final(self).import_section == old(self).import_section,
            final(self).func_section == old(self).func_section,
            final(self).mem_section == old(self).mem_section,
            final(self).global_section == old(self).global_section,
            final(self).export_section == old(self).export_section,
            final(self).start_section == old(self).start_section,
            final(self).elem_section == old(self).elem_section,
            final(self).code_section == old(self).code_section,
            final(self).data_section == old(self).data_section,
    {
        let r = TableIdx { idx: self.table_section.content.len() as u32 };
        self.table_section.content.push(Table { table_type });
        r
    }

    /// Adds a linear memory, returning its index.
    pub fn add_mem(&mut self, mem_type: MemType) -> (r: MemIdx)
        requires
            old(self).wf(),
            old(self).mem_section.content@.len() < MAX_ENTRIES,
        ensures
            final(self).wf(),
            r.idx == old(self).mem_section.content@.len(),
            final(self).mem_section.content@ == old(self).mem_section.content@.push(Mem { mem_type }),
            final(self).type_section == old(self).type_section,
            final(self).import_section == old(self).import_section,
            final(self).func_section == old(self).func_section,
            final(self).table_section == old(self).table_section,
            final(self).global_section == old(self).global_section,
            final(self).export_section == old(self).export_section,
            final(self).start_section == old(self).start_section,
            final(self).elem_section == old(self).elem_section,
            final(self).code_section == old(self).code_section,
            final(self).data_section == old(self).data_section,
    {
        let r = MemIdx { idx: self.mem_section.content.len() as u32 };
        self.mem_section.content.push(Mem { mem_type });
        r
    }

    /// Adds a global with its initializer, returning its index.
    pub fn add_global(&mut self, global_type: GlobalType, init_expr: Expr) -> (r: GlobalIdx)
        requires
            old(self).wf(),
            old(self).global_section.content@.len() < MAX_ENTRIES,
        ensures
            final(self).wf(),
            r.idx == old(self).global_section.content@.len(),
            final(self).global_section.content@ == old(self).global_section.content@.push(
                Global { global_type, init_expr },
            ),
            final(self).type_section == old(self).type_section,
            final(self).import_section == old(self).import_section,
            final(self).func_section == old(self).func_section,
            final(self).table_section == old(self).table_section,
            final(self).mem_section == old(self).mem_section,
            final(self).export_section == old(self).export_section,
            final(self).start_section == old(self).start_section,
            final(self).elem_section == old(self).elem_section,
            final(self).code_section == old(self).code_section,
            final(self).data_section == old(self).data_section,
    {
        let r = GlobalIdx { idx: self.global_section.content.len() as u32 };
        self.global_section.content.push(Global { global_type, init_expr });
        r
    }

    /// Makes `func_idx` the start function.
    pub fn set_start(&mut self, func_idx: FuncIdx)
        requires
            old(self).wf(),
        ensures
            final(self).wf(),
            final(self).start_section.start == Some(func_idx),
            final(self).type_section == old(self).type_section,
            final(self).import_section == old(self).import_section,
            final(self).func_section == old(self).func_section,
            final(self).table_section == old(self).table_section,
            final(self).mem_section == old(self).mem_section,
            final(self).global_section == old(self).global_section,
            final(self).export_section == old(self).export_section,
            final(self).elem_section == old(self).elem_section,
            final(self).code_section == old(self).code_section,
            final(self).data_section == old(self).data_section,
    {
        self.start_section.start = Some(func_idx);
    }

    /// Adds an element segment that fills `table_idx` from `offset` with
    /// the given functions.
    pub fn add_elem(&mut self, table_idx: TableIdx, offset: Expr, content: Vec<FuncIdx>)
        requires
            old(self).wf(),
        ensures
            final(self).wf(),
            final(self).elem_section.content@ == old(self).elem_section.content@.push(
                Elem { table_idx, offset, content },
            ),
            final(self).type_section == old(self).type_section,
            final(self).import_section == old(self).import_section,
            final(self).func_section == old(self).func_section,
            final(self).table_section == old(self).table_section,
            final(self).mem_section == old(self).mem_section,
            final(self).global_section == old(self).global_section,
            final(self).export_section == old(self).export_section,
            final(self).start_section == old(self).start_section,
            final(self).code_section == old(self).code_section,
            final(self).data_section == old(self).data_section,
    {
        self.elem_section.content.push(Elem { table_idx, offset, content });
    }

    /// Adds a data segment that fills `mem_idx` from `offset` with bytes.
    pub fn add_data(&mut self, mem_idx: MemIdx, offset: Expr, content: Vec<u8>)
        requires
            old(self).wf(),
        ensures
            final(self).wf(),
            final(self).data_section.content@ == old(self).data_section.content@.push(
                Data { mem_idx, offset, content },
            ),
            final(self).type_section == old(self).type_section,
            final(self).import_section == old(self).import_section,
            final(self).func_section == old(self).func_section,
            final(self).table_section == old(self).table_section,
            final(self).mem_section == old(self).mem_section,
            final(self).global_section == old(self).global_section,
            final(self).export_section == old(self).export_section,
            final(self).start_section == old(self).start_section,
            final(self).elem_section == old(self).elem_section,
            final(self).code_section == old(self).code_section,
    {
        self.data_section.content.push(Data { mem_idx, offset, content });
    }
}

/// Registration deduplicates types: two type indices of a well-formed
/// module that name equal function types are the same index. So
/// registering a type that is already held returns the index it has.
pub proof fn lemma_type_dedup(m: WasmModule, a: TypeIdx, b: TypeIdx)
    requires
        m.wf(),
        a.idx < m.types().len(),
        b.idx < m.types().len(),
        m.types()[a.idx as int] == m.types()[b.idx as int],
    ensures
        a == b,
{
    let v = m.type_section.content.vec@;
    assert(m.types()[a.idx as int] == v[a.idx as int]@);
    assert(m.types()[b.idx as int] == v[b.idx as int]@);
    if a.idx < b.idx {
        assert(v[a.idx as int]@ != v[b.idx as int]@);
    } else if b.idx < a.idx {
        assert(v[b.idx as int]@ != v[a.idx as int]@);
    }
}

} // verus!
