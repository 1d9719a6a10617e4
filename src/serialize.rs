//! Serialization of the module model into the WebAssembly binary format.
use vstd::prelude::*;
use vstd::utf8::encode_utf8;
use crate::leb::{uleb, LebSerialize};
use crate::module::{
    Code, CodeSection, Data, DataSection, Elem, ElemSection, ElemType, Export, ExportDesc,
    ExportSection, Expr, FuncIdx, FuncSection, FuncType, Global, GlobalIdx, GlobalSection,
    GlobalType, Import, ImportDesc, ImportSection, Limits, LocalIdx, Mem, MemIdx, MemSection,
    MemType, Mut, StartSection, Table, TableIdx, TableSection, TableType, TypeIdx, TypeSection,
    ValType, WasmModule,
};

verus! {

/// Serialization of a part of a module into bytes.
pub trait WasmSerialize {
    /// Whether the value can be serialized (every function body committed).
    spec fn spec_ready(&self) -> bool;

    /// The bytes that stand for the value.
    spec fn spec_wasm(&self) -> Seq<u8>;

    fn wasm_serialize(&self, receiver: &mut Vec<u8>)
        requires
            self.spec_ready(),
        ensures
            final(receiver)@ == old(receiver)@ + self.spec_wasm(),
    ;
}

/// The bytes of each element of `s`, one after another.
pub open spec fn concat_wasm<T: WasmSerialize>(s: Seq<T>) -> Seq<u8>
    decreases s.len(),
{
    if s.len() == 0 {
        Seq::empty()
    } else {
        concat_wasm(s.drop_last()) + s.last().spec_wasm()
    }
}

/// A vector: its length, then its elements.
pub open spec fn vec_wasm<T: WasmSerialize>(s: Seq<T>) -> Seq<u8> {
    uleb((s.len() as u32) as nat) + concat_wasm(s)
}

/// A byte vector: its length, then the bytes.
pub open spec fn bytes_wasm(b: Seq<u8>) -> Seq<u8> {
    uleb((b.len() as u32) as nat) + b
}

/// A section: its id, the length of its content, then the content.
pub open spec fn section_wasm(id: u8, content: Seq<u8>) -> Seq<u8> {
    seq![id] + bytes_wasm(content)
}

/// A section that holds a vector, left out when the vector is empty.
pub open spec fn vec_section_wasm<T: WasmSerialize>(id: u8, s: Seq<T>) -> Seq<u8> {
    if s.len() == 0 {
        Seq::empty()
    } else {
        section_wasm(id, vec_wasm(s))
    }
}

pub open spec fn all_ready<T: WasmSerialize>(s: Seq<T>) -> bool {
    forall|i: int| 0 <= i < s.len() ==> (#[trigger] s[i]).spec_ready()
}

proof fn lemma_not_all_ready<T: WasmSerialize>(s: Seq<T>, i: int)
    requires
        0 <= i < s.len(),
        !s[i].spec_ready(),
    ensures
        !all_ready(s),
{
}

fn push_bytes(receiver: &mut Vec<u8>, bytes: &[u8])
    ensures
        final(receiver)@ == old(receiver)@ + bytes@,
{
    let mut i: usize = 0;
    while i < bytes.len()
        invariant
            i <= bytes@.len(),
            receiver@ == old(receiver)@ + bytes@.subrange(0, i as int),
        decreases bytes@.len() - i,
    {
        receiver.push(bytes[i]);
        i += 1;
        assert(receiver@ =~= old(receiver)@ + bytes@.subrange(0, i as int));
    }
    assert(bytes@.subrange(0, bytes@.len() as int) =~= bytes@);
}

fn serialize_bytes(bytes: &[u8], receiver: &mut Vec<u8>)
    ensures
        final(receiver)@ == old(receiver)@ + bytes_wasm(bytes@),
{
    (bytes.len() as u32).leb_serialize(receiver);
    push_bytes(receiver, bytes);
    assert(receiver@ =~= old(receiver)@ + bytes_wasm(bytes@));
}

/// Writes the length of the content's bytes, then the bytes.
fn serialize_section_content<T: WasmSerialize>(content: &T, receiver: &mut Vec<u8>)
    requires
        content.spec_ready(),
    ensures
        final(receiver)@ == old(receiver)@ + bytes_wasm(content.spec_wasm()),
{
    let mut buf: Vec<u8> = Vec::new();
    content.wasm_serialize(&mut buf);
    assert(buf@ =~= content.spec_wasm());
    serialize_bytes(buf.as_slice(), receiver);
}

/// Writes a section that holds a vector, unless the vector is empty.
fn serialize_section<T: WasmSerialize>(magic: u8, content: &Vec<T>, receiver: &mut Vec<u8>)
    requires
        all_ready(content@),
    ensures
        final(receiver)@ == old(receiver)@ + vec_section_wasm(magic, content@),
{
    if !content.is_empty() {
        receiver.push(magic);
        serialize_section_content(content, receiver);
        assert(receiver@ =~= old(receiver)@ + vec_section_wasm(magic, content@));
    } else {
        assert(receiver@ =~= old(receiver)@ + vec_section_wasm(magic, content@));
    }
}

// There is no container serializer with a per-element callback: nothing
// here needs one, since every element type implements `WasmSerialize`.
impl<T: WasmSerialize> WasmSerialize for Vec<T> {
    open spec fn spec_ready(&self) -> bool {
        all_ready(self@)
    }

    open spec fn spec_wasm(&self) -> Seq<u8> {
        vec_wasm(self@)
    }

    fn wasm_serialize(&self, receiver: &mut Vec<u8>) {
        (self.len() as u32).leb_serialize(receiver);
        let ghost start = receiver@;
        let mut i: usize = 0;
        while i < self.len()
            invariant
                i <= self@.len(),
                all_ready(self@),
                start == old(receiver)@ + uleb((self@.len() as u32) as nat),
                receiver@ == start + concat_wasm(self@.subrange(0, i as int)),
            decreases self@.len() - i,
        {
            self[i].wasm_serialize(receiver);
            i += 1;
            assert(self@.subrange(0, i as int).drop_last() =~= self@.subrange(0, i - 1));
            assert(receiver@ =~= start + concat_wasm(self@.subrange(0, i as int)));
        }
        assert(self@.subrange(0, self@.len() as int) =~= self@);
        assert(receiver@ =~= old(receiver)@ + vec_wasm(self@));
    }
}

impl WasmSerialize for str {
    open spec fn spec_ready(&self) -> bool {
        true
    }

    open spec fn spec_wasm(&self) -> Seq<u8> {
        bytes_wasm(encode_utf8(self@))
    }

    fn wasm_serialize(&self, receiver: &mut Vec<u8>) {
        serialize_bytes(self.as_bytes(), receiver);
    }
}

impl WasmSerialize for String {
    open spec fn spec_ready(&self) -> bool {
        true
    }

    open spec fn spec_wasm(&self) -> Seq<u8> {
        bytes_wasm(encode_utf8(self@))
    }

    fn wasm_serialize(&self, receiver: &mut Vec<u8>) {
        self.as_str().wasm_serialize(receiver);
    }
}

/// The magic number and version that open every module.
pub open spec fn wasm_header() -> Seq<u8> {
    seq![0x00u8, 0x61u8, 0x73u8, 0x6Du8, 0x01u8, 0x00u8, 0x00u8, 0x00u8]
}

impl WasmSerialize for TypeIdx {
    open spec fn spec_ready(&self) -> bool {
        true
    }

    open spec fn spec_wasm(&self) -> Seq<u8> {
        uleb(self.idx as nat)
    }

    fn wasm_serialize(&self, receiver: &mut Vec<u8>) {
        self.idx.leb_serialize(receiver);
    }
}

impl WasmSerialize for FuncIdx {
    open spec fn spec_ready(&self) -> bool {
        true
    }

    open spec fn spec_wasm(&self) -> Seq<u8> {
        uleb(self.idx as nat)
    }

    fn wasm_serialize(&self, receiver: &mut Vec<u8>) {
        self.idx.leb_serialize(receiver);
    }
}

impl WasmSerialize for TableIdx {
    open spec fn spec_ready(&self) -> bool {
        true
    }

    open spec fn spec_wasm(&self) -> Seq<u8> {
        uleb(self.idx as nat)
    }

    fn wasm_serialize(&self, receiver: &mut Vec<u8>) {
        self.idx.leb_serialize(receiver);
    }
}

impl WasmSerialize for MemIdx {
    open spec fn spec_ready(&self) -> bool {
        true
    }

    open spec fn spec_wasm(&self) -> Seq<u8> {
        uleb(self.idx as nat)
    }

    fn wasm_serialize(&self, receiver: &mut Vec<u8>) {
        self.idx.leb_serialize(receiver);
    }
}

impl WasmSerialize for GlobalIdx {
    open spec fn spec_ready(&self) -> bool {
        true
    }

    open spec fn spec_wasm(&self) -> Seq<u8> {
        uleb(self.idx as nat)
    }

    fn wasm_serialize(&self, receiver: &mut Vec<u8>) {
        self.idx.leb_serialize(receiver);
    }
}

impl WasmSerialize for LocalIdx {
    open spec fn spec_ready(&self) -> bool {
        true
    }

    open spec fn spec_wasm(&self) -> Seq<u8> {
        uleb(self.idx as nat)
    }

    fn wasm_serialize(&self, receiver: &mut Vec<u8>) {
        self.idx.leb_serialize(receiver);
    }
}

impl WasmSerialize for ValType {
    open spec fn spec_ready(&self) -> bool {
        true
    }

    open spec fn spec_wasm(&self) -> Seq<u8> {
        seq![self.spec_value()]
    }

    fn wasm_serialize(&self, receiver: &mut Vec<u8>) {
        receiver.push(self.value());
    }
}

impl WasmSerialize for FuncType {
    open spec fn spec_ready(&self) -> bool {
        true
    }

    open spec fn spec_wasm(&self) -> Seq<u8> {
        seq![0x60u8] + vec_wasm(self.param_types@) + vec_wasm(self.result_types@)
    }

    fn wasm_serialize(&self, receiver: &mut Vec<u8>) {
        receiver.push(0x60u8);
        self.param_types.wasm_serialize(receiver);
        self.result_types.wasm_serialize(receiver);
        assert(receiver@ =~= old(receiver)@ + self.spec_wasm());
    }
}

impl WasmSerialize for ElemType {
    open spec fn spec_ready(&self) -> bool {
        true
    }

    open spec fn spec_wasm(&self) -> Seq<u8> {
        seq![0x70u8]
    }

    fn wasm_serialize(&self, receiver: &mut Vec<u8>) {
        match self {
            ElemType::FuncRef => receiver.push(0x70u8),
        }
    }
}

impl WasmSerialize for Limits {
    open spec fn spec_ready(&self) -> bool {
        true
    }

    open spec fn spec_wasm(&self) -> Seq<u8> {
        match self {
            Limits::Unbounded { min } => seq![0x00u8] + uleb(*min as nat),
            Limits::Bounded { min, max } => seq![0x01u8] + uleb(*min as nat) + uleb(*max as nat),
        }
    }

    fn wasm_serialize(&self, receiver: &mut Vec<u8>) {
        match self {
            Limits::Unbounded { min } => {
                receiver.push(0x00u8);
                min.leb_serialize(receiver);
            },
            Limits::Bounded { min, max } => {
                receiver.push(0x01u8);
                min.leb_serialize(receiver);
                max.leb_serialize(receiver);
            },
        }
        assert(receiver@ =~= old(receiver)@ + self.spec_wasm());
    }
}

impl WasmSerialize for TableType {
    open spec fn spec_ready(&self) -> bool {
        true
    }

    open spec fn spec_wasm(&self) -> Seq<u8> {
        self.elem_type.spec_wasm() + self.limits.spec_wasm()
    }

    fn wasm_serialize(&self, receiver: &mut Vec<u8>) {
        self.elem_type.wasm_serialize(receiver);
        self.limits.wasm_serialize(receiver);
        assert(receiver@ =~= old(receiver)@ + self.spec_wasm());
    }
}

impl WasmSerialize for MemType {
    open spec fn spec_ready(&self) -> bool {
        true
    }

    open spec fn spec_wasm(&self) -> Seq<u8> {
        self.limits.spec_wasm()
    }

    fn wasm_serialize(&self, receiver: &mut Vec<u8>) {
        self.limits.wasm_serialize(receiver);
    }
}

impl WasmSerialize for Mut {
    open spec fn spec_ready(&self) -> bool {
        true
    }

    open spec fn spec_wasm(&self) -> Seq<u8> {
        match self {
            Mut::Const => seq![0x00u8],
            Mut::Var => seq![0x01u8],
        }
    }

    fn wasm_serialize(&self, receiver: &mut Vec<u8>) {
        match self {
            Mut::Const => receiver.push(0x00u8),
            Mut::Var => receiver.push(0x01u8),
        }
    }
}

impl WasmSerialize for GlobalType {
    open spec fn spec_ready(&self) -> bool {
        true
    }

    open spec fn spec_wasm(&self) -> Seq<u8> {
        self.val_type.spec_wasm() + self.mutability.spec_wasm()
    }

    fn wasm_serialize(&self, receiver: &mut Vec<u8>) {
        self.val_type.wasm_serialize(receiver);
        self.mutability.wasm_serialize(receiver);
        assert(receiver@ =~= old(receiver)@ + self.spec_wasm());
    }
}

impl WasmSerialize for ImportDesc {
    open spec fn spec_ready(&self) -> bool {
        true
    }

    open spec fn spec_wasm(&self) -> Seq<u8> {
        match self {
            ImportDesc::Func(x) => seq![0x00u8] + x.spec_wasm(),
            ImportDesc::Table(x) => seq![0x01u8] + x.spec_wasm(),
            ImportDesc::Mem(x) => seq![0x02u8] + x.spec_wasm(),
            ImportDesc::Global(x) => seq![0x03u8] + x.spec_wasm(),
        }
    }

    fn wasm_serialize(&self, receiver: &mut Vec<u8>) {
        match self {
            ImportDesc::Func(x) => {
                receiver.push(0x00u8);
                x.wasm_serialize(receiver);
            },
            ImportDesc::Table(x) => {
                receiver.push(0x01u8);
                x.wasm_serialize(receiver);
            },
            ImportDesc::Mem(x) => {
                receiver.push(0x02u8);
                x.wasm_serialize(receiver);
            },
            ImportDesc::Global(x) => {
                receiver.push(0x03u8);
                x.wasm_serialize(receiver);
            },
        }
        assert(receiver@ =~= old(receiver)@ + self.spec_wasm());
    }
}

impl WasmSerialize for ExportDesc {
    open spec fn spec_ready(&self) -> bool {
        true
    }

    open spec fn spec_wasm(&self) -> Seq<u8> {
        match self {
            ExportDesc::Func(x) => seq![0x00u8] + x.spec_wasm(),
            ExportDesc::Table(x) => seq![0x01u8] + x.spec_wasm(),
            ExportDesc::Mem(x) => seq![0x02u8] + x.spec_wasm(),
            ExportDesc::Global(x) => seq![0x03u8] + x.spec_wasm(),
        }
    }

    fn wasm_serialize(&self, receiver: &mut Vec<u8>) {
        match self {
            ExportDesc::Func(x) => {
                receiver.push(0x00u8);
                x.wasm_serialize(receiver);
            },
            ExportDesc::Table(x) => {
                receiver.push(0x01u8);
                x.wasm_serialize(receiver);
            },
            ExportDesc::Mem(x) => {
                receiver.push(0x02u8);
                x.wasm_serialize(receiver);
            },
            ExportDesc::Global(x) => {
                receiver.push(0x03u8);
                x.wasm_serialize(receiver);
            },
        }
        assert(receiver@ =~= old(receiver)@ + self.spec_wasm());
    }
}

impl WasmSerialize for Import {
    open spec fn spec_ready(&self) -> bool {
        true
    }

    open spec fn spec_wasm(&self) -> Seq<u8> {
        bytes_wasm(encode_utf8(self.module_name@)) + bytes_wasm(encode_utf8(self.entity_name@)) + self.desc.spec_wasm()
    }

    fn wasm_serialize(&self, receiver: &mut Vec<u8>) {
        self.module_name.wasm_serialize(receiver);
        self.entity_name.wasm_serialize(receiver);
        self.desc.wasm_serialize(receiver);
        assert(receiver@ =~= old(receiver)@ + self.spec_wasm());
    }
}

impl WasmSerialize for Export {
    open spec fn spec_ready(&self) -> bool {
        true
    }

    open spec fn spec_wasm(&self) -> Seq<u8> {
        bytes_wasm(encode_utf8(self.entity_name@)) + self.desc.spec_wasm()
    }

    fn wasm_serialize(&self, receiver: &mut Vec<u8>) {
        self.entity_name.wasm_serialize(receiver);
        self.desc.wasm_serialize(receiver);
        assert(receiver@ =~= old(receiver)@ + self.spec_wasm());
    }
}

impl WasmSerialize for Expr {
    open spec fn spec_ready(&self) -> bool {
        true
    }

    open spec fn spec_wasm(&self) -> Seq<u8> {
        self.bytecode@
    }

    fn wasm_serialize(&self, receiver: &mut Vec<u8>) {
        push_bytes(receiver, self.bytecode.as_slice());
    }
}

impl WasmSerialize for Table {
    open spec fn spec_ready(&self) -> bool {
        true
    }

    open spec fn spec_wasm(&self) -> Seq<u8> {
        self.table_type.spec_wasm()
    }

    fn wasm_serialize(&self, receiver: &mut Vec<u8>) {
        self.table_type.wasm_serialize(receiver);
    }
}

impl WasmSerialize for Mem {
    open spec fn spec_ready(&self) -> bool {
        true
    }

    open spec fn spec_wasm(&self) -> Seq<u8> {
        self.mem_type.spec_wasm()
    }

    fn wasm_serialize(&self, receiver: &mut Vec<u8>) {
        self.mem_type.wasm_serialize(receiver);
    }
}

impl WasmSerialize for Global {
    open spec fn spec_ready(&self) -> bool {
        true
    }

    open spec fn spec_wasm(&self) -> Seq<u8> {
        self.global_type.spec_wasm() + self.init_expr.spec_wasm()
    }

    fn wasm_serialize(&self, receiver: &mut Vec<u8>) {
        self.global_type.wasm_serialize(receiver);
        self.init_expr.wasm_serialize(receiver);
        assert(receiver@ =~= old(receiver)@ + self.spec_wasm());
    }
}

impl WasmSerialize for Elem {
    open spec fn spec_ready(&self) -> bool {
        true
    }

    open spec fn spec_wasm(&self) -> Seq<u8> {
        self.table_idx.spec_wasm() + self.offset.spec_wasm() + vec_wasm(self.content@)
    }

    fn wasm_serialize(&self, receiver: &mut Vec<u8>) {
        self.table_idx.wasm_serialize(receiver);
        self.offset.wasm_serialize(receiver);
        self.content.wasm_serialize(receiver);
        assert(receiver@ =~= old(receiver)@ + self.spec_wasm());
    }
}

impl WasmSerialize for Data {
    open spec fn spec_ready(&self) -> bool {
        true
    }

    open spec fn spec_wasm(&self) -> Seq<u8> {
        self.mem_idx.spec_wasm() + self.offset.spec_wasm() + bytes_wasm(self.content@)
    }

    fn wasm_serialize(&self, receiver: &mut Vec<u8>) {
        self.mem_idx.wasm_serialize(receiver);
        self.offset.wasm_serialize(receiver);
        serialize_bytes(self.content.as_slice(), receiver);
        assert(receiver@ =~= old(receiver)@ + self.spec_wasm());
    }
}

impl WasmSerialize for Code {
    open spec fn spec_ready(&self) -> bool {
        self.func is Some
    }

    open spec fn spec_wasm(&self) -> Seq<u8> {
        match self.func {
            Some(bytes) => bytes_wasm(bytes@),
            None => Seq::empty(),
        }
    }

    fn wasm_serialize(&self, receiver: &mut Vec<u8>) {
        match &self.func {
            Some(bytes) => serialize_bytes(bytes.as_slice(), receiver),
            None => {},
        }
    }
}

impl WasmSerialize for TypeSection {
    open spec fn spec_ready(&self) -> bool {
        all_ready(self.content.vec@)
    }

    open spec fn spec_wasm(&self) -> Seq<u8> {
        vec_section_wasm(1u8, self.content.vec@)
    }

    fn wasm_serialize(&self, receiver: &mut Vec<u8>) {
        serialize_section(1u8, &self.content.vec, receiver);
    }
}

impl WasmSerialize for ImportSection {
    open spec fn spec_ready(&self) -> bool {
        all_ready(self.content.vec@)
    }

    open spec fn spec_wasm(&self) -> Seq<u8> {
        vec_section_wasm(2u8, self.content.vec@)
    }

    fn wasm_serialize(&self, receiver: &mut Vec<u8>) {
        serialize_section(2u8, &self.content.vec, receiver);
    }
}

impl WasmSerialize for FuncSection {
    open spec fn spec_ready(&self) -> bool {
        all_ready(self.content@)
    }

    open spec fn spec_wasm(&self) -> Seq<u8> {
        vec_section_wasm(3u8, self.content@)
    }

    fn wasm_serialize(&self, receiver: &mut Vec<u8>) {
        serialize_section(3u8, &self.content, receiver);
    }
}

impl WasmSerialize for TableSection {
    open spec fn spec_ready(&self) -> bool {
        all_ready(self.content@)
    }

    open spec fn spec_wasm(&self) -> Seq<u8> {
        vec_section_wasm(4u8, self.content@)
    }

    fn wasm_serialize(&self, receiver: &mut Vec<u8>) {
        serialize_section(4u8, &self.content, receiver);
    }
}

impl WasmSerialize for MemSection {
    open spec fn spec_ready(&self) -> bool {
        all_ready(self.content@)
    }

    open spec fn spec_wasm(&self) -> Seq<u8> {
        vec_section_wasm(5u8, self.content@)
    }

    fn wasm_serialize(&self, receiver: &mut Vec<u8>) {
        serialize_section(5u8, &self.content, receiver);
    }
}

impl WasmSerialize for GlobalSection {
    open spec fn spec_ready(&self) -> bool {
        all_ready(self.content@)
    }

    open spec fn spec_wasm(&self) -> Seq<u8> {
        vec_section_wasm(6u8, self.content@)
    }

    fn wasm_serialize(&self, receiver: &mut Vec<u8>) {
        serialize_section(6u8, &self.content, receiver);
    }
}

impl WasmSerialize for ExportSection {
    open spec fn spec_ready(&self) -> bool {
        all_ready(self.content@)
    }

    open spec fn spec_wasm(&self) -> Seq<u8> {
        vec_section_wasm(7u8, self.content@)
    }

    fn wasm_serialize(&self, receiver: &mut Vec<u8>) {
        serialize_section(7u8, &self.content, receiver);
    }
}

impl WasmSerialize for ElemSection {
    open spec fn spec_ready(&self) -> bool {
        all_ready(self.content@)
    }

    open spec fn spec_wasm(&self) -> Seq<u8> {
        vec_section_wasm(9u8, self.content@)
    }

    fn wasm_serialize(&self, receiver: &mut Vec<u8>) {
        serialize_section(9u8, &self.content, receiver);
    }
}

impl WasmSerialize for CodeSection {
    open spec fn spec_ready(&self) -> bool {
        all_ready(self.content@)
    }

    open spec fn spec_wasm(&self) -> Seq<u8> {
        vec_section_wasm(10u8, self.content@)
    }

    fn wasm_serialize(&self, receiver: &mut Vec<u8>) {
        serialize_section(10u8, &self.content, receiver);
    }
}

impl WasmSerialize for DataSection {
    open spec fn spec_ready(&self) -> bool {
        all_ready(self.content@)
    }

    open spec fn spec_wasm(&self) -> Seq<u8> {
        vec_section_wasm(11u8, self.content@)
    }

    fn wasm_serialize(&self, receiver: &mut Vec<u8>) {
        serialize_section(11u8, &self.content, receiver);
    }
}

impl WasmSerialize for StartSection {
    open spec fn spec_ready(&self) -> bool {
        true
    }

    open spec fn spec_wasm(&self) -> Seq<u8> {
        match self.start {
            Some(start_idx) => section_wasm(8u8, start_idx.spec_wasm()),
            None => Seq::empty(),
        }
    }

    fn wasm_serialize(&self, receiver: &mut Vec<u8>) {
        match &self.start {
            Some(start_idx) => {
                receiver.push(8u8);
                serialize_section_content(start_idx, receiver);
                assert(receiver@ =~= old(receiver)@ + self.spec_wasm());
            },
            None => {},
        }
    }
}

impl WasmSerialize for WasmModule {
    open spec fn spec_ready(&self) -> bool {
        all_ready(self.code_section.content@)
    }

    open spec fn spec_wasm(&self) -> Seq<u8> {
        wasm_header() + self.type_section.spec_wasm() + self.import_section.spec_wasm()
            + self.func_section.spec_wasm() + self.table_section.spec_wasm()
            + self.mem_section.spec_wasm() + self.global_section.spec_wasm()
            + self.export_section.spec_wasm() + self.start_section.spec_wasm()
            + self.elem_section.spec_wasm() + self.code_section.spec_wasm()
            + self.data_section.spec_wasm()
    }

    #[verifier::rlimit(60)]
    fn wasm_serialize(&self, receiver: &mut Vec<u8>) {
        receiver.push(0x00u8);
        receiver.push(0x61u8);
        receiver.push(0x73u8);
        receiver.push(0x6Du8);
        receiver.push(0x01u8);
        receiver.push(0x00u8);
        receiver.push(0x00u8);
        receiver.push(0x00u8);
        self.type_section.wasm_serialize(receiver);
        self.import_section.wasm_serialize(receiver);
        self.func_section.wasm_serialize(receiver);
        self.table_section.wasm_serialize(receiver);
        self.mem_section.wasm_serialize(receiver);
        self.global_section.wasm_serialize(receiver);
        self.export_section.wasm_serialize(receiver);
        self.start_section.wasm_serialize(receiver);
        self.elem_section.wasm_serialize(receiver);
        self.code_section.wasm_serialize(receiver);
        self.data_section.wasm_serialize(receiver);
        assert(receiver@ =~= old(receiver)@ + self.spec_wasm());
    }
}

/// A module that cannot be serialized yet.
#[derive(Clone, Copy, PartialEq, Eq, Structural, Debug)]
pub enum SerializeError {
    /// A function was registered but its body never committed.
    UncommittedFunc,
}

impl WasmModule {
    /// The bytes of the module; fails when a registered function body has
    /// not been committed.
    pub fn to_bytes(&self) -> (r: Result<Vec<u8>, SerializeError>)
        ensures
            r is Ok <==> all_ready(self.code_section.content@),
            r matches Ok(b) ==> b@ == self.spec_wasm(),
            r matches Err(e) ==> e == SerializeError::UncommittedFunc,
    {
        let codes = &self.code_section.content;
        let mut i: usize = 0;
        while i < codes.len()
            invariant
                i <= codes@.len(),
                codes@ == self.code_section.content@,
                forall|j: int| 0 <= j < i ==> (#[trigger] codes@[j]).spec_ready(),
            decreases codes@.len() - i,
        {
            match &codes[i].func {
                None => {
                    proof { lemma_not_all_ready(codes@, i as int); }
                    return Err(SerializeError::UncommittedFunc);
                },
                Some(_) => {},
            }
            i += 1;
        }
        let mut out: Vec<u8> = Vec::new();
        self.wasm_serialize(&mut out);
        assert(out@ =~= self.spec_wasm());
        Ok(out)
    }
}

/// A vector section is left out exactly when its vector is empty, and
/// otherwise opens with its id.
pub proof fn lemma_vec_section_gating<T: WasmSerialize>(id: u8, s: Seq<T>)
    ensures
        s.len() == 0 <==> vec_section_wasm(id, s).len() == 0,
        s.len() > 0 ==> vec_section_wasm(id, s)[0] == id,
{
}

/// A section whose content is empty contributes no bytes, and a non-empty
/// one opens with its id; the start section is written exactly when a start
/// function is set, whatever else the module holds.
pub proof fn lemma_section_gating(m: WasmModule)
    ensures
        m.type_section.content.vec@.len() == 0 <==> m.type_section.spec_wasm().len() == 0,
        m.import_section.content.vec@.len() == 0 <==> m.import_section.spec_wasm().len() == 0,
        m.func_section.content@.len() == 0 <==> m.func_section.spec_wasm().len() == 0,
        m.table_section.content@.len() == 0 <==> m.table_section.spec_wasm().len() == 0,
        m.mem_section.content@.len() == 0 <==> m.mem_section.spec_wasm().len() == 0,
        m.global_section.content@.len() == 0 <==> m.global_section.spec_wasm().len() == 0,
        m.export_section.content@.len() == 0 <==> m.export_section.spec_wasm().len() == 0,
        m.start_section.start is None <==> m.start_section.spec_wasm().len() == 0,
        m.elem_section.content@.len() == 0 <==> m.elem_section.spec_wasm().len() == 0,
        m.code_section.content@.len() == 0 <==> m.code_section.spec_wasm().len() == 0,
        m.data_section.content@.len() == 0 <==> m.data_section.spec_wasm().len() == 0,
        m.type_section.content.vec@.len() > 0 ==> m.type_section.spec_wasm()[0] == 1,
        m.import_section.content.vec@.len() > 0 ==> m.import_section.spec_wasm()[0] == 2,
        m.func_section.content@.len() > 0 ==> m.func_section.spec_wasm()[0] == 3,
        m.table_section.content@.len() > 0 ==> m.table_section.spec_wasm()[0] == 4,
        m.mem_section.content@.len() > 0 ==> m.mem_section.spec_wasm()[0] == 5,
        m.global_section.content@.len() > 0 ==> m.global_section.spec_wasm()[0] == 6,
        m.export_section.content@.len() > 0 ==> m.export_section.spec_wasm()[0] == 7,
        m.start_section.start is Some ==> m.start_section.spec_wasm()[0] == 8,
        m.elem_section.content@.len() > 0 ==> m.elem_section.spec_wasm()[0] == 9,
        m.code_section.content@.len() > 0 ==> m.code_section.spec_wasm()[0] == 10,
        m.data_section.content@.len() > 0 ==> m.data_section.spec_wasm()[0] == 11,
{
    lemma_vec_section_gating(1u8, m.type_section.content.vec@);
    lemma_vec_section_gating(2u8, m.import_section.content.vec@);
    lemma_vec_section_gating(3u8, m.func_section.content@);
    lemma_vec_section_gating(4u8, m.table_section.content@);
    lemma_vec_section_gating(5u8, m.mem_section.content@);
    lemma_vec_section_gating(6u8, m.global_section.content@);
    lemma_vec_section_gating(7u8, m.export_section.content@);
    lemma_vec_section_gating(9u8, m.elem_section.content@);
    lemma_vec_section_gating(10u8, m.code_section.content@);
    lemma_vec_section_gating(11u8, m.data_section.content@);
}

/// The bytes of a module are a function of the module alone: equal
/// modules serialize to equal bytes, on every run.
pub proof fn lemma_serialize_deterministic(a: WasmModule, b: WasmModule)
    requires
        a == b,
    ensures
        a.spec_wasm() == b.spec_wasm(),
{
}

proof fn lemma_prefix_kept(a: Seq<u8>, b: Seq<u8>, n: int)
    requires
        0 <= n <= a.len(),
    ensures
        (a + b).subrange(0, n) == a.subrange(0, n),
{
    assert((a + b).subrange(0, n) =~= a.subrange(0, n));
}

/// Every module's bytes open with the magic number and version.
pub proof fn lemma_header_prefix(m: WasmModule)
    ensures
        m.spec_wasm().len() >= 8,
        m.spec_wasm().subrange(0, 8) == wasm_header(),
{
    let x0 = wasm_header();
    assert(x0.subrange(0, 8) =~= x0);
    let x1 = x0 + m.type_section.spec_wasm();
    lemma_prefix_kept(x0, m.type_section.spec_wasm(), 8);
    let x2 = x1 + m.import_section.spec_wasm();
    lemma_prefix_kept(x1, m.import_section.spec_wasm(), 8);
    let x3 = x2 + m.func_section.spec_wasm();
    lemma_prefix_kept(x2, m.func_section.spec_wasm(), 8);
    let x4 = x3 + m.table_section.spec_wasm();
    lemma_prefix_kept(x3, m.table_section.spec_wasm(), 8);
    let x5 = x4 + m.mem_section.spec_wasm();
    lemma_prefix_kept(x4, m.mem_section.spec_wasm(), 8);
    let x6 = x5 + m.global_section.spec_wasm();
    lemma_prefix_kept(x5, m.global_section.spec_wasm(), 8);
    let x7 = x6 + m.export_section.spec_wasm();
    lemma_prefix_kept(x6, m.export_section.spec_wasm(), 8);
    let x8 = x7 + m.start_section.spec_wasm();
    lemma_prefix_kept(x7, m.start_section.spec_wasm(), 8);
    let x9 = x8 + m.elem_section.spec_wasm();
    lemma_prefix_kept(x8, m.elem_section.spec_wasm(), 8);
    let x10 = x9 + m.code_section.spec_wasm();
    lemma_prefix_kept(x9, m.code_section.spec_wasm(), 8);
    let x11 = x10 + m.data_section.spec_wasm();
    lemma_prefix_kept(x10, m.data_section.spec_wasm(), 8);
    assert(m.spec_wasm() == x11);
}

/// A module with every section empty and no start function is the header
/// alone.
pub proof fn lemma_empty_module(m: WasmModule)
    requires
        m.type_section.content.vec@.len() == 0,
        m.import_section.content.vec@.len() == 0,
        m.func_section.content@.len() == 0,
        m.table_section.content@.len() == 0,
        m.mem_section.content@.len() == 0,
        m.global_section.content@.len() == 0,
        m.export_section.content@.len() == 0,
        m.start_section.start is None,
        m.elem_section.content@.len() == 0,
        m.code_section.content@.len() == 0,
        m.data_section.content@.len() == 0,
    ensures
        m.spec_wasm() == wasm_header(),
{
    lemma_section_gating(m);
    assert(m.spec_wasm() =~= wasm_header());
}

} // verus!
