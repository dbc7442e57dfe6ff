//! The binary module under construction. The module is built and encoded
//! by `wagen`; this file states what each of its operations does to the
//! module's sections.
//!
//! Nothing here is proved: every contract in this file restates what
//! `wagen` does. A module comes into being by `new_module` only, and only
//! the operations below change it, so that a module never holds anything
//! but types, imported functions, defined functions, tables of function
//! references and element segments.
//!
//! The encoder counts with 32 bits and gives up on a section that does not
//! fit. The limits below keep every module far from that: an instruction
//! takes at most eleven bytes and a function reference at most five, so
//! that no section allowed here reaches a third of what can be counted.

use vstd::prelude::*;
use crate::model::ValueKind;
use crate::names::name_key;
use crate::ops::{Cast, Op};

verus! {

/// `wagen::Module`: a module under construction. What it holds is told by
/// the five functions `module_types` to `module_elements` below.
#[verifier::external_type_specification]
#[verifier::external_body]
pub struct ExModule<'a>(wagen::Module<'a>);

/// `wagen::ValType`: the type of a value, of which the four scalar kinds
/// are used here.
#[verifier::external_type_specification]
#[verifier::external_body]
pub struct ExValType(wagen::ValType);

/// `wagen::Instr`: an instruction.
#[verifier::external_type_specification]
#[verifier::external_body]
pub struct ExInstr<'a>(wagen::Instr<'a>);

/// A function type: the kinds a function takes and the kinds it returns.
pub struct FuncType {
    pub params: Seq<ValueKind>,
    pub results: Seq<ValueKind>,
}

/// An imported function: where it comes from and which type it has.
pub struct ImportDecl {
    pub namespace: Seq<char>,
    pub name: Seq<char>,
    pub type_index: nat,
}

/// A function defined in the module. It is exported under its name.
pub struct FuncDecl {
    pub name: Seq<char>,
    pub type_index: nat,
    /// The index by which instructions call it.
    pub index: nat,
    /// The body, without the `End` that closes every function.
    pub body: Seq<Op>,
}

/// A table of function references, with its initial size.
pub struct TableDecl {
    pub minimum: nat,
}

/// Function references written into a table from position 0 on when the
/// module is instantiated.
pub struct ElementDecl {
    pub table: nat,
    pub functions: Seq<u32>,
}

/// The types that a module declares, in index order.
pub uninterp spec fn module_types(m: wagen::Module<'static>) -> Seq<FuncType>;

/// The functions that a module imports, in index order.
pub uninterp spec fn module_imports(m: wagen::Module<'static>) -> Seq<ImportDecl>;

/// The functions that a module defines, in the order of their definition.
pub uninterp spec fn module_functions(m: wagen::Module<'static>) -> Seq<FuncDecl>;

/// The tables that a module declares, in index order.
pub uninterp spec fn module_tables(m: wagen::Module<'static>) -> Seq<TableDecl>;

/// The element segments that a module declares, in order.
pub uninterp spec fn module_elements(m: wagen::Module<'static>) -> Seq<ElementDecl>;

/// The binary encoding of a module with these sections.
pub uninterp spec fn wasm_binary(
    types: Seq<FuncType>,
    imports: Seq<ImportDecl>,
    functions: Seq<FuncDecl>,
    tables: Seq<TableDecl>,
    elements: Seq<ElementDecl>,
) -> Seq<u8>;

/// What the validator finds wrong with a binary module: nothing, or a
/// diagnostic.
pub uninterp spec fn validation_failure(bytes: Seq<u8>) -> Option<Seq<char>>;

/// The sections of a module, taken together.
pub struct ModuleView {
    pub types: Seq<FuncType>,
    pub imports: Seq<ImportDecl>,
    pub functions: Seq<FuncDecl>,
    pub tables: Seq<TableDecl>,
    pub elements: Seq<ElementDecl>,
}

/// The sections of `m`.
pub open spec fn contents(m: wagen::Module<'static>) -> ModuleView {
    ModuleView {
        types: module_types(m),
        imports: module_imports(m),
        functions: module_functions(m),
        tables: module_tables(m),
        elements: module_elements(m),
    }
}

/// The most entries a section may hold.
pub const MAX_ENTRIES: usize = 131072;

/// The most bytes a name may take.
pub const MAX_NAME_BYTES: usize = 4096;

/// The most parameters, and the most results, a function type may list.
pub const MAX_TYPE_VALUES: usize = 4096;

/// The most instructions that all function bodies together, and the most
/// function references that all element segments together, may hold.
pub const MAX_TOTAL_OPS: usize = 67_108_864;

/// The number of instructions in all the bodies.
pub open spec fn total_ops(functions: Seq<FuncDecl>) -> nat
    decreases functions.len(),
{
    if functions.len() == 0 {
        0
    } else {
        total_ops(functions.drop_last()) + functions.last().body.len()
    }
}

/// The number of function references in all the segments.
pub open spec fn total_refs(elements: Seq<ElementDecl>) -> nat
    decreases elements.len(),
{
    if elements.len() == 0 {
        0
    } else {
        total_refs(elements.drop_last()) + elements.last().functions.len()
    }
}

/// A name short enough to be encoded.
pub open spec fn short_name(name: Seq<char>) -> bool {
    name_key(name).len() <= MAX_NAME_BYTES
}

impl ModuleView {
    /// A module without anything in it.
    pub open spec fn empty() -> ModuleView {
        ModuleView {
            types: Seq::empty(),
            imports: Seq::empty(),
            functions: Seq::empty(),
            tables: Seq::empty(),
            elements: Seq::empty(),
        }
    }

    /// Room for one more entry in every section.
    pub open spec fn has_room(self) -> bool {
        &&& self.types.len() < MAX_ENTRIES
        &&& self.imports.len() < MAX_ENTRIES
        &&& self.functions.len() < MAX_ENTRIES
        &&& self.tables.len() < MAX_ENTRIES
        &&& self.elements.len() < MAX_ENTRIES
    }

    /// The module after one more type.
    pub open spec fn with_type(self, params: Seq<ValueKind>, results: Seq<ValueKind>) -> ModuleView {
        ModuleView { types: self.types.push(FuncType { params, results }), ..self }
    }

    /// The module after one more import: the import's type is added to the
    /// types, and the import refers to it.
    pub open spec fn with_import(
        self,
        namespace: Seq<char>,
        name: Seq<char>,
        params: Seq<ValueKind>,
        results: Seq<ValueKind>,
    ) -> ModuleView {
        ModuleView {
            types: self.types.push(FuncType { params, results }),
            imports: self.imports.push(
                ImportDecl { namespace, name, type_index: self.types.len() },
            ),
            ..self
        }
    }

    /// The index that the next defined function gets: imported functions
    /// are counted first.
    pub open spec fn next_function_index(self) -> nat {
        self.imports.len() + self.functions.len()
    }

    /// The module after one more function definition: the function's type
    /// is added to the types, and the function refers to it.
    pub open spec fn with_function(
        self,
        name: Seq<char>,
        params: Seq<ValueKind>,
        results: Seq<ValueKind>,
        body: Seq<Op>,
    ) -> ModuleView {
        ModuleView {
            types: self.types.push(FuncType { params, results }),
            functions: self.functions.push(
                FuncDecl {
                    name,
                    type_index: self.types.len(),
                    index: self.next_function_index(),
                    body,
                },
            ),
            ..self
        }
    }

    /// The module after one more table.
    pub open spec fn with_table(self, minimum: nat) -> ModuleView {
        ModuleView { tables: self.tables.push(TableDecl { minimum }), ..self }
    }

    /// The module after one more element segment.
    pub open spec fn with_element(self, table: nat, functions: Seq<u32>) -> ModuleView {
        ModuleView { elements: self.elements.push(ElementDecl { table, functions }), ..self }
    }

    /// Every section and every entry is within the sizes above.
    pub open spec fn within_limits(self) -> bool {
        &&& self.types.len() <= MAX_ENTRIES
        &&& self.imports.len() <= MAX_ENTRIES
        &&& self.functions.len() <= MAX_ENTRIES
        &&& self.tables.len() <= MAX_ENTRIES
        &&& self.elements.len() <= MAX_ENTRIES
        &&& forall|i: int|
            0 <= i < self.types.len() ==> (#[trigger] self.types[i]).params.len() <= MAX_TYPE_VALUES
                && self.types[i].results.len() <= MAX_TYPE_VALUES
        &&& forall|i: int|
            0 <= i < self.imports.len() ==> short_name((#[trigger] self.imports[i]).namespace)
                && short_name(self.imports[i].name)
        &&& forall|i: int|
            0 <= i < self.functions.len() ==> short_name((#[trigger] self.functions[i]).name)
        &&& total_ops(self.functions) <= MAX_TOTAL_OPS
        &&& total_refs(self.elements) <= MAX_TOTAL_OPS
    }
}

/// `wagen::Module::new`: a module with empty sections.
#[verifier::external_body]
pub(crate) fn new_module() -> (m: wagen::Module<'static>)
    ensures
        module_types(m) == Seq::<FuncType>::empty(),
        module_imports(m) == Seq::<ImportDecl>::empty(),
        module_functions(m) == Seq::<FuncDecl>::empty(),
        module_tables(m) == Seq::<TableDecl>::empty(),
        module_elements(m) == Seq::<ElementDecl>::empty(),
{
    wagen::Module::new()
}

/// The `wagen::ValType` of each kind.
#[verifier::external_body]
fn val_types(kinds: &Vec<ValueKind>) -> Vec<wagen::ValType> {
    let of = |kind: &ValueKind| match kind {
        ValueKind::Int32 => wagen::ValType::I32,
        ValueKind::Int64 => wagen::ValType::I64,
        ValueKind::Float32 => wagen::ValType::F32,
        ValueKind::Float64 => wagen::ValType::F64,
    };
    kinds.iter().map(of).collect()
}

/// The `wagen::Instr` of a change of representation.
#[verifier::external_body]
fn cast_instr(cast: Cast) -> wagen::Instr<'static> {
    match cast {
        Cast::I32WrapI64 => wagen::Instr::I32WrapI64,
        Cast::I64ExtendI32U => wagen::Instr::I64ExtendI32U,
        Cast::F32ReinterpretI32 => wagen::Instr::F32ReinterpretI32,
        Cast::F64ReinterpretI64 => wagen::Instr::F64ReinterpretI64,
        Cast::I32ReinterpretF32 => wagen::Instr::I32ReinterpretF32,
        Cast::I64ReinterpretF64 => wagen::Instr::I64ReinterpretF64,
    }
}

/// The `wagen::Instr` of an instruction.
#[verifier::external_body]
fn instr(op: &Op) -> wagen::Instr<'static> {
    match *op {
        Op::LocalGet(i) => wagen::Instr::LocalGet(i),
        Op::I32Const(v) => wagen::Instr::I32Const(v),
        Op::I64Const(v) => wagen::Instr::I64Const(v),
        Op::I32Eq => wagen::Instr::I32Eq,
        Op::I32And => wagen::Instr::I32And,
        Op::If => wagen::Instr::If(wagen::BlockType::Empty),
        Op::Return => wagen::Instr::Return,
        Op::End => wagen::Instr::End,
        Op::Call(f) => wagen::Instr::Call(f),
        Op::CallIndirect { type_index, table_index } => wagen::Instr::CallIndirect { type_index, table_index },
        Op::Cast(cast) => cast_instr(cast),
    }
}

/// `wagen::Module::import`: adds the function's type to the types and the
/// function to the imports, and returns the index of the import, which is
/// the number of imports made before.
#[verifier::external_body]
pub(crate) fn import_function(
    m: &mut wagen::Module<'static>,
    namespace: &str,
    name: &str,
    params: &Vec<ValueKind>,
    results: &Vec<ValueKind>,
) -> (index: u32)
    requires
        contents(*old(m)).has_room(),
        short_name(namespace@),
        short_name(name@),
        params@.len() <= MAX_TYPE_VALUES,
        results@.len() <= MAX_TYPE_VALUES,
    ensures
        contents(*final(m)) == contents(*old(m)).with_import(
            namespace@,
            name@,
            params@,
            results@,
        ),
        index == contents(*old(m)).imports.len(),
{
    m.import(namespace, name, None, val_types(params), val_types(results)).index()
}

/// `wagen::Tables::push` on `wagen::Module::tables`: adds a table of
/// function references with the given initial size and no upper limit, and
/// returns its index, which is the number of tables added before.
#[verifier::external_body]
pub(crate) fn add_table(m: &mut wagen::Module<'static>, minimum: u32) -> (index: u32)
    requires
        contents(*old(m)).has_room(),
    ensures
        contents(*final(m)) == contents(*old(m)).with_table(minimum as nat),
        index == contents(*old(m)).tables.len(),
{
    m.tables().push(
        wagen::TableType {
            element_type: wagen::RefType::FUNCREF,
            table64: false,
            minimum: u64::from(minimum),
            maximum: None,
            shared: false,
        },
    )
}

/// `wagen::Types::push` on `wagen::Module::types`, with a function type:
/// adds the type and returns its index, which is the number of types added
/// before.
#[verifier::external_body]
pub(crate) fn add_type(
    m: &mut wagen::Module<'static>,
    params: &Vec<ValueKind>,
    results: &Vec<ValueKind>,
) -> (index: u32)
    requires
        contents(*old(m)).has_room(),
        params@.len() <= MAX_TYPE_VALUES,
        results@.len() <= MAX_TYPE_VALUES,
    ensures
        contents(*final(m)) == contents(*old(m)).with_type(params@, results@),
        index == contents(*old(m)).types.len(),
{
    m.types().push(|t| t.function(val_types(params), val_types(results)))
}

/// `wagen::Module::func`, `wagen::Function::export` and the function's
/// `body`: adds the function's type to the types, defines a function of
/// that type without locals, exports it under its name, gives it the body,
/// and returns its index: the number of imports and definitions made
/// before.
#[verifier::external_body]
pub(crate) fn define_function(
    m: &mut wagen::Module<'static>,
    name: &str,
    params: &Vec<ValueKind>,
    results: &Vec<ValueKind>,
    body: &Vec<Op>,
) -> (index: u32)
    requires
        contents(*old(m)).has_room(),
        short_name(name@),
        params@.len() <= MAX_TYPE_VALUES,
        results@.len() <= MAX_TYPE_VALUES,
    ensures
        contents(*final(m)) == contents(*old(m)).with_function(name@, params@, results@, body@),
        index == contents(*old(m)).next_function_index(),
{
    let f = m.func(name, val_types(params), val_types(results), []);
    f.export(name);
    f.body = wagen::Builder::from(body.iter().map(instr).collect::<Vec<_>>());
    f.index
}

/// `wagen::Module::active_element`: adds a segment that writes the given
/// function references into the given table from position 0 on.
#[verifier::external_body]
pub(crate) fn add_active_element(m: &mut wagen::Module<'static>, table: u32, functions: &Vec<u32>)
    requires
        contents(*old(m)).has_room(),
        functions@.len() <= MAX_TOTAL_OPS,
    ensures
        contents(*final(m)) == contents(*old(m)).with_element(table as nat, functions@),
{
    m.active_element(Some(table), wagen::Elements::Functions(functions.as_slice().into()));
}

/// `wagen::Module::finish`: the binary encoding of the module.
#[verifier::external_body]
pub(crate) fn encode_module(m: wagen::Module<'static>) -> (bytes: Vec<u8>)
    requires
        contents(m).within_limits(),
    ensures
        bytes@ == wasm_binary(
            module_types(m),
            module_imports(m),
            module_functions(m),
            module_tables(m),
            module_elements(m),
        ),
{
    m.finish()
}

/// `wagen::validate`: checks a binary module against the rules of the
/// format, with every extension of the format allowed. The diagnostic is
/// the validator's message.
#[verifier::external_body]
pub(crate) fn validate_binary(bytes: &Vec<u8>) -> (verdict: Result<(), String>)
    ensures
        match verdict {
            Ok(()) => validation_failure(bytes@) is None,
            Err(diagnostic) => validation_failure(bytes@) == Some(diagnostic@),
        },
{
    match wagen::validate(bytes) {
        Ok(_) => Ok(()),
        Err(error) => Err(error.to_string()),
    }
}

} // verus!
