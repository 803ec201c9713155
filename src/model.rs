use vstd::prelude::*;

verus! {

/// A type descriptor as it appears in a signature.
#[derive(Debug, PartialEq, Eq)]
pub enum SignatureToken {
    Bool,
    U8,
    U64,
    U128,
    Address,
    Signer,
    Vector(Box<SignatureToken>),
    /// A struct, by its index in the struct-handle table.
    Struct(u16),
    /// A generic struct with its type arguments.
    StructInstantiation(u16, Vec<SignatureToken>),
    Reference(Box<SignatureToken>),
    MutableReference(Box<SignatureToken>),
    /// A type parameter, by its position.
    TypeParameter(u16),
}

/// One instruction of a function body. Only the three kinds that the
/// summaries read are told apart; every other opcode is `Other`.
#[derive(Debug, Clone, Copy, PartialEq, Eq)]
pub enum Instruction {
    /// Immutable borrow of a global, by struct-definition index.
    ImmBorrowGlobal(u16),
    /// Mutable borrow of a global, by struct-definition index.
    MutBorrowGlobal(u16),
    /// Direct call, by function-handle index.
    Call(u16),
    Other,
}

#[derive(Debug, Clone, Copy, PartialEq, Eq)]
pub enum Visibility {
    Private,
    Public,
    Friend,
}

/// A module referenced by this one: address and name, as table indices.
#[derive(Debug, Clone, Copy, PartialEq, Eq)]
pub struct ModuleHandle {
    pub address: u16,
    pub name: u16,
}

/// A struct declared in some module.
#[derive(Debug, Clone, Copy, PartialEq, Eq)]
pub struct StructHandle {
    pub module: u16,
    pub name: u16,
}

/// A function declared in some module, with its parameter and return
/// signatures (indices into the signature table).
#[derive(Debug, Clone, Copy, PartialEq, Eq)]
pub struct FunctionHandle {
    pub module: u16,
    pub name: u16,
    pub parameters: u16,
    pub return_: u16,
}

/// A struct defined in this module.
#[derive(Debug, Clone, Copy, PartialEq, Eq)]
pub struct StructDefinition {
    pub struct_handle: u16,
}

/// A function defined in this module; `code` is `None` for a native function.
#[derive(Debug, Clone, PartialEq, Eq)]
pub struct FunctionDefinition {
    pub function: u16,
    pub visibility: Visibility,
    pub is_entry: bool,
    pub code: Option<Vec<Instruction>>,
}

/// The declaration tables of a module, which handles index into.
#[derive(Debug, PartialEq, Eq)]
pub struct ModuleTables {
    pub module_handles: Vec<ModuleHandle>,
    pub struct_handles: Vec<StructHandle>,
    pub function_handles: Vec<FunctionHandle>,
    pub struct_defs: Vec<StructDefinition>,
    pub signatures: Vec<Vec<SignatureToken>>,
    pub identifiers: Vec<String>,
    /// Account addresses, each as its big-endian bytes.
    pub address_identifiers: Vec<Vec<u8>>,
}

/// A deserialized module: its tables and its function definitions in
/// declaration order.
#[derive(Debug, PartialEq, Eq)]
pub struct Module {
    pub tables: ModuleTables,
    pub function_defs: Vec<FunctionDefinition>,
}

/// A global storage type, identified by its declaring module and its name.
#[derive(Debug, Clone, PartialEq, Eq, PartialOrd, Ord, Hash)]
pub struct Resource {
    pub module_addr: String,
    pub module_name: String,
    pub resource_name: String,
}

/// What a `Resource` holds, as text.
pub struct ResourceView {
    pub module_addr: Seq<char>,
    pub module_name: Seq<char>,
    pub resource_name: Seq<char>,
}

impl View for Resource {
    type V = ResourceView;

    open spec fn view(&self) -> ResourceView {
        ResourceView {
            module_addr: self.module_addr@,
            module_name: self.module_name@,
            resource_name: self.resource_name@,
        }
    }
}

} // verus!

verus! {

/// Why a function could not be summarised: one of its handles, or a
/// signature it names, lies outside its table.
#[derive(Debug, Clone, Copy, PartialEq, Eq)]
pub enum InspectionError {
    InvalidHandle,
}

/// The summary of one function.
#[derive(Debug, Clone, PartialEq, Eq)]
pub struct Func {
    pub name: String,
    pub visibility: String,
    pub is_entry: bool,
    /// Always empty: generic parameters are not resolved.
    pub generic_type_params: Vec<String>,
    pub params: Vec<String>,
    pub ret: Vec<String>,
    pub read_resources: Vec<Resource>,
    pub write_resources: Vec<Resource>,
    pub called_functions: Vec<String>,
}

/// What a `Func` holds, as text and sequences.
pub struct FuncView {
    pub name: Seq<char>,
    pub visibility: Seq<char>,
    pub is_entry: bool,
    pub generic_type_params: Seq<Seq<char>>,
    pub params: Seq<Seq<char>>,
    pub ret: Seq<Seq<char>>,
    pub read_resources: Seq<ResourceView>,
    pub write_resources: Seq<ResourceView>,
    pub called_functions: Seq<Seq<char>>,
}

impl View for Func {
    type V = FuncView;

    open spec fn view(&self) -> FuncView {
        FuncView {
            name: self.name@,
            visibility: self.visibility@,
            is_entry: self.is_entry,
            generic_type_params: self.generic_type_params@.map_values(|s: String| s@),
            params: self.params@.map_values(|s: String| s@),
            ret: self.ret@.map_values(|s: String| s@),
            read_resources: self.read_resources@.map_values(|r: Resource| r@),
            write_resources: self.write_resources@.map_values(|r: Resource| r@),
            called_functions: self.called_functions@.map_values(|s: String| s@),
        }
    }
}

/// The tag of a visibility.
pub open spec fn visibility_text(v: Visibility) -> Seq<char> {
    match v {
        Visibility::Private => "Private"@,
        Visibility::Public => "Public"@,
        Visibility::Friend => "Friend"@,
    }
}

impl Visibility {
    pub fn tag(&self) -> (r: String)
        ensures
            r@ == visibility_text(*self),
    {
        match self {
            Visibility::Private => String::from_str("Private"),
            Visibility::Public => String::from_str("Public"),
            Visibility::Friend => String::from_str("Friend"),
        }
    }
}

} // verus!
