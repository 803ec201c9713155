use vstd::prelude::*;
use crate::model::{InspectionError, ModuleTables, Resource, ResourceView};
use crate::text::{address_hex, address_to_hex};

verus! {

/// The identifier at `i`.
pub open spec fn identifier(t: ModuleTables, i: u16) -> Seq<char> {
    t.identifiers@[i as int]@
}

/// Module handle `mh` exists, and so do its address and its name.
pub open spec fn module_valid(t: ModuleTables, mh: u16) -> bool {
    &&& mh < t.module_handles.len()
    &&& t.module_handles@[mh as int].address < t.address_identifiers.len()
    &&& t.module_handles@[mh as int].name < t.identifiers.len()
}

/// `"0x"` and the lowercase hexadecimal address of module handle `mh`.
pub open spec fn module_addr_text(t: ModuleTables, mh: u16) -> Seq<char> {
    "0x"@ + address_hex(t.address_identifiers@[t.module_handles@[mh as int].address as int]@)
}

/// Struct definition `d` leads to a struct handle whose name and module exist.
pub open spec fn struct_resolves(t: ModuleTables, d: u16) -> bool {
    &&& d < t.struct_defs.len()
    &&& t.struct_defs@[d as int].struct_handle < t.struct_handles.len()
    &&& t.struct_handles@[t.struct_defs@[d as int].struct_handle as int].name < t.identifiers.len()
    &&& module_valid(t, t.struct_handles@[t.struct_defs@[d as int].struct_handle as int].module)
}

/// The resource that struct definition `d` stands for.
pub open spec fn resource_of(t: ModuleTables, d: u16) -> ResourceView {
    let h = t.struct_handles@[t.struct_defs@[d as int].struct_handle as int];
    ResourceView {
        module_addr: module_addr_text(t, h.module),
        module_name: identifier(t, t.module_handles@[h.module as int].name),
        resource_name: identifier(t, h.name),
    }
}

/// Function handle `f` exists, and so do its name and its module.
pub open spec fn function_resolves(t: ModuleTables, f: u16) -> bool {
    &&& f < t.function_handles.len()
    &&& t.function_handles@[f as int].name < t.identifiers.len()
    &&& module_valid(t, t.function_handles@[f as int].module)
}

/// The qualified name of function handle `f`: its module's address, `"::"`,
/// and its name.
pub open spec fn function_name_text(t: ModuleTables, f: u16) -> Seq<char> {
    let h = t.function_handles@[f as int];
    module_addr_text(t, h.module) + "::"@ + identifier(t, h.name)
}

fn module_address(t: &ModuleTables, mh: u16) -> (r: String)
    requires
        module_valid(*t, mh),
    ensures
        r@ == module_addr_text(*t, mh),
{
    let h = t.module_handles[mh as usize];
    let hex = address_to_hex(&t.address_identifiers[h.address as usize]);
    let mut s = String::from_str("0x");
    s.append(hex.as_str());
    s
}

/// The resource behind struct definition `index`.
pub fn resolve_struct(t: &ModuleTables, index: u16) -> (r: Result<Resource, InspectionError>)
    ensures
        r is Ok <==> struct_resolves(*t, index),
        r is Ok ==> r->Ok_0@ == resource_of(*t, index),
{
    if index as usize >= t.struct_defs.len() {
        return Err(InspectionError::InvalidHandle);
    }
    let sh = t.struct_defs[index as usize].struct_handle;
    if sh as usize >= t.struct_handles.len() {
        return Err(InspectionError::InvalidHandle);
    }
    let h = t.struct_handles[sh as usize];
    if h.name as usize >= t.identifiers.len() || h.module as usize >= t.module_handles.len() {
        return Err(InspectionError::InvalidHandle);
    }
    let mh = t.module_handles[h.module as usize];
    if mh.address as usize >= t.address_identifiers.len() || mh.name as usize
        >= t.identifiers.len() {
        return Err(InspectionError::InvalidHandle);
    }
    Ok(
        Resource {
            module_addr: module_address(t, h.module),
            module_name: t.identifiers[mh.name as usize].clone(),
            resource_name: t.identifiers[h.name as usize].clone(),
        },
    )
}

/// The qualified name of function handle `index`.
pub fn resolve_function(t: &ModuleTables, index: u16) -> (r: Result<String, InspectionError>)
    ensures
        r is Ok <==> function_resolves(*t, index),
        r is Ok ==> r->Ok_0@ == function_name_text(*t, index),
{
    if index as usize >= t.function_handles.len() {
        return Err(InspectionError::InvalidHandle);
    }
    let h = t.function_handles[index as usize];
    if h.name as usize >= t.identifiers.len() || h.module as usize >= t.module_handles.len() {
        return Err(InspectionError::InvalidHandle);
    }
    let mh = t.module_handles[h.module as usize];
    if mh.address as usize >= t.address_identifiers.len() || mh.name as usize
        >= t.identifiers.len() {
        return Err(InspectionError::InvalidHandle);
    }
    let mut s = module_address(t, h.module);
    s.append("::");
    s.append(t.identifiers[h.name as usize].as_str());
    Ok(s)
}

} // verus!
