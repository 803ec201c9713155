use vstd::prelude::*;
use crate::dedup::{canonical, canonicalize, lemma_canonical_empty, strictly_ascending, views};
use crate::format::{format_signature_token, token_text};
use crate::model::{
    Func, FuncView, FunctionDefinition, InspectionError, Instruction, Module, ModuleTables,
    Resource, ResourceView, SignatureToken, visibility_text,
};
use crate::resolve::{
    function_name_text, function_resolves, identifier, resolve_function, resolve_struct,
    resource_of, struct_resolves,
};

verus! {

/// The body of `d`; a native function has none, and so no instructions.
pub open spec fn code_of(d: FunctionDefinition) -> Seq<Instruction> {
    match d.code {
        Some(c) => c@,
        None => Seq::empty(),
    }
}

/// Every handle that `ins` names resolves.
pub open spec fn instruction_resolves(t: ModuleTables, ins: Instruction) -> bool {
    match ins {
        Instruction::ImmBorrowGlobal(d) => struct_resolves(t, d),
        Instruction::MutBorrowGlobal(d) => struct_resolves(t, d),
        Instruction::Call(f) => function_resolves(t, f),
        Instruction::Other => true,
    }
}

/// The resources that `code` borrows immutably, in stream order, repeats kept.
pub open spec fn reads_of(t: ModuleTables, code: Seq<Instruction>) -> Seq<ResourceView>
    decreases code.len(),
{
    if code.len() == 0 {
        Seq::empty()
    } else {
        let rest = reads_of(t, code.drop_last());
        match code.last() {
            Instruction::ImmBorrowGlobal(d) => rest.push(resource_of(t, d)),
            _ => rest,
        }
    }
}

/// The resources that `code` borrows mutably, in stream order, repeats kept.
pub open spec fn writes_of(t: ModuleTables, code: Seq<Instruction>) -> Seq<ResourceView>
    decreases code.len(),
{
    if code.len() == 0 {
        Seq::empty()
    } else {
        let rest = writes_of(t, code.drop_last());
        match code.last() {
            Instruction::MutBorrowGlobal(d) => rest.push(resource_of(t, d)),
            _ => rest,
        }
    }
}

/// The qualified names of the functions that `code` calls, in stream order,
/// repeats kept.
pub open spec fn calls_of(t: ModuleTables, code: Seq<Instruction>) -> Seq<Seq<char>>
    decreases code.len(),
{
    if code.len() == 0 {
        Seq::empty()
    } else {
        let rest = calls_of(t, code.drop_last());
        match code.last() {
            Instruction::Call(f) => rest.push(function_name_text(t, f)),
            _ => rest,
        }
    }
}

/// The tags of a list of type descriptors.
pub open spec fn tags_of(ts: Seq<SignatureToken>) -> Seq<Seq<char>> {
    ts.map_values(|tok: SignatureToken| token_text(tok))
}

/// Every index that summarising `d` follows lies inside its table.
pub open spec fn definition_valid(t: ModuleTables, d: FunctionDefinition) -> bool {
    &&& d.function < t.function_handles.len()
    &&& t.function_handles@[d.function as int].name < t.identifiers.len()
    &&& t.function_handles@[d.function as int].parameters < t.signatures.len()
    &&& t.function_handles@[d.function as int].return_ < t.signatures.len()
    &&& forall|i: int| 0 <= i < code_of(d).len() ==> instruction_resolves(t, #[trigger] code_of(d)[i])
}

/// The summary of `d`, or `None` where one of its indices is out of range.
pub open spec fn summary(t: ModuleTables, d: FunctionDefinition) -> Option<FuncView> {
    if !definition_valid(t, d) {
        None
    } else {
        let h = t.function_handles@[d.function as int];
        Some(
            FuncView {
                name: identifier(t, h.name),
                visibility: visibility_text(d.visibility),
                is_entry: d.is_entry,
                generic_type_params: Seq::empty(),
                params: tags_of(t.signatures@[h.parameters as int]@),
                ret: tags_of(t.signatures@[h.return_ as int]@),
                read_resources: canonical::<Resource>(reads_of(t, code_of(d))),
                write_resources: canonical::<Resource>(writes_of(t, code_of(d))),
                called_functions: canonical::<String>(calls_of(t, code_of(d))),
            },
        )
    }
}

/// The summaries of `defs`, in order, with those that fail left out.
pub open spec fn summaries(t: ModuleTables, defs: Seq<FunctionDefinition>) -> Seq<FuncView>
    decreases defs.len(),
{
    if defs.len() == 0 {
        Seq::empty()
    } else {
        let rest = summaries(t, defs.drop_last());
        match summary(t, defs.last()) {
            Some(v) => rest.push(v),
            None => rest,
        }
    }
}

/// The global resources a function reads and writes, and the functions it
/// calls: each ascending, without repeats.
pub struct Accesses {
    pub reads: Vec<Resource>,
    pub writes: Vec<Resource>,
    pub calls: Vec<String>,
}

/// Scans the body of `func` once, in order, and collects what it borrows and
/// calls. Fails when a handle that an instruction names does not resolve.
pub fn scan_function(t: &ModuleTables, func: &FunctionDefinition) -> (r: Result<
    Accesses,
    InspectionError,
>)
    ensures
        r is Ok <==> forall|i: int|
            0 <= i < code_of(*func).len() ==> instruction_resolves(*t, #[trigger] code_of(*func)[i]),
        r is Ok ==> views(r->Ok_0.reads@) == canonical::<Resource>(reads_of(*t, code_of(*func))),
        r is Ok ==> views(r->Ok_0.writes@) == canonical::<Resource>(writes_of(*t, code_of(*func))),
        r is Ok ==> views(r->Ok_0.calls@) == canonical::<String>(calls_of(*t, code_of(*func))),
        r is Ok ==> strictly_ascending::<Resource>(views(r->Ok_0.reads@)),
        r is Ok ==> strictly_ascending::<Resource>(views(r->Ok_0.writes@)),
        r is Ok ==> strictly_ascending::<String>(views(r->Ok_0.calls@)),
        r is Ok && func.code is None ==> r->Ok_0.reads@.len() == 0 && r->Ok_0.writes@.len() == 0
            && r->Ok_0.calls@.len() == 0,
{
    let mut reads: Vec<Resource> = Vec::new();
    let mut writes: Vec<Resource> = Vec::new();
    let mut calls: Vec<String> = Vec::new();
    match &func.code {
        None => {},
        Some(code) => {
            let mut k: usize = 0;
            while k < code.len()
                invariant
                    k <= code.len(),
                    code@ == code_of(*func),
                    forall|i: int| 0 <= i < k ==> instruction_resolves(*t, #[trigger] code@[i]),
                    views(reads@) == reads_of(*t, code@.take(k as int)),
                    views(writes@) == writes_of(*t, code@.take(k as int)),
                    views(calls@) == calls_of(*t, code@.take(k as int)),
                decreases code.len() - k,
            {
                assert(code@.take(k as int + 1).drop_last() =~= code@.take(k as int));
                assert(code@.take(k as int + 1).last() == code@[k as int]);
                match code[k] {
                    Instruction::ImmBorrowGlobal(d) => {
                        let res = resolve_struct(t, d)?;
                        reads.push(res);
                        assert(views(reads@) =~= reads_of(*t, code@.take(k as int + 1)));
                    },
                    Instruction::MutBorrowGlobal(d) => {
                        let res = resolve_struct(t, d)?;
                        writes.push(res);
                        assert(views(writes@) =~= writes_of(*t, code@.take(k as int + 1)));
                    },
                    Instruction::Call(f) => {
                        let name = resolve_function(t, f)?;
                        calls.push(name);
                        assert(views(calls@) =~= calls_of(*t, code@.take(k as int + 1)));
                    },
                    Instruction::Other => {},
                }
                k = k + 1;
            }
            assert(code@.take(code.len() as int) =~= code@);
        },
    }
    proof {
        if func.code is None {
            assert(views(reads@) =~= Seq::<ResourceView>::empty());
            assert(views(writes@) =~= Seq::<ResourceView>::empty());
            assert(views(calls@) =~= Seq::<Seq<char>>::empty());
            lemma_canonical_empty::<Resource>();
            lemma_canonical_empty::<String>();
        }
    }
    let reads = canonicalize(reads);
    let writes = canonicalize(writes);
    let calls = canonicalize(calls);
    Ok(Accesses { reads, writes, calls })
}

/// The tags of `ts`, in order.
pub fn format_signature(ts: &Vec<SignatureToken>) -> (r: Vec<String>)
    ensures
        views(r@) == tags_of(ts@),
{
    let mut out: Vec<String> = Vec::new();
    let mut k: usize = 0;
    while k < ts.len()
        invariant
            k <= ts.len(),
            views(out@) =~= tags_of(ts@.take(k as int)),
        decreases ts.len() - k,
    {
        let s = format_signature_token(&ts[k]);
        let ghost prev = out@;
        out.push(s);
        assert(views(out@) =~= views(prev).push(token_text(ts@[k as int])));
        assert(tags_of(ts@.take(k as int + 1)) =~= tags_of(ts@.take(k as int)).push(
            token_text(ts@[k as int]),
        ));
        k = k + 1;
    }
    assert(ts@.take(ts.len() as int) =~= ts@);
    out
}

/// Summarises one function of `cm`.
pub fn inspect_function(cm: &Module, func: &FunctionDefinition) -> (r: Result<
    Func,
    InspectionError,
>)
    ensures
        r is Ok <==> definition_valid(cm.tables, *func),
        r is Ok ==> summary(cm.tables, *func) == Some(r->Ok_0@),
        r is Ok ==> r->Ok_0.generic_type_params@.len() == 0,
        r is Ok ==> strictly_ascending::<Resource>(views(r->Ok_0.read_resources@)),
        r is Ok ==> strictly_ascending::<Resource>(views(r->Ok_0.write_resources@)),
        r is Ok ==> strictly_ascending::<String>(views(r->Ok_0.called_functions@)),
        r is Ok && func.code is None ==> r->Ok_0.read_resources@.len() == 0
            && r->Ok_0.write_resources@.len() == 0 && r->Ok_0.called_functions@.len() == 0,
{
    let t = &cm.tables;
    if func.function as usize >= t.function_handles.len() {
        return Err(InspectionError::InvalidHandle);
    }
    let h = t.function_handles[func.function as usize];
    if h.name as usize >= t.identifiers.len() || h.parameters as usize >= t.signatures.len()
        || h.return_ as usize >= t.signatures.len() {
        return Err(InspectionError::InvalidHandle);
    }
    let acc = scan_function(t, func)?;
    let params = format_signature(&t.signatures[h.parameters as usize]);
    let ret = format_signature(&t.signatures[h.return_ as usize]);
    let f = Func {
        name: t.identifiers[h.name as usize].clone(),
        visibility: func.visibility.tag(),
        is_entry: func.is_entry,
        generic_type_params: Vec::new(),
        params,
        ret,
        read_resources: acc.reads,
        write_resources: acc.writes,
        called_functions: acc.calls,
    };
    assert(f@.generic_type_params =~= Seq::<Seq<char>>::empty());
    Ok(f)
}

/// Summarises every function of `m` in declaration order, leaving out those
/// that cannot be summarised.
pub fn inspect_module(m: &Module) -> (r: Vec<Func>)
    ensures
        views(r@) == summaries(m.tables, m.function_defs@),
{
    let mut out: Vec<Func> = Vec::new();
    let mut k: usize = 0;
    while k < m.function_defs.len()
        invariant
            k <= m.function_defs.len(),
            views(out@) == summaries(m.tables, m.function_defs@.take(k as int)),
        decreases m.function_defs.len() - k,
    {
        let ghost defs = m.function_defs@.take(k as int + 1);
        assert(defs.drop_last() =~= m.function_defs@.take(k as int));
        assert(defs.last() == m.function_defs@[k as int]);
        match inspect_function(m, &m.function_defs[k]) {
            Ok(f) => {
                out.push(f);
                assert(views(out@) =~= summaries(m.tables, defs));
            },
            Err(_) => {},
        }
        k = k + 1;
    }
    assert(m.function_defs@.take(m.function_defs.len() as int) =~= m.function_defs@);
    out
}

} // verus!
