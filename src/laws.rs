use vstd::prelude::*;
use crate::format::token_text;
use crate::inspect::{summaries, summary};
use crate::model::{FuncView, FunctionDefinition, Module, ModuleTables, SignatureToken};

verus! {

/// Rendering a type descriptor depends on the descriptor alone: equal
/// descriptors give the same text, however often they are rendered.
pub proof fn lemma_format_deterministic(a: SignatureToken, b: SignatureToken)
    requires
        a == b,
    ensures
        token_text(a) == token_text(b),
{
}

/// Summaries keep declaration order: the summaries of one list of
/// definitions followed by another are those of the first list followed by
/// those of the second.
pub proof fn lemma_summaries_concat(
    t: ModuleTables,
    a: Seq<FunctionDefinition>,
    b: Seq<FunctionDefinition>,
)
    ensures
        summaries(t, a + b) == summaries(t, a) + summaries(t, b),
    decreases b.len(),
{
    if b.len() == 0 {
        assert(a + b =~= a);
        assert(summaries(t, a) + summaries(t, b) =~= summaries(t, a));
    } else {
        assert((a + b).drop_last() =~= a + b.drop_last());
        assert((a + b).last() == b.last());
        lemma_summaries_concat(t, a, b.drop_last());
        match summary(t, b.last()) {
            Some(v) => {
                assert(summaries(t, a) + summaries(t, b) =~= (summaries(t, a) + summaries(
                    t,
                    b.drop_last(),
                )).push(v));
            },
            None => {},
        }
    }
}

/// Dropping a function that cannot be summarised from a module leaves the
/// summaries of all the others, and their order, unchanged.
pub proof fn lemma_drop_malformed(m: Module, m2: Module, k: int)
    requires
        0 <= k < m.function_defs.len(),
        summary(m.tables, m.function_defs@[k]) is None,
        m2.tables == m.tables,
        m2.function_defs@ == m.function_defs@.remove(k),
    ensures
        summaries(m2.tables, m2.function_defs@) == summaries(m.tables, m.function_defs@),
{
    let t = m.tables;
    let defs = m.function_defs@;
    let front = defs.take(k);
    let back = defs.skip(k + 1);
    let bad = seq![defs[k]];
    assert(defs =~= front + bad + back);
    assert(m2.function_defs@ =~= front + back);
    assert(bad.drop_last() =~= Seq::<FunctionDefinition>::empty());
    assert(bad.last() == defs[k]);
    assert(summaries(t, bad.drop_last()) == Seq::<FuncView>::empty());
    assert(summaries(t, bad) == Seq::<FuncView>::empty());
    lemma_summaries_concat(t, front, bad);
    lemma_summaries_concat(t, front + bad, back);
    lemma_summaries_concat(t, front, back);
    assert(summaries(t, front) + summaries(t, bad) =~= summaries(t, front));
}

} // verus!
