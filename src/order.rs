use vstd::prelude::*;
use crate::model::{Resource, ResourceView};

verus! {

/// A type whose views are strictly and totally ordered, with an executable
/// comparison.
pub trait Ordered: View + Sized {
    spec fn less(a: Self::V, b: Self::V) -> bool;

    proof fn lemma_strict_total_order(a: Self::V, b: Self::V, c: Self::V)
        ensures
            !Self::less(a, a),
            Self::less(a, b) && Self::less(b, c) ==> Self::less(a, c),
            Self::less(a, b) || Self::less(b, a) || a == b,
    ;

    fn is_less(&self, other: &Self) -> (r: bool)
        ensures
            r == Self::less(self@, other@),
    ;
}

/// Lexicographic order of `a` and `b` from position `i` on, characters
/// compared by code point.
pub open spec fn less_from(a: Seq<char>, b: Seq<char>, i: nat) -> bool
    decreases a.len() - i,
{
    if i >= a.len() {
        i < b.len()
    } else if i >= b.len() {
        false
    } else if a[i as int] < b[i as int] {
        true
    } else if a[i as int] > b[i as int] {
        false
    } else {
        less_from(a, b, i + 1)
    }
}

/// Lexicographic order of text, as `String` compares.
pub open spec fn text_less(a: Seq<char>, b: Seq<char>) -> bool {
    less_from(a, b, 0)
}

proof fn lemma_less_from_irreflexive(a: Seq<char>, i: nat)
    ensures
        !less_from(a, a, i),
    decreases a.len() - i,
{
    if i < a.len() {
        lemma_less_from_irreflexive(a, i + 1);
    }
}

proof fn lemma_less_from_transitive(a: Seq<char>, b: Seq<char>, c: Seq<char>, i: nat)
    requires
        less_from(a, b, i),
        less_from(b, c, i),
    ensures
        less_from(a, c, i),
    decreases a.len() - i,
{
    if i < a.len() && i < b.len() && i < c.len() && a[i as int] == b[i as int] && b[i as int]
        == c[i as int] {
        lemma_less_from_transitive(a, b, c, i + 1);
    }
}

proof fn lemma_less_from_total(a: Seq<char>, b: Seq<char>, i: nat)
    requires
        i <= a.len(),
        i <= b.len(),
    ensures
        less_from(a, b, i) || less_from(b, a, i) || (a.len() == b.len() && forall|j: int|
            i <= j < a.len() ==> a[j] == b[j]),
    decreases a.len() - i,
{
    if i < a.len() && i < b.len() && a[i as int] == b[i as int] {
        lemma_less_from_total(a, b, i + 1);
        assert(a[i as int] == b[i as int]);
    }
}

/// `text_less` is a strict total order.
pub proof fn lemma_text_order(a: Seq<char>, b: Seq<char>, c: Seq<char>)
    ensures
        !text_less(a, a),
        text_less(a, b) && text_less(b, c) ==> text_less(a, c),
        text_less(a, b) || text_less(b, a) || a == b,
{
    lemma_less_from_irreflexive(a, 0);
    if text_less(a, b) && text_less(b, c) {
        lemma_less_from_transitive(a, b, c, 0);
    }
    lemma_less_from_total(a, b, 0);
    if !text_less(a, b) && !text_less(b, a) {
        assert(a =~= b);
    }
}

/// Compares two strings lexicographically by code point.
pub fn string_less(a: &String, b: &String) -> (r: bool)
    ensures
        r == text_less(a@, b@),
{
    let sa = a.as_str();
    let sb = b.as_str();
    let la = sa.unicode_len();
    let lb = sb.unicode_len();
    let mut i: usize = 0;
    while i < la && i < lb && sa.get_char(i) == sb.get_char(i)
        invariant
            i <= la,
            la == a@.len(),
            lb == b@.len(),
            sa@ == a@,
            sb@ == b@,
            text_less(a@, b@) == less_from(a@, b@, i as nat),
        decreases la - i,
    {
        i = i + 1;
    }
    if i >= la {
        i < lb
    } else if i >= lb {
        false
    } else {
        sa.get_char(i) < sb.get_char(i)
    }
}

impl Ordered for String {
    open spec fn less(a: Seq<char>, b: Seq<char>) -> bool {
        text_less(a, b)
    }

    proof fn lemma_strict_total_order(a: Seq<char>, b: Seq<char>, c: Seq<char>) {
        lemma_text_order(a, b, c);
    }

    fn is_less(&self, other: &Self) -> (r: bool) {
        string_less(self, other)
    }
}

/// Order of resources: by module address, then module name, then resource name.
pub open spec fn resource_less(a: ResourceView, b: ResourceView) -> bool {
    text_less(a.module_addr, b.module_addr) || (a.module_addr == b.module_addr && (text_less(
        a.module_name,
        b.module_name,
    ) || (a.module_name == b.module_name && text_less(a.resource_name, b.resource_name))))
}

impl Ordered for Resource {
    open spec fn less(a: ResourceView, b: ResourceView) -> bool {
        resource_less(a, b)
    }

    proof fn lemma_strict_total_order(a: ResourceView, b: ResourceView, c: ResourceView) {
        lemma_text_order(a.module_addr, b.module_addr, c.module_addr);
        lemma_text_order(a.module_name, b.module_name, c.module_name);
        lemma_text_order(a.resource_name, b.resource_name, c.resource_name);
    }

    fn is_less(&self, other: &Self) -> (r: bool) {
        if string_less(&self.module_addr, &other.module_addr) {
            true
        } else if self.module_addr != other.module_addr {
            false
        } else if string_less(&self.module_name, &other.module_name) {
            true
        } else if self.module_name != other.module_name {
            false
        } else {
            string_less(&self.resource_name, &other.resource_name)
        }
    }
}

} // verus!
