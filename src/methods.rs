use vstd::prelude::*;
use crate::text::{chars_of, chars_equal};

verus! {

/// Number of HTTP methods the statistics keep apart.
pub const METHOD_COUNT: usize = 5;

/// The methods in reporting order.
pub open spec fn method_name(i: int) -> Seq<char> {
    if i == 0 {
        seq!['H', 'E', 'A', 'D']
    } else if i == 1 {
        seq!['G', 'E', 'T']
    } else if i == 2 {
        seq!['P', 'O', 'S', 'T']
    } else if i == 3 {
        seq!['P', 'U', 'T']
    } else {
        seq!['D', 'E', 'L', 'E', 'T', 'E']
    }
}

/// Position of `m` among the known methods (exact, case-sensitive match).
pub open spec fn method_slot(m: Seq<char>) -> Option<int> {
    if m == method_name(0) {
        Some(0)
    } else if m == method_name(1) {
        Some(1)
    } else if m == method_name(2) {
        Some(2)
    } else if m == method_name(3) {
        Some(3)
    } else if m == method_name(4) {
        Some(4)
    } else {
        None
    }
}

/// Each known method name is found at its own position.
pub proof fn lemma_method_slots()
    ensures
        forall|i: int| 0 <= i < METHOD_COUNT ==> method_slot(#[trigger] method_name(i)) == Some(i),
{
    assert(method_name(0) != method_name(1));
    assert(method_name(0) != method_name(2));
    assert(method_name(0) != method_name(3));
    assert(method_name(0) != method_name(4));
    assert(method_name(1) != method_name(2));
    assert(method_name(1) != method_name(3));
    assert(method_name(1) != method_name(4));
    assert(method_name(2) != method_name(3));
    assert(method_name(2) != method_name(4));
    assert(method_name(3) != method_name(4));
}

/// The characters of the method at position `i`.
pub fn method_chars(i: usize) -> (r: Vec<char>)
    requires
        i < METHOD_COUNT,
    ensures
        r@ == method_name(i as int),
{
    let r = if i == 0 {
        vec!['H', 'E', 'A', 'D']
    } else if i == 1 {
        vec!['G', 'E', 'T']
    } else if i == 2 {
        vec!['P', 'O', 'S', 'T']
    } else if i == 3 {
        vec!['P', 'U', 'T']
    } else {
        vec!['D', 'E', 'L', 'E', 'T', 'E']
    };
    assert(r@ =~= method_name(i as int));
    r
}

/// Position of a method name among the known methods.
pub fn slot_of_chars(m: &Vec<char>) -> (r: Option<usize>)
    ensures
        match r {
            Some(i) => method_slot(m@) == Some(i as int),
            None => method_slot(m@) is None,
        },
{
    let mut i: usize = 0;
    while i < METHOD_COUNT
        invariant
            i <= METHOD_COUNT,
            forall|j: int| 0 <= j < i ==> m@ != method_name(j),
        decreases METHOD_COUNT - i,
    {
        let name = method_chars(i);
        if chars_equal(m, &name) {
            return Some(i);
        }
        i = i + 1;
    }
    None
}

/// Position of a method name among the known methods.
pub fn method_slot_of(method: &str) -> (r: Option<usize>)
    ensures
        match r {
            Some(i) => method_slot(method@) == Some(i as int),
            None => method_slot(method@) is None,
        },
{
    let c = chars_of(method);
    slot_of_chars(&c)
}

} // verus!
