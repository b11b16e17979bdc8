//! A column of cells, each an address or not.

use vstd::prelude::*;

verus! {

/// The addresses of a column, in order, skipping the cells that are not
/// addresses.
pub open spec fn present(col: Seq<Option<u128>>) -> Seq<u128>
    decreases col.len(),
{
    if col.len() == 0 {
        Seq::empty()
    } else {
        match col.last() {
            Some(a) => present(col.drop_last()).push(a),
            None => present(col.drop_last()),
        }
    }
}

/// An address is in `present(col)` exactly when some cell holds it.
pub proof fn lemma_present_contains(col: Seq<Option<u128>>, a: u128)
    ensures
        present(col).contains(a) <==> col.contains(Some(a)),
    decreases col.len(),
{
    if col.len() > 0 {
        let p = col.drop_last();
        lemma_present_contains(p, a);
        if col.contains(Some(a)) {
            let i = choose|i: int| 0 <= i < col.len() && col[i] == Some(a);
            if i < col.len() - 1 {
                assert(p[i] == Some(a));
                let j = choose|j: int| 0 <= j < present(p).len() && present(p)[j] == a;
                match col.last() {
                    Some(b) => assert(present(col)[j] == a),
                    None => assert(present(col)[j] == a),
                }
            } else {
                assert(present(col)[present(col).len() - 1] == a);
            }
        }
        if present(col).contains(a) {
            let j = choose|j: int| 0 <= j < present(col).len() && present(col)[j] == a;
            match col.last() {
                Some(b) => {
                    if j < present(p).len() {
                        assert(present(p)[j] == a);
                        let i = choose|i: int| 0 <= i < p.len() && p[i] == Some(a);
                        assert(col[i] == Some(a));
                    } else {
                        assert(col[col.len() - 1] == Some(a));
                    }
                },
                None => {
                    assert(present(p)[j] == a);
                    let i = choose|i: int| 0 <= i < p.len() && p[i] == Some(a);
                    assert(col[i] == Some(a));
                },
            }
        }
    }
}

/// A column has at least as many cells as addresses.
pub proof fn lemma_present_len(col: Seq<Option<u128>>)
    ensures
        present(col).len() <= col.len(),
    decreases col.len(),
{
    if col.len() > 0 {
        lemma_present_len(col.drop_last());
    }
}

} // verus!
