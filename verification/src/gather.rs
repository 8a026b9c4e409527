//! The children of a structure, gathered by what they are.
//!
//! A structure is read child by child, in the order of the document. The
//! children that are wanted are read, the others are passed over, and the
//! first child that cannot be read ends the reading with its failure.

use vstd::prelude::*;
use crate::error::ErrorView;
use crate::table::TableView;
use crate::tree::StructureView;

verus! {

/// What the wanted ones of the first `n` children are, each read by `read`,
/// in their order.
pub open spec fn collect<V>(
    children: Seq<StructureView>,
    n: int,
    wanted: spec_fn(StructureView) -> bool,
    read: spec_fn(StructureView) -> Result<V, ErrorView>,
) -> Result<Seq<V>, ErrorView>
    decreases n,
{
    if n <= 0 || n > children.len() {
        Ok(Seq::empty())
    } else {
        match collect(children, n - 1, wanted, read) {
            Err(e) => Err(e),
            Ok(before) => if wanted(children[n - 1]) {
                match read(children[n - 1]) {
                    Err(e) => Err(e),
                    Ok(v) => Ok(before.push(v)),
                }
            } else {
                Ok(before)
            },
        }
    }
}

/// The table of what the wanted ones of the first `n` children are, each
/// read by `read` and entered under the name that it is read with. A name
/// that is read twice ends the reading.
pub open spec fn tabulate<V>(
    children: Seq<StructureView>,
    n: int,
    wanted: spec_fn(StructureView) -> bool,
    read: spec_fn(StructureView) -> Result<(Seq<char>, V), ErrorView>,
) -> Result<TableView<V>, ErrorView>
    decreases n,
{
    if n <= 0 || n > children.len() {
        Ok(TableView::empty())
    } else {
        match tabulate(children, n - 1, wanted, read) {
            Err(e) => Err(e),
            Ok(before) => if wanted(children[n - 1]) {
                match read(children[n - 1]) {
                    Err(e) => Err(e),
                    Ok((name, v)) => match before.declared(Some(name)) {
                        Err(e) => Err(e),
                        Ok(_) => Ok(before.with(Some(name), v)),
                    },
                }
            } else {
                Ok(before)
            },
        }
    }
}

/// The children with this tag.
pub open spec fn tagged(tag: Seq<char>) -> spec_fn(StructureView) -> bool {
    |c: StructureView| c.tag == tag
}

/// What is gathered from some children is gathered from all of them, where
/// that fails.
pub proof fn lemma_collect_fails<V>(
    children: Seq<StructureView>,
    n: int,
    m: int,
    wanted: spec_fn(StructureView) -> bool,
    read: spec_fn(StructureView) -> Result<V, ErrorView>,
)
    requires
        0 <= n <= m <= children.len(),
        collect(children, n, wanted, read) is Err,
    ensures
        collect(children, m, wanted, read) == collect(children, n, wanted, read),
    decreases m - n,
{
    if n < m {
        lemma_collect_fails(children, n, m - 1, wanted, read);
    }
}

/// What is tabulated from some children is tabulated from all of them,
/// where that fails.
pub proof fn lemma_tabulate_fails<V>(
    children: Seq<StructureView>,
    n: int,
    m: int,
    wanted: spec_fn(StructureView) -> bool,
    read: spec_fn(StructureView) -> Result<(Seq<char>, V), ErrorView>,
)
    requires
        0 <= n <= m <= children.len(),
        tabulate(children, n, wanted, read) is Err,
    ensures
        tabulate(children, m, wanted, read) == tabulate(children, n, wanted, read),
    decreases m - n,
{
    if n < m {
        lemma_tabulate_fails(children, n, m - 1, wanted, read);
    }
}

/// A table that is tabulated is well formed, and holds no more entries than
/// there were children.
pub proof fn lemma_tabulate_wf<V>(
    children: Seq<StructureView>,
    n: int,
    wanted: spec_fn(StructureView) -> bool,
    read: spec_fn(StructureView) -> Result<(Seq<char>, V), ErrorView>,
)
    requires
        0 <= n <= children.len() <= usize::MAX,
        tabulate(children, n, wanted, read) is Ok,
    ensures
        tabulate(children, n, wanted, read)->Ok_0.wf(),
        tabulate(children, n, wanted, read)->Ok_0.names.len() <= n,
    decreases n,
{
    if n > 0 {
        let before = tabulate(children, n - 1, wanted, read);
        lemma_tabulate_wf(children, n - 1, wanted, read);
        if wanted(children[n - 1]) {
            let (name, v) = read(children[n - 1])->Ok_0;
            crate::table::lemma_declared_then_resolved(before->Ok_0, name, v);
        }
    }
}

/// The number of wanted ones among the first `n` children.
pub open spec fn wanted_among(
    children: Seq<StructureView>,
    n: int,
    wanted: spec_fn(StructureView) -> bool,
) -> nat
    decreases n,
{
    if n <= 0 || n > children.len() {
        0
    } else if wanted(children[n - 1]) {
        wanted_among(children, n - 1, wanted) + 1
    } else {
        wanted_among(children, n - 1, wanted)
    }
}

/// What is gathered holds one entry for each wanted child.
pub proof fn lemma_collect_len<V>(
    children: Seq<StructureView>,
    n: int,
    wanted: spec_fn(StructureView) -> bool,
    read: spec_fn(StructureView) -> Result<V, ErrorView>,
)
    requires
        0 <= n <= children.len(),
        collect(children, n, wanted, read) is Ok,
    ensures
        collect(children, n, wanted, read)->Ok_0.len() == wanted_among(children, n, wanted),
    decreases n,
{
    if n > 0 {
        lemma_collect_len(children, n - 1, wanted, read);
    }
}

/// Gathering keeps the order of the document: the wanted child at position
/// `i` is read into the entry that follows the entries of the wanted
/// children before it.
pub proof fn lemma_collect_keeps_order<V>(
    children: Seq<StructureView>,
    n: int,
    wanted: spec_fn(StructureView) -> bool,
    read: spec_fn(StructureView) -> Result<V, ErrorView>,
    i: int,
)
    requires
        0 <= i < n <= children.len(),
        collect(children, n, wanted, read) is Ok,
        wanted(children[i]),
    ensures
        wanted_among(children, i, wanted) < collect(children, n, wanted, read)->Ok_0.len(),
        read(children[i]) == Ok::<V, ErrorView>(
            collect(children, n, wanted, read)->Ok_0[wanted_among(children, i, wanted) as int],
        ),
    decreases n,
{
    lemma_collect_len(children, n - 1, wanted, read);
    if i < n - 1 {
        lemma_collect_keeps_order(children, n - 1, wanted, read, i);
    }
}

} // verus!
