//! Moving a statement from one place of the tree to another.
use vstd::prelude::*;
use crate::ast::{Statement, StatementView, statements_view};
use crate::structs::MoveRequest;
use crate::tree::{inserted_at, lemma_remove_missing, removed_at, statement_at};
use crate::utils::{insert_statement_at_path, is_prefix, remove_statement_at_path, starts_with};

verus! {

/// `target`, a path that addresses a list in the tree as it was before the
/// statement at `removed` was taken out, rewritten to address the same list
/// afterwards: where `target` passes through a later statement of the list
/// that held the removed one, its index there is one less.
pub open spec fn adjusted_path(target: Seq<usize>, removed: Seq<usize>) -> Seq<usize> {
    if removed.len() == 0 {
        target
    } else {
        let k = removed.len() - 1;
        if target.len() > k && target.subrange(0, k) == removed.subrange(0, k) && target[k]
            > removed[k] {
            target.update(k, (target[k] - 1) as usize)
        } else {
            target
        }
    }
}

/// The position at which a moved statement is inserted: one less than
/// requested where it is moved within its own list to a later position,
/// since taking it out shifted the later statements.
pub open spec fn adjusted_index(src: Seq<usize>, target: Seq<usize>, insert_idx: usize) -> usize {
    if src.len() == target.len() + 1 && is_prefix(target, src) && src.last() < insert_idx {
        (insert_idx - 1) as usize
    } else {
        insert_idx
    }
}

/// The tree after a move: unchanged where `src` addresses no statement;
/// else the statement at `src` is taken out and inserted into the list
/// that the adjusted target path addresses, at the adjusted index.
pub open spec fn moved(
    blocks: Seq<StatementView>,
    src: Seq<usize>,
    target: Seq<usize>,
    insert_idx: usize,
) -> Seq<StatementView> {
    match statement_at(blocks, src) {
        None => blocks,
        Some(s) => inserted_at(
            removed_at(blocks, src),
            adjusted_path(target, src),
            adjusted_index(src, target, insert_idx),
            s,
        ),
    }
}

/// Rewrites `target_path`, which addresses a list in the tree before the
/// statement at `removed_path` was taken out, so that it addresses the same
/// list afterwards.
pub fn adjust_path_after_removal(target_path: &[usize], removed_path: &[usize]) -> (adjusted: Vec<
    usize,
>)
    ensures
        adjusted@ == adjusted_path(target_path@, removed_path@),
{
    let mut adjusted: Vec<usize> = Vec::new();
    let tn = target_path.len();
    let mut i: usize = 0;
    while i < tn
        invariant
            tn == target_path@.len(),
            0 <= i <= tn,
            adjusted@ == target_path@.subrange(0, i as int),
        decreases tn - i,
    {
        adjusted.push(target_path[i]);
        i = i + 1;
    }
    assert(adjusted@ =~= target_path@);
    if removed_path.len() == 0 {
        return adjusted;
    }
    let k = removed_path.len() - 1;
    if tn <= k {
        return adjusted;
    }
    let mut j: usize = 0;
    while j < k
        invariant
            0 <= j <= k,
            k < tn,
            k < removed_path@.len(),
            k == removed_path@.len() - 1,
            tn == target_path@.len(),
            adjusted@ == target_path@,
            forall|m: int| 0 <= m < j ==> target_path@[m] == removed_path@[m],
        decreases k - j,
    {
        if target_path[j] != removed_path[j] {
            assert(target_path@.subrange(0, k as int)[j as int] != removed_path@.subrange(
                0,
                k as int,
            )[j as int]);
            return adjusted;
        }
        j = j + 1;
    }
    assert(target_path@.subrange(0, k as int) =~= removed_path@.subrange(0, k as int));
    if target_path[k] > removed_path[k] {
        adjusted.set(k, target_path[k] - 1);
    }
    adjusted
}

/// Carries out a move request on `blocks`: takes the statement at the
/// request's source path out and, if there was one, inserts it into the
/// list that the adjusted target path addresses, at the adjusted index.
pub fn apply_move_request(blocks: &mut Vec<Statement>, req: &MoveRequest)
    ensures
        statements_view(final(blocks)@) == moved(
            statements_view(old(blocks)@),
            req.src_path@,
            req.target_path@,
            req.insert_idx,
        ),
{
    if let Some(moved_block) = remove_statement_at_path(blocks, req.src_path.as_slice()) {
        let adjusted_target_path = adjust_path_after_removal(
            req.target_path.as_slice(),
            req.src_path.as_slice(),
        );
        let mut adjusted_idx = req.insert_idx;
        let src_len = req.src_path.len();
        if src_len > 0 && src_len - 1 == req.target_path.len() && starts_with(
            req.src_path.as_slice(),
            req.target_path.as_slice(),
        ) && req.src_path[src_len - 1] < req.insert_idx {
            adjusted_idx = adjusted_idx - 1;
        }
        insert_statement_at_path(
            blocks,
            adjusted_target_path.as_slice(),
            adjusted_idx,
            moved_block,
        );
    } else {
        proof {
            lemma_remove_missing(statements_view(old(blocks)@), req.src_path@);
        }
    }
}

} // verus!
