//! What holds of the tree edits and of the code they render, across calls.
use vstd::prelude::*;
use crate::ast::{ExprView, Op, StatementView, Type};
use crate::renderer::{dropped_into, operand_type};
use crate::structs::{DraggedBlock, InferResult};
use crate::utils::inferred_type;
use crate::visual::op_name;
use crate::code::{adjusted_index, adjusted_path, moved};
use crate::tree::{body_of, inserted_at, list_at, removed_at, statement_at, with_body};
use crate::utils::{is_prefix, is_proper_prefix};
use crate::visual::{expr_code, indent_text, statement_code, statements_code};

verus! {

proof fn lemma_with_body_twice(s: StatementView, a: Seq<StatementView>, b: Seq<StatementView>)
    requires
        body_of(s) is Some,
    ensures
        body_of(with_body(s, a)) == Some(a),
        with_body(with_body(s, a), b) == with_body(s, b),
{
}

/// Putting a statement that was taken out back where it was gives the tree
/// as it was: for a path `p` that addresses statement `s`, inserting `s`
/// into the list that `p` goes through, at `p`'s last index, undoes the
/// removal at `p`.
pub proof fn law_insert_undoes_remove(blocks: Seq<StatementView>, p: Seq<usize>)
    requires
        statement_at(blocks, p) is Some,
    ensures
        inserted_at(
            removed_at(blocks, p),
            p.drop_last(),
            p.last(),
            statement_at(blocks, p)->0,
        ) == blocks,
    decreases p.len(),
{
    let i = p[0] as int;
    let s = statement_at(blocks, p)->0;
    if p.len() == 1 {
        assert(blocks.remove(i).insert(i, blocks[i]) =~= blocks);
    } else {
        let b = body_of(blocks[i])->0;
        let rest = p.drop_first();
        law_insert_undoes_remove(b, rest);
        let r = removed_at(b, rest);
        lemma_with_body_twice(blocks[i], r, b);
        assert(p.drop_last().drop_first() =~= rest.drop_last());
        assert(rest.last() == p.last());
        assert(statement_at(b, rest) == Some(s));
        assert(with_body(blocks[i], b) == blocks[i]);
        assert(blocks.update(i, with_body(blocks[i], r)).update(i, blocks[i]) =~= blocks);
    }
}

/// The position at which an insertion into a list of length `len` at
/// `idx` lands: `idx`, or the end of the list where `idx` is past it.
pub open spec fn landing_index(len: nat, idx: usize) -> usize {
    if idx <= len {
        idx
    } else {
        len as usize
    }
}

/// An inserted statement can be found, and taken out again, where it
/// landed: for a path `t` that addresses a list, after inserting `s` into
/// it at `idx`, the path `t` extended by the landing position addresses
/// `s`, and removing there gives the tree as it was.
pub proof fn law_remove_undoes_insert(
    blocks: Seq<StatementView>,
    t: Seq<usize>,
    idx: usize,
    s: StatementView,
)
    requires
        list_at(blocks, t) is Some,
    ensures
        ({
            let q = t.push(landing_index(list_at(blocks, t)->0.len(), idx));
            &&& statement_at(inserted_at(blocks, t, idx, s), q) == Some(s)
            &&& removed_at(inserted_at(blocks, t, idx, s), q) == blocks
        }),
    decreases t.len(),
{
    let l = list_at(blocks, t)->0;
    let pos = landing_index(l.len(), idx);
    let q = t.push(pos);
    if t.len() == 0 {
        assert(q =~= seq![pos]);
        assert(blocks.insert(pos as int, s).remove(pos as int) =~= blocks);
    } else {
        let i = t[0] as int;
        let b = body_of(blocks[i])->0;
        let rest = t.drop_first();
        law_remove_undoes_insert(b, rest, idx, s);
        let ins = inserted_at(b, rest, idx, s);
        assert(q.drop_first() =~= rest.push(pos));
        lemma_with_body_twice(blocks[i], ins, b);
        assert(with_body(blocks[i], b) == blocks[i]);
        assert(blocks.update(i, with_body(blocks[i], ins)).update(i, blocks[i]) =~= blocks);
    }
}

/// Inserting into the list that a path addresses makes that list the old
/// list with the statement inserted at the landing position.
pub proof fn lemma_list_after_insert(
    blocks: Seq<StatementView>,
    t: Seq<usize>,
    idx: usize,
    s: StatementView,
)
    requires
        list_at(blocks, t) is Some,
    ensures
        list_at(inserted_at(blocks, t, idx, s), t) == Some(
            list_at(blocks, t)->0.insert(
                landing_index(list_at(blocks, t)->0.len(), idx) as int,
                s,
            ),
        ),
    decreases t.len(),
{
    if t.len() > 0 {
        let i = t[0] as int;
        let b = body_of(blocks[i])->0;
        lemma_list_after_insert(b, t.drop_first(), idx, s);
        lemma_with_body_twice(blocks[i], inserted_at(b, t.drop_first(), idx, s), b);
    }
}

proof fn lemma_adjusted_path_step(t: Seq<usize>, src: Seq<usize>)
    requires
        t.len() > 0,
        src.len() > 1,
        t[0] == src[0],
    ensures
        adjusted_path(t, src) == seq![t[0]] + adjusted_path(t.drop_first(), src.drop_first()),
        adjusted_path(t, src).len() == t.len(),
{
    let k = src.len() - 1;
    let tt = t.drop_first();
    let st = src.drop_first();
    if t.len() > k {
        if t.subrange(0, k) == src.subrange(0, k) {
            assert(tt.subrange(0, k - 1) =~= st.subrange(0, k - 1)) by {
                assert forall|m: int| 0 <= m < k - 1 implies #[trigger] tt.subrange(0, k - 1)[m] == st.subrange(
                    0,
                    k - 1,
                )[m] by {
                    assert(t.subrange(0, k)[m + 1] == src.subrange(0, k)[m + 1]);
                }
            }
        } else {
            assert(tt.subrange(0, k - 1) != st.subrange(0, k - 1)) by {
                if tt.subrange(0, k - 1) == st.subrange(0, k - 1) {
                    assert forall|m: int| 0 <= m < k implies #[trigger] t.subrange(0, k)[m] == src.subrange(
                        0,
                        k,
                    )[m] by {
                        if m > 0 {
                            assert(tt.subrange(0, k - 1)[m - 1] == st.subrange(0, k - 1)[m - 1]);
                        }
                    }
                    assert(t.subrange(0, k) =~= src.subrange(0, k));
                }
            }
        }
    }
    assert(adjusted_path(t, src) =~= seq![t[0]] + adjusted_path(tt, st));
}

/// After the statement at `src` is taken out, the adjusted target path
/// addresses the list that `target` addressed before: unchanged, or, where
/// `target` addresses a list that `src` passes through, with the statement
/// taken out of it. This holds for every target that does not lie inside
/// the removed statement or equal its path.
pub proof fn law_adjusted_path_keeps_list(
    blocks: Seq<StatementView>,
    src: Seq<usize>,
    target: Seq<usize>,
)
    requires
        statement_at(blocks, src) is Some,
        list_at(blocks, target) is Some,
        !is_prefix(src, target),
    ensures
        list_at(removed_at(blocks, src), adjusted_path(target, src)) == Some(
            if is_prefix(target, src) {
                removed_at(list_at(blocks, target)->0, src.skip(target.len() as int))
            } else {
                list_at(blocks, target)->0
            },
        ),
    decreases src.len(),
{
    let i0 = src[0] as int;
    let removed = removed_at(blocks, src);
    if target.len() == 0 {
        assert(src.skip(0) =~= src);
        assert(target =~= src.subrange(0, 0));
    } else if src.len() == 1 {
        let t0 = target[0] as int;
        if t0 == i0 {
            assert(target.subrange(0, 1) =~= src);
        }
        assert(src.subrange(0, 0) =~= target.subrange(0, 0));
        let adj = adjusted_path(target, src);
        assert(adj.drop_first() =~= target.drop_first());
        assert(!is_prefix(target, src)) by {
            if is_prefix(target, src) {
                assert(target =~= src);
            }
        }
        if t0 > i0 {
            assert(removed[t0 - 1] == blocks[t0]);
        } else {
            assert(removed[t0] == blocks[t0]);
        }
    } else {
        let t0 = target[0] as int;
        if t0 != i0 {
            let k = src.len() - 1;
            if target.len() > k {
                assert(target.subrange(0, k)[0] != src.subrange(0, k)[0]);
            }
            assert(adjusted_path(target, src) == target);
            assert(!is_prefix(target, src)) by {
                if is_prefix(target, src) {
                    assert(src.subrange(0, target.len() as int)[0] == target[0]);
                }
            }
        } else {
            let b = body_of(blocks[i0])->0;
            let st = src.drop_first();
            let tt = target.drop_first();
            assert(!is_prefix(st, tt)) by {
                if is_prefix(st, tt) {
                    assert forall|m: int| 0 <= m < src.len() implies #[trigger] target.subrange(
                        0,
                        src.len() as int,
                    )[m] == src[m] by {
                        if m > 0 {
                            assert(tt.subrange(0, st.len() as int)[m - 1] == st[m - 1]);
                        }
                    }
                    assert(target.subrange(0, src.len() as int) =~= src);
                }
            }
            law_adjusted_path_keeps_list(b, st, tt);
            lemma_adjusted_path_step(target, src);
            let r = removed_at(b, st);
            lemma_with_body_twice(blocks[i0], r, b);
            let adj = adjusted_path(target, src);
            assert(adj.drop_first() =~= adjusted_path(tt, st));
            assert(is_prefix(target, src) == is_prefix(tt, st)) by {
                if is_prefix(target, src) {
                    assert forall|m: int| 0 <= m < tt.len() implies #[trigger] st.subrange(
                        0,
                        tt.len() as int,
                    )[m] == tt[m] by {
                        assert(src.subrange(0, target.len() as int)[m + 1] == target[m + 1]);
                    }
                    assert(st.subrange(0, tt.len() as int) =~= tt);
                }
                if is_prefix(tt, st) {
                    assert forall|m: int| 0 <= m < target.len() implies #[trigger] src.subrange(
                        0,
                        target.len() as int,
                    )[m] == target[m] by {
                        if m > 0 {
                            assert(st.subrange(0, tt.len() as int)[m - 1] == tt[m - 1]);
                        }
                    }
                    assert(src.subrange(0, target.len() as int) =~= target);
                }
            }
            if is_prefix(target, src) {
                assert(src.skip(target.len() as int) =~= st.skip(tt.len() as int));
            }
        }
    }
}

/// A move puts the moved statement where it was asked to go: after moving
/// the statement `s` at `src` into the list at `target`, before position
/// `insert_idx`, the list that the adjusted target path addresses is the
/// target list (with `s` taken out of it, where `s` stood in it or below
/// it) with `s` inserted at the adjusted position. This holds for every
/// target that does not lie inside `s` or equal its path.
pub proof fn law_move_lands_at_target(
    blocks: Seq<StatementView>,
    src: Seq<usize>,
    target: Seq<usize>,
    insert_idx: usize,
)
    requires
        statement_at(blocks, src) is Some,
        list_at(blocks, target) is Some,
        !is_prefix(src, target),
    ensures
        ({
            let s = statement_at(blocks, src)->0;
            let l = if is_prefix(target, src) {
                removed_at(list_at(blocks, target)->0, src.skip(target.len() as int))
            } else {
                list_at(blocks, target)->0
            };
            let pos = landing_index(l.len(), adjusted_index(src, target, insert_idx));
            list_at(moved(blocks, src, target, insert_idx), adjusted_path(target, src)) == Some(
                l.insert(pos as int, s),
            )
        }),
{
    law_adjusted_path_keeps_list(blocks, src, target);
    let removed = removed_at(blocks, src);
    let adj = adjusted_path(target, src);
    lemma_list_after_insert(
        removed,
        adj,
        adjusted_index(src, target, insert_idx),
        statement_at(blocks, src)->0,
    );
}

/// No path lies inside itself, and if `a` lies inside `b`, `b` does not
/// lie inside `a`.
pub proof fn law_ancestor_strict(a: Seq<usize>, b: Seq<usize>)
    ensures
        !is_proper_prefix(a, a),
        is_proper_prefix(a, b) ==> !is_proper_prefix(b, a),
{
}

/// What lies inside something that lies inside `c` lies inside `c`.
pub proof fn law_ancestor_transitive(a: Seq<usize>, b: Seq<usize>, c: Seq<usize>)
    requires
        is_proper_prefix(a, b),
        is_proper_prefix(b, c),
    ensures
        is_proper_prefix(a, c),
{
    assert forall|m: int| 0 <= m < a.len() implies #[trigger] c.subrange(0, a.len() as int)[m]
        == a[m] by {
        assert(c.subrange(0, b.len() as int)[m] == b[m]);
        assert(b.subrange(0, a.len() as int)[m] == a[m]);
    }
    assert(c.subrange(0, a.len() as int) =~= a);
}

/// An empty program has empty code, and the code of two lists of
/// statements one after the other is the code of the first followed by
/// the code of the second.
pub proof fn law_code_of_concatenation(
    a: Seq<StatementView>,
    b: Seq<StatementView>,
    level: nat,
    floats: Seq<(u64, String)>,
)
    ensures
        statements_code(Seq::empty(), level, floats) == Seq::<char>::empty(),
        statements_code(a + b, level, floats) == statements_code(a, level, floats)
            + statements_code(b, level, floats),
    decreases b.len(),
{
    if b.len() == 0 {
        assert(a + b =~= a);
        assert(statements_code(a, level, floats) + Seq::<char>::empty() =~= statements_code(
            a,
            level,
            floats,
        ));
    } else {
        law_code_of_concatenation(a, b.drop_last(), level, floats);
        assert((a + b).drop_last() =~= a + b.drop_last());
        assert((a + b).last() == b.last());
        assert(statements_code(a, level, floats) + statements_code(b.drop_last(), level, floats)
            + crate::visual::statement_code(b.last(), level, floats) =~= statements_code(
            a,
            level,
            floats,
        ) + (statements_code(b.drop_last(), level, floats) + crate::visual::statement_code(
            b.last(),
            level,
            floats,
        )));
    }
}

/// The number of statements in a list, nested ones included.
pub open spec fn statements_size(stmts: Seq<StatementView>) -> nat
    decreases stmts,
{
    if stmts.len() == 0 {
        0
    } else {
        statements_size(stmts.drop_last()) + statement_size(stmts.last())
    }
}

/// The number of statements in a statement: itself and those nested in it.
pub open spec fn statement_size(s: StatementView) -> nat
    decreases s,
{
    match s {
        StatementView::If(_, b) => 1 + statements_size(b),
        StatementView::Loop(_, b) => 1 + statements_size(b),
        StatementView::While(_, b) => 1 + statements_size(b),
        _ => 1,
    }
}

proof fn lemma_size_concat(a: Seq<StatementView>, b: Seq<StatementView>)
    ensures
        statements_size(a + b) == statements_size(a) + statements_size(b),
    decreases b.len(),
{
    if b.len() == 0 {
        assert(a + b =~= a);
    } else {
        lemma_size_concat(a, b.drop_last());
        assert((a + b).drop_last() =~= a + b.drop_last());
    }
}

proof fn lemma_size_split(s: Seq<StatementView>, i: int)
    requires
        0 <= i < s.len(),
    ensures
        statements_size(s) == statements_size(s.take(i)) + statement_size(s[i])
            + statements_size(s.skip(i + 1)),
        statements_size(s.remove(i)) == statements_size(s.take(i)) + statements_size(
            s.skip(i + 1),
        ),
{
    assert(s =~= s.take(i) + seq![s[i]] + s.skip(i + 1));
    assert(s.remove(i) =~= s.take(i) + s.skip(i + 1));
    let one = seq![s[i]];
    assert(one.drop_last() =~= Seq::<StatementView>::empty());
    assert(statements_size(one.drop_last()) == 0);
    assert(one.last() == s[i]);
    assert(statements_size(one) == statement_size(s[i]));
    lemma_size_concat(s.take(i) + seq![s[i]], s.skip(i + 1));
    lemma_size_concat(s.take(i), seq![s[i]]);
    lemma_size_concat(s.take(i), s.skip(i + 1));
}

proof fn lemma_size_update(s: Seq<StatementView>, i: int, x: StatementView)
    requires
        0 <= i < s.len(),
    ensures
        statements_size(s.update(i, x)) + statement_size(s[i]) == statements_size(s)
            + statement_size(x),
{
    lemma_size_split(s, i);
    lemma_size_split(s.update(i, x), i);
    assert(s.update(i, x).take(i) =~= s.take(i));
    assert(s.update(i, x).skip(i + 1) =~= s.skip(i + 1));
}

proof fn lemma_size_insert(s: Seq<StatementView>, i: int, x: StatementView)
    requires
        0 <= i <= s.len(),
    ensures
        statements_size(s.insert(i, x)) == statements_size(s) + statement_size(x),
{
    lemma_size_split(s.insert(i, x), i);
    assert(s.insert(i, x).take(i) =~= s.take(i));
    assert(s.insert(i, x).skip(i + 1) =~= s.skip(i));
    assert(s =~= s.take(i) + s.skip(i));
    lemma_size_concat(s.take(i), s.skip(i));
}

proof fn lemma_size_with_body(s: StatementView, b: Seq<StatementView>)
    requires
        body_of(s) is Some,
    ensures
        statement_size(with_body(s, b)) == 1 + statements_size(b),
        statement_size(s) == 1 + statements_size(body_of(s)->0),
{
}

proof fn lemma_size_after_remove(blocks: Seq<StatementView>, p: Seq<usize>)
    requires
        statement_at(blocks, p) is Some,
    ensures
        statements_size(removed_at(blocks, p)) + statement_size(statement_at(blocks, p)->0)
            == statements_size(blocks),
    decreases p.len(),
{
    let i = p[0] as int;
    if p.len() == 1 {
        lemma_size_split(blocks, i);
    } else {
        let b = body_of(blocks[i])->0;
        lemma_size_after_remove(b, p.drop_first());
        let r = removed_at(b, p.drop_first());
        lemma_size_with_body(blocks[i], r);
        lemma_size_update(blocks, i, with_body(blocks[i], r));
    }
}

proof fn lemma_size_after_insert(
    blocks: Seq<StatementView>,
    t: Seq<usize>,
    idx: usize,
    s: StatementView,
)
    requires
        list_at(blocks, t) is Some,
    ensures
        statements_size(inserted_at(blocks, t, idx, s)) == statements_size(blocks)
            + statement_size(s),
    decreases t.len(),
{
    if t.len() == 0 {
        let pos = if idx <= blocks.len() {
            idx as int
        } else {
            blocks.len() as int
        };
        lemma_size_insert(blocks, pos, s);
    } else {
        let i = t[0] as int;
        let b = body_of(blocks[i])->0;
        lemma_size_after_insert(b, t.drop_first(), idx, s);
        let ins = inserted_at(b, t.drop_first(), idx, s);
        lemma_size_with_body(blocks[i], ins);
        lemma_size_update(blocks, i, with_body(blocks[i], ins));
    }
}

/// A move neither loses nor duplicates statements: the program has as
/// many statements, nested ones included, after a move as before, for
/// every target that does not lie inside the moved statement or equal its
/// path.
pub proof fn law_move_keeps_size(
    blocks: Seq<StatementView>,
    src: Seq<usize>,
    target: Seq<usize>,
    insert_idx: usize,
)
    requires
        statement_at(blocks, src) is Some,
        list_at(blocks, target) is Some,
        !is_prefix(src, target),
    ensures
        statements_size(moved(blocks, src, target, insert_idx)) == statements_size(blocks),
{
    law_adjusted_path_keeps_list(blocks, src, target);
    lemma_size_after_remove(blocks, src);
    lemma_size_after_insert(
        removed_at(blocks, src),
        adjusted_path(target, src),
        adjusted_index(src, target, insert_idx),
        statement_at(blocks, src)->0,
    );
}

/// `text` with two spaces put at the start of each of its lines;
/// `at_start` tells whether `text` begins a line.
pub open spec fn indented(text: Seq<char>, at_start: bool) -> Seq<char>
    decreases text.len(),
{
    if text.len() == 0 {
        Seq::empty()
    } else {
        (if at_start {
            "  "@
        } else {
            Seq::empty()
        }) + seq![text[0]] + indented(text.drop_first(), text[0] == '\n')
    }
}

/// Whether `t` holds no line break.
pub open spec fn single_line(t: Seq<char>) -> bool {
    forall|i: int| 0 <= i < t.len() ==> t[i] != '\n'
}

/// Whether `t` is made of whole lines: empty, or ending in a line break.
pub open spec fn whole_lines(t: Seq<char>) -> bool {
    t.len() == 0 || t.last() == '\n'
}

/// Whether the code of each expression of `s`, and the name that a `Let`
/// assigns, hold no line break.
pub open spec fn statement_single_line_parts(s: StatementView, floats: Seq<(u64, String)>) -> bool
    decreases s,
{
    match s {
        StatementView::Move(e) => single_line(expr_code(e, floats)),
        StatementView::Turn(e) => single_line(expr_code(e, floats)),
        StatementView::Dig(e) => single_line(expr_code(e, floats)),
        StatementView::Print(e) => single_line(expr_code(e, floats)),
        StatementView::Sleep(e) => single_line(expr_code(e, floats)),
        StatementView::Let(n, e) => single_line(n) && single_line(expr_code(e, floats)),
        StatementView::Send(e) => single_line(expr_code(e, floats)),
        StatementView::Receive(e) => single_line(expr_code(e, floats)),
        StatementView::If(c, b) => single_line(expr_code(c, floats)) && statements_single_line_parts(
            b,
            floats,
        ),
        StatementView::Loop(c, b) => single_line(expr_code(c, floats))
            && statements_single_line_parts(b, floats),
        StatementView::While(c, b) => single_line(expr_code(c, floats))
            && statements_single_line_parts(b, floats),
    }
}

/// `statement_single_line_parts` for every statement of a list, nested
/// ones included.
pub open spec fn statements_single_line_parts(
    stmts: Seq<StatementView>,
    floats: Seq<(u64, String)>,
) -> bool
    decreases stmts,
{
    stmts.len() == 0 || (statements_single_line_parts(stmts.drop_last(), floats)
        && statement_single_line_parts(stmts.last(), floats))
}

proof fn lemma_indented_concat(a: Seq<char>, b: Seq<char>, st: bool)
    ensures
        indented(a + b, st) == indented(a, st) + indented(
            b,
            if a.len() == 0 {
                st
            } else {
                a.last() == '\n'
            },
        ),
    decreases a.len(),
{
    if a.len() == 0 {
        assert(a + b =~= b);
        assert(indented(a, st) + indented(b, st) =~= indented(b, st));
    } else {
        let pre: Seq<char> = if st {
            "  "@
        } else {
            Seq::empty()
        };
        let t = a.drop_first();
        lemma_indented_concat(t, b, a[0] == '\n');
        assert((a + b).drop_first() =~= t + b);
        assert((a + b)[0] == a[0]);
        if t.len() > 0 {
            assert(t.last() == a.last());
        }
        assert(pre + seq![a[0]] + (indented(t, a[0] == '\n') + indented(
            b,
            if a.len() == 0 {
                st
            } else {
                a.last() == '\n'
            },
        )) =~= (pre + seq![a[0]] + indented(t, a[0] == '\n')) + indented(
            b,
            if a.len() == 0 {
                st
            } else {
                a.last() == '\n'
            },
        ));
    }
}

proof fn lemma_indented_single_line(x: Seq<char>)
    requires
        single_line(x),
    ensures
        indented(x, false) == x,
    decreases x.len(),
{
    if x.len() > 0 {
        lemma_indented_single_line(x.drop_first());
        assert(Seq::<char>::empty() + seq![x[0]] + x.drop_first() =~= x);
    }
}

/// The line `text` at indentation `level`.
pub open spec fn line(level: nat, text: Seq<char>) -> Seq<char> {
    indent_text(level) + text + "\n"@
}

proof fn lemma_indent_text_front(level: nat)
    ensures
        indent_text(level + 1) == "  "@ + indent_text(level),
        single_line(indent_text(level)),
    decreases level,
{
    reveal_strlit("  ");
    if level > 0 {
        lemma_indent_text_front((level - 1) as nat);
        assert(indent_text(level + 1) =~= "  "@ + indent_text(level));
    } else {
        assert(indent_text(1) =~= "  "@ + indent_text(0));
    }
}

proof fn lemma_single_line_concat(a: Seq<char>, b: Seq<char>)
    requires
        single_line(a),
        single_line(b),
    ensures
        single_line(a + b),
{
    assert forall|i: int| 0 <= i < (a + b).len() implies #[trigger] (a + b)[i] != '\n' by {
        if i >= a.len() {
            assert((a + b)[i] == b[i - a.len()]);
        }
    }
}

proof fn lemma_line_deeper(level: nat, text: Seq<char>)
    requires
        single_line(text),
    ensures
        line(level + 1, text) == indented(line(level, text), true),
        whole_lines(line(level, text)),
{
    reveal_strlit("\n");
    reveal_strlit("  ");
    lemma_indent_text_front(level);
    let x = indent_text(level) + text;
    lemma_single_line_concat(indent_text(level), text);
    assert(line(level, text) =~= x + seq!['\n']);
    lemma_indented_concat(x, seq!['\n'], true);
    let nl = seq!['\n'];
    assert(nl.drop_first() =~= Seq::<char>::empty());
    assert(indented(nl.drop_first(), true) == Seq::<char>::empty());
    if x.len() == 0 {
        assert(indented(x, true) =~= Seq::<char>::empty());
        assert(indented(nl, true) =~= "  "@ + nl);
        assert(line(level + 1, text) =~= "  "@ + x + nl);
    } else {
        lemma_indented_single_line(x.drop_first());
        assert(indented(x, true) =~= "  "@ + x);
        assert(indented(nl, false) =~= nl);
        assert(line(level + 1, text) =~= "  "@ + x + nl);
    }
}

proof fn lemma_whole_lines_concat(a: Seq<char>, b: Seq<char>)
    requires
        whole_lines(a),
        whole_lines(b),
    ensures
        whole_lines(a + b),
        indented(a + b, true) == indented(a, true) + indented(b, true),
{
    lemma_indented_concat(a, b, true);
    if b.len() > 0 {
        assert((a + b).last() == b.last());
    } else {
        assert(a + b =~= a);
    }
}

/// The text that opens a statement's first line, before its expression.
pub open spec fn keyword(s: StatementView) -> Seq<char> {
    match s {
        StatementView::Print(_) => "print "@,
        StatementView::Move(_) => "move "@,
        StatementView::Turn(_) => "turn "@,
        StatementView::Dig(_) => "dig "@,
        StatementView::Sleep(_) => "sleep "@,
        StatementView::Receive(_) => "receive "@,
        StatementView::Send(_) => "send "@,
        StatementView::Let(n, _) => n + " = "@,
        StatementView::If(_, _) => "if "@,
        StatementView::Loop(_, _) => "loop "@,
        StatementView::While(_, _) => "while "@,
    }
}

/// The expression whose code follows the keyword.
pub open spec fn head_expr(s: StatementView) -> crate::ast::ExprView {
    match s {
        StatementView::Print(e) => e,
        StatementView::Move(e) => e,
        StatementView::Turn(e) => e,
        StatementView::Dig(e) => e,
        StatementView::Sleep(e) => e,
        StatementView::Receive(e) => e,
        StatementView::Send(e) => e,
        StatementView::Let(_, e) => e,
        StatementView::If(e, _) => e,
        StatementView::Loop(e, _) => e,
        StatementView::While(e, _) => e,
    }
}

/// The code of a program of one statement: a simple statement is one line
/// of its keyword and expression; a nesting statement is that line, its
/// body one level deeper, and an `end` line.
pub proof fn law_statement_code_shape(s: StatementView, level: nat, floats: Seq<(u64, String)>)
    ensures
        statements_code(seq![s], level, floats) == statement_code(s, level, floats),
        body_of(s) is None ==> statement_code(s, level, floats) == line(
            level,
            keyword(s) + expr_code(head_expr(s), floats),
        ),
        body_of(s) is Some ==> statement_code(s, level, floats) == line(
            level,
            keyword(s) + expr_code(head_expr(s), floats),
        ) + statements_code(body_of(s)->0, level + 1, floats) + line(level, "end"@),
{
    reveal_strlit("end");
    reveal_strlit("end\n");
    reveal_strlit("\n");
    let one = seq![s];
    assert(one.drop_last() =~= Seq::<StatementView>::empty());
    assert(statements_code(one.drop_last(), level, floats) == Seq::<char>::empty());
    assert(one.last() == s);
    assert(statements_code(one, level, floats) =~= statement_code(s, level, floats));
    let t = keyword(s) + expr_code(head_expr(s), floats);
    match s {
        StatementView::Let(n, e) => {
            assert(statement_code(s, level, floats) =~= line(level, t));
        },
        StatementView::If(c, b) => {
            assert(statement_code(s, level, floats) =~= line(level, t) + statements_code(
                b,
                level + 1,
                floats,
            ) + line(level, "end"@));
        },
        StatementView::Loop(c, b) => {
            assert(statement_code(s, level, floats) =~= line(level, t) + statements_code(
                b,
                level + 1,
                floats,
            ) + line(level, "end"@));
        },
        StatementView::While(c, b) => {
            assert(statement_code(s, level, floats) =~= line(level, t) + statements_code(
                b,
                level + 1,
                floats,
            ) + line(level, "end"@));
        },
        _ => {
            assert(statement_code(s, level, floats) =~= line(level, t));
        },
    }
}

proof fn lemma_keyword_single_line(s: StatementView, floats: Seq<(u64, String)>)
    requires
        statement_single_line_parts(s, floats),
    ensures
        single_line(keyword(s) + expr_code(head_expr(s), floats)),
{
    reveal_strlit("print ");
    reveal_strlit("move ");
    reveal_strlit("turn ");
    reveal_strlit("dig ");
    reveal_strlit(" = ");
    reveal_strlit("sleep ");
    reveal_strlit("receive ");
    reveal_strlit("send ");
    reveal_strlit("loop ");
    reveal_strlit("while ");
    reveal_strlit("if ");
    if let StatementView::Let(n, _) = s {
        lemma_single_line_concat(n, " = "@);
    }
    assert(single_line(keyword(s)));
    lemma_single_line_concat(keyword(s), expr_code(head_expr(s), floats));
}

proof fn lemma_statement_deeper(s: StatementView, level: nat, floats: Seq<(u64, String)>)
    requires
        statement_single_line_parts(s, floats),
    ensures
        statement_code(s, level + 1, floats) == indented(statement_code(s, level, floats), true),
        whole_lines(statement_code(s, level, floats)),
    decreases s, 0nat,
{
    law_statement_code_shape(s, level, floats);
    law_statement_code_shape(s, level + 1, floats);
    lemma_keyword_single_line(s, floats);
    let t = keyword(s) + expr_code(head_expr(s), floats);
    match s {
        StatementView::If(_, b) => lemma_block_deeper(level, t, b, floats),
        StatementView::Loop(_, b) => lemma_block_deeper(level, t, b, floats),
        StatementView::While(_, b) => lemma_block_deeper(level, t, b, floats),
        _ => lemma_line_deeper(level, t),
    }
}

proof fn lemma_block_deeper(
    level: nat,
    h: Seq<char>,
    b: Seq<StatementView>,
    floats: Seq<(u64, String)>,
)
    requires
        single_line(h),
        statements_single_line_parts(b, floats),
    ensures
        line(level + 1, h) + statements_code(b, level + 2, floats) + line(level + 1, "end"@)
            == indented(line(level, h) + statements_code(b, level + 1, floats) + line(level, "end"@), true),
        whole_lines(line(level, h) + statements_code(b, level + 1, floats) + line(level, "end"@)),
    decreases b, 1nat,
{
    reveal_strlit("end");
    law_deeper_indent_shifts_lines(b, level + 1, floats);
    let head = line(level, h);
    let inner = statements_code(b, level + 1, floats);
    let tail = line(level, "end"@);
    assert(single_line("end"@));
    lemma_line_deeper(level, h);
    lemma_line_deeper(level, "end"@);
    lemma_whole_lines_concat(head, inner);
    lemma_whole_lines_concat(head + inner, tail);
}

/// One more level of indentation puts two spaces at the start of every
/// line of a program's code, and that code is made of whole lines, where
/// no expression's code and no assigned name holds a line break.
pub proof fn law_deeper_indent_shifts_lines(
    stmts: Seq<StatementView>,
    level: nat,
    floats: Seq<(u64, String)>,
)
    requires
        statements_single_line_parts(stmts, floats),
    ensures
        statements_code(stmts, level + 1, floats) == indented(
            statements_code(stmts, level, floats),
            true,
        ),
        whole_lines(statements_code(stmts, level, floats)),
    decreases stmts, 0nat,
{
    if stmts.len() > 0 {
        law_deeper_indent_shifts_lines(stmts.drop_last(), level, floats);
        lemma_statement_deeper(stmts.last(), level, floats);
        lemma_whole_lines_concat(
            statements_code(stmts.drop_last(), level, floats),
            statement_code(stmts.last(), level, floats),
        );
    }
}

proof fn lemma_statement_in_list(blocks: Seq<StatementView>, t: Seq<usize>, i: usize)
    requires
        list_at(blocks, t) is Some,
        i < list_at(blocks, t)->0.len(),
    ensures
        statement_at(blocks, t.push(i)) == Some(list_at(blocks, t)->0[i as int]),
    decreases t.len(),
{
    if t.len() == 0 {
        assert(t.push(i) =~= seq![i]);
    } else {
        let b = body_of(blocks[t[0] as int])->0;
        lemma_statement_in_list(b, t.drop_first(), i);
        assert(t.push(i).drop_first() =~= t.drop_first().push(i));
    }
}

/// Moving a statement within its own list, at any depth of the tree: the
/// statement at position `i` of the list at `t`, dropped before the
/// statement at position `p` of that list, ends up directly before it;
/// that is, at `p - 1` when it came from an earlier position, since taking
/// it out shifted the later ones, and at `p` otherwise. The rest of the
/// list keeps its order.
pub proof fn law_move_within_list(
    blocks: Seq<StatementView>,
    t: Seq<usize>,
    i: usize,
    p: usize,
)
    requires
        list_at(blocks, t) is Some,
        i < list_at(blocks, t)->0.len(),
        p <= list_at(blocks, t)->0.len(),
    ensures
        ({
            let l = list_at(blocks, t)->0;
            list_at(moved(blocks, t.push(i), t, p), t) == Some(
                if i < p {
                    l.remove(i as int).insert(p - 1, l[i as int])
                } else {
                    l.remove(i as int).insert(p as int, l[i as int])
                },
            )
        }),
{
    let l = list_at(blocks, t)->0;
    let src = t.push(i);
    lemma_statement_in_list(blocks, t, i);
    assert(src.subrange(0, t.len() as int) =~= t);
    assert(!is_prefix(src, t));
    assert(is_prefix(t, src));
    law_move_lands_at_target(blocks, src, t, p);
    assert(src.skip(t.len() as int) =~= seq![i]);
    assert(removed_at(l, seq![i]) == l.remove(i as int));
    assert(adjusted_path(t, src) == t);
    assert(src.last() == i);
}

/// A new statement dropped on a list at any position from its start to its
/// end, the end included, is inserted there: the list grows by one and
/// holds the statement at that position.
pub proof fn law_drop_new_statement_inserts(
    s: crate::ast::Statement,
    blocks: Seq<StatementView>,
    idx: usize,
)
    requires
        idx <= blocks.len(),
    ensures
        dropped_into(DraggedBlock::NewStatement(s), blocks, idx) == blocks.insert(idx as int, s@),
        dropped_into(DraggedBlock::NewStatement(s), blocks, idx).len() == blocks.len() + 1,
        dropped_into(DraggedBlock::NewStatement(s), blocks, idx)[idx as int] == s@,
{
}

/// Whatever the shape of an expression, when the language's type checker
/// finds a type for the expression itself, that type is what inference
/// gives.
pub proof fn law_checker_type_wins(e: ExprView, checks: Seq<Option<Type>>, t: Type)
    requires
        checks.len() > 0,
        checks[0] == Some(t),
    ensures
        inferred_type(e, checks) == InferResult::Type(t),
{
}

/// Comparisons and arithmetic take numbers as operands, and only `And`
/// and `Or` take booleans.
pub proof fn law_operand_types(op: Op)
    ensures
        operand_type(op) == Type::Boolean <==> (op == Op::And || op == Op::Or),
        operand_type(op) == Type::Uint <==> !(op == Op::And || op == Op::Or),
        (op == Op::Eq || op == Op::Neq || op == Op::Lt || op == Op::Gt || op == Op::Le || op
            == Op::Ge) ==> operand_type(op) == Type::Uint,
{
}

proof fn lemma_op_names_distinct(a: Op, b: Op)
    requires
        op_name(a) == op_name(b),
    ensures
        a == b,
{
    reveal_strlit("Eq");
    reveal_strlit("Neq");
    reveal_strlit("Lt");
    reveal_strlit("Gt");
    reveal_strlit("Le");
    reveal_strlit("Ge");
    reveal_strlit("And");
    reveal_strlit("Or");
    reveal_strlit("Add");
    reveal_strlit("Sub");
    reveal_strlit("Mul");
    reveal_strlit("Div");
    if a != b {
        let x = op_name(a);
        let y = op_name(b);
        assert(x.len() != y.len() || x[0] != y[0] || x[1] != y[1] || (x.len() == 3 && x[2]
            != y[2]));
    }
}

/// The code of a binary expression names its operator by the operator's
/// own name, and distinct operators are written differently: two binary
/// expressions with the same operands and the same code have the same
/// operator.
pub proof fn law_binary_code_names_operator(
    op1: Op,
    op2: Op,
    l: ExprView,
    r: ExprView,
    floats: Seq<(u64, String)>,
)
    ensures
        op_name(Op::Eq) == "Eq"@ && op_name(Op::Neq) == "Neq"@ && op_name(Op::Lt) == "Lt"@
            && op_name(Op::Gt) == "Gt"@ && op_name(Op::Le) == "Le"@ && op_name(Op::Ge) == "Ge"@
            && op_name(Op::And) == "And"@ && op_name(Op::Or) == "Or"@ && op_name(Op::Add)
            == "Add"@ && op_name(Op::Sub) == "Sub"@ && op_name(Op::Mul) == "Mul"@ && op_name(
            Op::Div,
        ) == "Div"@,
        expr_code(ExprView::Binary(op1, Box::new(l), Box::new(r)), floats) == expr_code(
            ExprView::Binary(op2, Box::new(l), Box::new(r)),
            floats,
        ) ==> op1 == op2,
{
    let cl = expr_code(l, floats);
    let cr = expr_code(r, floats);
    let c1 = expr_code(ExprView::Binary(op1, Box::new(l), Box::new(r)), floats);
    let c2 = expr_code(ExprView::Binary(op2, Box::new(l), Box::new(r)), floats);
    if c1 == c2 {
        let n1 = op_name(op1);
        let n2 = op_name(op2);
        assert(c1 =~= cl + " "@ + n1 + " "@ + cr);
        assert(c2 =~= cl + " "@ + n2 + " "@ + cr);
        reveal_strlit(" ");
        let k: int = cl.len() as int + 1;
        assert(" "@.len() == 1);
        assert(c1.len() == cl.len() + 1 + n1.len() + 1 + cr.len());
        assert(c2.len() == cl.len() + 1 + n2.len() + 1 + cr.len());
        assert(n1.len() == n2.len());
        assert(n1 =~= c1.subrange(k, k + n1.len() as int));
        assert(n2 =~= c2.subrange(k, k + n2.len() as int));
        lemma_op_names_distinct(op1, op2);
    }
}

} // verus!
