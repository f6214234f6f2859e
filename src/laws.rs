use vstd::prelude::*;

use crate::gap_buffer::{deleted, inserted, GapBuffer, GapBufferIterator};

verus! {

/// One edit of a buffer, as its effect on the content.
pub enum Edit {
    Insert { pos: nat, text: Seq<char> },
    Delete { pos: nat, count: nat },
    MoveGap { pos: nat },
}

/// The content after `e` is applied to content `c`.
pub open spec fn apply_edit(c: Seq<char>, e: Edit) -> Seq<char> {
    match e {
        Edit::Insert { pos, text } => inserted(c, pos as int, text),
        Edit::Delete { pos, count } => deleted(c, pos as int, count as int),
        Edit::MoveGap { .. } => c,
    }
}

/// `e` may be applied to content `c`.
pub open spec fn edit_allowed(c: Seq<char>, e: Edit) -> bool {
    match e {
        Edit::Insert { pos, .. } => pos <= c.len(),
        Edit::Delete { pos, count } => pos + count <= c.len(),
        Edit::MoveGap { .. } => true,
    }
}

/// The content after the edits `es` are applied to `c`, first to last.
pub open spec fn apply_edits(c: Seq<char>, es: Seq<Edit>) -> Seq<char>
    decreases es.len(),
{
    if es.len() == 0 {
        c
    } else {
        apply_edit(apply_edits(c, es.drop_last()), es.last())
    }
}

/// Each of the edits `es` may be applied where it comes.
pub open spec fn edits_allowed(c: Seq<char>, es: Seq<Edit>) -> bool
    decreases es.len(),
{
    if es.len() == 0 {
        true
    } else {
        edits_allowed(c, es.drop_last()) && edit_allowed(apply_edits(c, es.drop_last()), es.last())
    }
}

/// Characters inserted minus characters deleted by `es`.
pub open spec fn net_change(es: Seq<Edit>) -> int
    decreases es.len(),
{
    if es.len() == 0 {
        0
    } else {
        net_change(es.drop_last()) + match es.last() {
            Edit::Insert { text, .. } => text.len() as int,
            Edit::Delete { count, .. } => -(count as int),
            Edit::MoveGap { .. } => 0,
        }
    }
}

/// After any run of allowed inserts, deletes and gap moves, the content
/// length is the original length plus what was inserted minus what was
/// deleted.
pub proof fn lemma_length_follows_edits(c: Seq<char>, es: Seq<Edit>)
    requires
        edits_allowed(c, es),
    ensures
        apply_edits(c, es).len() == c.len() + net_change(es),
    decreases es.len(),
{
    if es.len() > 0 {
        lemma_length_follows_edits(c, es.drop_last());
    }
}

/// Deleting, at the same position, as many characters as were just
/// inserted there gives the original content back.
pub proof fn lemma_insert_then_delete(c: Seq<char>, pos: int, text: Seq<char>)
    requires
        0 <= pos <= c.len(),
    ensures
        deleted(inserted(c, pos, text), pos, text.len() as int) == c,
{
    let ins = inserted(c, pos, text);
    assert(ins.take(pos) =~= c.take(pos));
    assert(ins.skip(pos + text.len()) =~= c.skip(pos));
    assert(deleted(ins, pos, text.len() as int) =~= c);
}

/// A run of gap moves, with no insert or delete among them, leaves the
/// content as it was.
pub proof fn lemma_gap_moves_keep_content(c: Seq<char>, es: Seq<Edit>)
    requires
        forall|i: int| 0 <= i < es.len() ==> es[i] is MoveGap,
    ensures
        apply_edits(c, es) == c,
    decreases es.len(),
{
    if es.len() > 0 {
        lemma_gap_moves_keep_content(c, es.drop_last());
    }
}

/// A walk over a buffer built from text `t`, from its start, hands out `t`
/// exactly, character for character.
pub proof fn lemma_walk_gives_text(t: Seq<char>, b: GapBuffer, it: GapBufferIterator)
    requires
        b@ == t,
        it.content() == b@,
        it.position() == 0,
    ensures
        it.remaining() == t,
{
    assert(it.remaining() =~= t);
}

/// Reading position `i` gives the `i`-th character that a walk from the
/// start hands out.
pub proof fn lemma_index_matches_walk(b: GapBuffer, it: GapBufferIterator, i: int)
    requires
        it.content() == b@,
        it.position() == 0,
        0 <= i < b@.len(),
    ensures
        it.remaining()[i] == b@[i],
{
}

} // verus!
