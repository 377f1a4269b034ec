//! Laws of the tag-editing model, proved from the contracts of its
//! operations.

use vstd::prelude::*;
use crate::frame_data::id_of_name;
use crate::order::lemma_sorted_order;
use crate::rename::{
    all_resolve, filled, filling, first_with_id, hole_names, hole_texts, joined,
    lemma_template_filled, piece_text, placeholder_name, plain, resolved_text, template_name,
    well_formed, Piece,
};
use crate::seqs::{
    lemma_filter_none, lemma_filter_push, lemma_filter_remove, lemma_filter_within,
};
use crate::state::main_state::{
    adds, affected, all_toggled, any_unselected, clamped, drops_description, edit_committed,
    fanned, fresh_frame, has_path, inserts, is_text_frame, merged, moved, name_keys, projection,
    redescribes, refreshed, renamed, Entry, MainState,
};
use crate::tag::{
    first_conflict, frame_added, frames_conflict, has_unread_rival, is_link_pair_id, not_id,
    outlives,
    survives_description, tag_frames, with_frame, ContentView, FrameView,
};
use crate::util::{lemma_next_wraps, lemma_prev_wraps, next_times, prev_times};

verus! {

/// A cursor moved `steps` times through a list of `len` items.
pub open spec fn moved_times(cursor: Option<usize>, len: nat, forward: bool, steps: nat) -> Option<
    usize,
>
    decreases steps,
{
    if steps == 0 {
        cursor
    } else {
        moved(moved_times(cursor, len, forward, (steps - 1) as nat), len, forward)
    }
}

proof fn lemma_moved_times(i: usize, len: nat, forward: bool, steps: nat)
    requires
        i < len,
        len <= usize::MAX,
    ensures
        moved_times(Some(i), len, forward, steps) == Some(
            (if forward {
                next_times(i as int, len as int, steps)
            } else {
                prev_times(i as int, len as int, steps)
            }) as usize,
        ),
        0 <= next_times(i as int, len as int, steps) < len,
        0 <= prev_times(i as int, len as int, steps) < len,
    decreases steps,
{
    if steps > 0 {
        lemma_moved_times(i, len, forward, (steps - 1) as nat);
    }
}

/// In a list of `len` items, as many steps as there are items bring a
/// highlight back to the item it started on, forward and backward alike.
pub proof fn lemma_navigation_wraps(i: usize, len: nat, forward: bool)
    requires
        i < len,
        len <= usize::MAX,
    ensures
        moved_times(Some(i), len, forward, len) == Some(i),
{
    lemma_moved_times(i, len, forward, len);
    lemma_next_wraps(i as int, len as int);
    lemma_prev_wraps(i as int, len as int);
}

/// Merging one entry whose path the working set already holds leaves the
/// working set as it is, so its length does not change.
pub proof fn lemma_duplicate_rejected(existing: Seq<Entry>, entry: Entry)
    requires
        has_path(existing, entry.path@),
    ensures
        merged(existing, seq![entry]) == existing,
        merged(existing, seq![entry]).len() == existing.len(),
{
    let one = seq![entry];
    assert(one.drop_last() =~= Seq::<Entry>::empty());
    assert(merged(existing, one.drop_last()) == existing);
    assert(one.last() == entry);
}

/// Merging an entry whose path is new puts it last.
pub proof fn lemma_new_path_joins(existing: Seq<Entry>, entry: Entry)
    requires
        !has_path(existing, entry.path@),
    ensures
        merged(existing, seq![entry]) == existing.push(entry),
{
    let one = seq![entry];
    assert(one.drop_last() =~= Seq::<Entry>::empty());
    assert(merged(existing, one.drop_last()) == existing);
    assert(one.last() == entry);
}

/// Whether no two entries share a path.
pub open spec fn paths_distinct(files: Seq<Entry>) -> bool {
    forall|i: int, j: int|
        0 <= i < j < files.len() ==> (#[trigger] files[i]).path@ != (#[trigger] files[j]).path@
}

/// A working set without a path held twice stays so under any merge, keeps
/// every entry it had, and grows by at most the number of entries that
/// arrive.
pub proof fn lemma_merge_keeps_paths_distinct(existing: Seq<Entry>, incoming: Seq<Entry>)
    requires
        paths_distinct(existing),
    ensures
        paths_distinct(merged(existing, incoming)),
        existing.len() <= merged(existing, incoming).len() <= existing.len() + incoming.len(),
        merged(existing, incoming).subrange(0, existing.len() as int) == existing,
    decreases incoming.len(),
{
    if incoming.len() == 0 {
        assert(existing.subrange(0, existing.len() as int) =~= existing);
    } else {
        lemma_merge_keeps_paths_distinct(existing, incoming.drop_last());
        let so_far = merged(existing, incoming.drop_last());
        let result = merged(existing, incoming);
        if !has_path(so_far, incoming.last().path@) {
            assert(result == so_far.push(incoming.last()));
            assert forall|i: int, j: int| 0 <= i < j < result.len() implies (
            #[trigger] result[i]).path@ != (#[trigger] result[j]).path@ by {
                if j == so_far.len() {
                    assert(so_far[i].path@ != incoming.last().path@);
                } else {
                    assert(result[i] == so_far[i] && result[j] == so_far[j]);
                }
            }
            assert(result.subrange(0, existing.len() as int) =~= so_far.subrange(
                0,
                existing.len() as int,
            ));
        }
    }
}

/// A committed edit reaches the highlighted entry and every selected entry,
/// whose tags then hold the new frame, and no other entry: those are
/// exactly as before.
pub proof fn lemma_edit_fans_out(a: MainState, b: MainState, added: FrameView, i: int)
    requires
        edit_committed(a, b, adds(added)),
        0 <= i < a.files@.len(),
    ensures
        b.files@.len() == a.files@.len(),
        affected(a.files@, a.files_state, i) ==> tag_frames(b.files@[i].tag).contains(added)
            && tag_frames(b.files@[i].tag).last() == added,
        !affected(a.files@, a.files_state, i) ==> b.files@[i] == a.files@[i],
        b.files@[i].path == a.files@[i].path,
        b.files@[i].filename == a.files@[i].filename,
        b.files@[i].selected == a.files@[i].selected,
        tag_frames(b.files@[i].tag).filter(not_id(added.id)) == tag_frames(a.files@[i].tag).filter(
            not_id(added.id),
        ),
{
    let after = tag_frames(b.files@[i].tag);
    if affected(a.files@, a.files_state, i) {
        assert(frame_added(tag_frames(a.files@[i].tag), added, after));
        assert(after[after.len() - 1] == added);
    } else {
        assert(b.files@[i].path == a.files@[i].path);
    }
}

proof fn lemma_no_frame_with_id(frames: Seq<FrameView>, id: Seq<char>)
    requires
        first_with_id(frames, id) is None,
    ensures
        forall|j: int| 0 <= j < frames.len() ==> (#[trigger] frames[j]).id != id,
    decreases frames.len(),
{
    if frames.len() > 0 {
        let rest = frames.drop_first();
        lemma_no_frame_with_id(rest, id);
        assert forall|j: int| 0 <= j < frames.len() implies (#[trigger] frames[j]).id != id by {
            if j > 0 {
                assert(rest[j - 1] == frames[j]);
            }
        }
    }
}

/// Adding a kind of frame never overwrites: a tag that holds a frame with
/// the id keeps its frames as they are, and a tag that holds none gets the
/// fresh frame behind the frames it had. User-defined text is the
/// exception, of which a tag may hold several.
pub proof fn lemma_add_frame_never_overwrites(
    before: Seq<FrameView>,
    after: Seq<FrameView>,
    id: Seq<char>,
)
    requires
        id != "TXXX"@,
        !is_link_pair_id(id),
        inserts(fresh_frame(id))(before, after),
    ensures
        first_with_id(before, id) is Some ==> after == before,
        first_with_id(before, id) is None ==> after == before.push(fresh_frame(id)),
{
    let added = fresh_frame(id);
    if first_with_id(before, id) is None {
        lemma_no_frame_with_id(before, id);
        assert(!has_unread_rival(before, id));
        lemma_first_conflict(before, added);
        let k = first_conflict(before, added);
        if k < before.len() {
            assert(before[k].id == id);
        }
    }
}

/// The test that a frame passes if its id is `id`.
pub open spec fn with_id(id: Seq<char>) -> spec_fn(FrameView) -> bool {
    |f: FrameView| f.id == id
}

/// How many frames have the id `id`.
pub open spec fn count_with_id(frames: Seq<FrameView>, id: Seq<char>) -> nat {
    frames.filter(with_id(id)).len()
}

/// Handing plain text to a tag whose frames with that id are plain text,
/// and no more than one, leaves the tag with exactly one frame of that id:
/// the new one, which stands last. Frames with other ids stay as they are.
pub proof fn lemma_text_edit_leaves_one(
    before: Seq<FrameView>,
    after: Seq<FrameView>,
    id: Seq<char>,
    text: Seq<char>,
)
    requires
        !is_link_pair_id(id),
        frame_added(before, FrameView { id, content: ContentView::Text(text) }, after),
        count_with_id(before, id) <= 1,
        forall|j: int|
            0 <= j < before.len() && (#[trigger] before[j]).id == id ==> before[j].content is Text,
    ensures
        count_with_id(after, id) == 1,
        after.last() == (FrameView { id, content: ContentView::Text(text) }),
        after.filter(not_id(id)) == before.filter(not_id(id)),
{
    let added = FrameView { id, content: ContentView::Text(text) };
    assert(!has_unread_rival(before, id));
    assert(after == with_frame(before, added));
    lemma_first_conflict(before, added);
    let k = first_conflict(before, added);
    if k < before.len() {
        lemma_filter_remove(before, k, with_id(id));
        lemma_filter_push(before.remove(k), added, with_id(id));
    } else {
        assert forall|j: int| 0 <= j < before.len() implies !with_id(id)(#[trigger] before[j]) by {
            assert(!frames_conflict(before[j], added));
        }
        lemma_filter_none(before, with_id(id));
        lemma_filter_push(before, added, with_id(id));
    }
}

/// A committed one-line edit leaves each entry it reaches with exactly one
/// frame of the edited id, holding the new text, provided the entry's tag
/// held plain text under that id and no more than one such frame; it held
/// that frame with another text or not at all. The entry's path, name and
/// selection and its frames with other ids stay as they are.
pub proof fn lemma_edit_commits_one(
    a: MainState,
    b: MainState,
    id: Seq<char>,
    text: Seq<char>,
    i: int,
)
    requires
        !is_link_pair_id(id),
        edit_committed(a, b, adds(FrameView { id, content: ContentView::Text(text) })),
        0 <= i < a.files@.len(),
        affected(a.files@, a.files_state, i),
        count_with_id(tag_frames(a.files@[i].tag), id) <= 1,
        forall|j: int|
            0 <= j < tag_frames(a.files@[i].tag).len() && (#[trigger] tag_frames(
                a.files@[i].tag,
            )[j]).id == id ==> tag_frames(a.files@[i].tag)[j].content is Text,
    ensures
        count_with_id(tag_frames(b.files@[i].tag), id) == 1,
        tag_frames(b.files@[i].tag).last() == (FrameView { id, content: ContentView::Text(text) }),
        tag_frames(b.files@[i].tag).filter(not_id(id)) == tag_frames(a.files@[i].tag).filter(
            not_id(id),
        ),
        b.files@[i].path == a.files@[i].path,
        b.files@[i].filename == a.files@[i].filename,
        b.files@[i].selected == a.files@[i].selected,
{
    assert(b.files@[i].path == a.files@[i].path);
    lemma_text_edit_leaves_one(
        tag_frames(a.files@[i].tag),
        tag_frames(b.files@[i].tag),
        id,
        text,
    );
}

/// Taking the user-defined text described as `description` out of a tag
/// leaves no frame under that description. Every frame with another id
/// stays, in order, and so does the user-defined text under any other
/// description.
pub proof fn lemma_description_dropped(
    before: Seq<FrameView>,
    after: Seq<FrameView>,
    description: Seq<char>,
    other: Seq<char>,
)
    requires
        drops_description(description)(before, after),
        other != description,
    ensures
        count_described(after, description) == 0,
        after.filter(not_id("TXXX"@)) == before.filter(not_id("TXXX"@)),
        after.filter(described_as(other)) == before.filter(described_as(other)),
        forall|j: int|
            0 <= j < after.len() ==> survives_description(#[trigger] after[j], description),
{
    lemma_count_after_drop(before, description, description);
    lemma_filter_within(before, outlives(description), not_id("TXXX"@));
    lemma_filter_within(before, outlives(description), described_as(other));
}

/// Removing the old description reaches the highlighted entry and every
/// selected one, whose tags then hold nothing under it and all their other
/// frames as before; every other entry is exactly as it was.
pub proof fn lemma_old_description_removed(
    before: Seq<Entry>,
    cursor: Option<usize>,
    after: Seq<Entry>,
    description: Seq<char>,
    i: int,
)
    requires
        fanned(before, cursor, after, drops_description(description)),
        0 <= i < before.len(),
    ensures
        after.len() == before.len(),
        affected(before, cursor, i) ==> count_described(tag_frames(after[i].tag), description) == 0
            && tag_frames(after[i].tag).filter(not_id("TXXX"@)) == tag_frames(
            before[i].tag,
        ).filter(not_id("TXXX"@)),
        !affected(before, cursor, i) ==> after[i] == before[i],
{
    assert(after[i].path == before[i].path);
    if affected(before, cursor, i) {
        assert(description.push('x').len() != description.len());
        lemma_description_dropped(
            tag_frames(before[i].tag),
            tag_frames(after[i].tag),
            description,
            description.push('x'),
        );
    }
}

/// The test that a frame passes if it is user-defined text described as
/// `description`.
pub open spec fn described_as(description: Seq<char>) -> spec_fn(FrameView) -> bool {
    |f: FrameView|
        f.id == "TXXX"@ && (f.content matches ContentView::ExtendedText { description: d, .. } && d
            == description)
}

/// How many frames are user-defined text described as `description`.
pub open spec fn count_described(frames: Seq<FrameView>, description: Seq<char>) -> nat {
    frames.filter(described_as(description)).len()
}

proof fn lemma_count_push(s: Seq<FrameView>, x: FrameView, d: Seq<char>)
    ensures
        count_described(s.push(x), d) == count_described(s, d) + if described_as(d)(x) {
            1nat
        } else {
            0nat
        },
{
    lemma_filter_push(s, x, described_as(d));
}

proof fn lemma_count_concat(s: Seq<FrameView>, t: Seq<FrameView>, d: Seq<char>)
    ensures
        count_described(s + t, d) == count_described(s, d) + count_described(t, d),
    decreases t.len(),
{
    if t.len() == 0 {
        assert(s + t =~= s);
        crate::seqs::lemma_filter_empty::<FrameView>(described_as(d));
        assert(t =~= Seq::<FrameView>::empty());
    } else {
        lemma_count_concat(s, t.drop_last(), d);
        assert(s + t =~= (s + t.drop_last()).push(t.last()));
        assert(t =~= t.drop_last().push(t.last()));
        lemma_count_push(s + t.drop_last(), t.last(), d);
        lemma_count_push(t.drop_last(), t.last(), d);
    }
}

proof fn lemma_count_remove(s: Seq<FrameView>, k: int, d: Seq<char>)
    requires
        0 <= k < s.len(),
    ensures
        count_described(s, d) == count_described(s.remove(k), d) + if described_as(d)(s[k]) {
            1nat
        } else {
            0nat
        },
{
    let front = s.subrange(0, k);
    let back = s.subrange(k + 1, s.len() as int);
    assert(s =~= front.push(s[k]) + back);
    assert(s.remove(k) =~= front + back);
    lemma_count_concat(front.push(s[k]), back, d);
    lemma_count_concat(front, back, d);
    lemma_count_push(front, s[k], d);
}

proof fn lemma_count_after_drop(s: Seq<FrameView>, dropped: Seq<char>, d: Seq<char>)
    ensures
        count_described(s.filter(outlives(dropped)), d) == if d == dropped {
            0nat
        } else {
            count_described(s, d)
        },
        forall|j: int|
            0 <= j < s.filter(outlives(dropped)).len() ==> survives_description(
                #[trigger] s.filter(outlives(dropped))[j],
                dropped,
            ),
    decreases s.len(),
{
    if s.len() == 0 {
        crate::seqs::lemma_filter_empty::<FrameView>(outlives(dropped));
        crate::seqs::lemma_filter_empty::<FrameView>(described_as(d));
        assert(s =~= Seq::<FrameView>::empty());
    } else {
        lemma_count_after_drop(s.drop_last(), dropped, d);
        assert(s =~= s.drop_last().push(s.last()));
        lemma_filter_push(s.drop_last(), s.last(), outlives(dropped));
        lemma_count_push(s.drop_last(), s.last(), d);
        if outlives(dropped)(s.last()) {
            lemma_count_push(s.drop_last().filter(outlives(dropped)), s.last(), d);
        }
    }
}

proof fn lemma_first_conflict(frames: Seq<FrameView>, added: FrameView)
    ensures
        0 <= first_conflict(frames, added) <= frames.len(),
        first_conflict(frames, added) < frames.len() ==> frames_conflict(
            frames[first_conflict(frames, added)],
            added,
        ),
        first_conflict(frames, added) == frames.len() ==> forall|j: int|
            0 <= j < frames.len() ==> !frames_conflict(#[trigger] frames[j], added),
    decreases frames.len(),
{
    if frames.len() > 0 && !frames_conflict(frames[0], added) {
        let rest = frames.drop_first();
        lemma_first_conflict(rest, added);
        if first_conflict(frames, added) == frames.len() {
            assert forall|j: int| 0 <= j < frames.len() implies !frames_conflict(
                #[trigger] frames[j],
                added,
            ) by {
                if j > 0 {
                    assert(rest[j - 1] == frames[j]);
                }
            }
        }
    }
}

proof fn lemma_none_described_means_zero(s: Seq<FrameView>, d: Seq<char>)
    requires
        forall|j: int| 0 <= j < s.len() ==> !described_as(d)(#[trigger] s[j]),
    ensures
        count_described(s, d) == 0,
    decreases s.len(),
{
    if s.len() == 0 {
        crate::seqs::lemma_filter_empty::<FrameView>(described_as(d));
        assert(s =~= Seq::<FrameView>::empty());
    } else {
        assert forall|j: int| 0 <= j < s.drop_last().len() implies !described_as(d)(
            #[trigger] s.drop_last()[j],
        ) by {
            assert(s.drop_last()[j] == s[j]);
        }
        lemma_none_described_means_zero(s.drop_last(), d);
        assert(s =~= s.drop_last().push(s.last()));
        lemma_count_push(s.drop_last(), s.last(), d);
    }
}

/// Editing user-defined text so that its description changes from
/// `previous` to `description` leaves a tag with no frame under the old
/// description and exactly one under the new, provided the tag did not
/// already hold several under the new one.
pub proof fn lemma_description_change(
    before: Seq<FrameView>,
    after: Seq<FrameView>,
    previous: Seq<char>,
    description: Seq<char>,
    value: Seq<char>,
)
    requires
        previous != description,
        count_described(before, description) <= 1,
        redescribes(
            FrameView {
                id: "TXXX"@,
                content: ContentView::ExtendedText { description: previous, value },
            },
            description,
            value,
        )(before, after),
    ensures
        count_described(after, previous) == 0,
        count_described(after, description) == 1,
{
    let added = FrameView {
        id: "TXXX"@,
        content: ContentView::ExtendedText { description, value },
    };
    let mid = before.filter(outlives(previous));
    assert(frame_added(mid, added, after));
    lemma_count_after_drop(before, previous, previous);
    lemma_count_after_drop(before, previous, description);
    reveal_strlit("TXXX");
    reveal_strlit("WCOM");
    reveal_strlit("WOAR");
    assert("TXXX"@[0] == 'T');
    assert("WCOM"@[0] == 'W');
    assert("WOAR"@[0] == 'W');
    assert(!is_link_pair_id(added.id));
    assert(!has_unread_rival(mid, added.id)) by {
        if has_unread_rival(mid, added.id) {
            let j = choose|j: int|
                0 <= j < mid.len() && #[trigger] mid[j].id == added.id && mid[j].content is Other;
            assert(survives_description(mid[j], previous));
        }
    }
    assert(after == with_frame(mid, added));
    lemma_first_conflict(mid, added);
    let k = first_conflict(mid, added);
    if k < mid.len() {
        assert(described_as(description)(mid[k]));
        lemma_count_remove(mid, k, description);
        lemma_count_remove(mid, k, previous);
        lemma_count_push(mid.remove(k), added, description);
        lemma_count_push(mid.remove(k), added, previous);
    } else {
        assert forall|j: int| 0 <= j < mid.len() implies !described_as(description)(
            #[trigger] mid[j],
        ) by {
            assert(!frames_conflict(mid[j], added));
        }
        lemma_none_described_means_zero(mid, description);
        lemma_count_push(mid, added, description);
        lemma_count_push(mid, added, previous);
    }
}

/// "Select all" pressed on a working set with an unselected entry selects
/// every entry; pressed once more it deselects every entry. Nothing else
/// about an entry changes.
pub proof fn lemma_select_all_twice(a: MainState, b: MainState, c: MainState, i: int)
    requires
        all_toggled(a, b),
        all_toggled(b, c),
        any_unselected(a.files@),
        0 <= i < a.files@.len(),
    ensures
        b.files@[i].selected,
        !c.files@[i].selected,
        c.files@[i] == (Entry { selected: false, ..a.files@[i] }),
{
    assert(b.files@[i] == (Entry { selected: true, ..a.files@[i] }));
    if any_unselected(b.files@) {
        let k = choose|k: int| 0 <= k < b.files@.len() && !(#[trigger] b.files@[k]).selected;
        assert(b.files@[k] == (Entry { selected: true, ..a.files@[k] }));
    }
    assert(c.files@[i] == (Entry { selected: false, ..b.files@[i] }));
}

/// A rename by template passes over a selected entry with a placeholder
/// that does not resolve, and over every unselected entry: they stay
/// exactly as they were. Every other entry gets the name that the template
/// gives it, and nothing else about it changes.
pub proof fn lemma_rename_skips(
    before: Seq<Entry>,
    after: Seq<Entry>,
    template: Seq<char>,
    matches: Seq<Seq<char>>,
    i: int,
)
    requires
        renamed(before, after, template, matches),
        0 <= i < before.len(),
    ensures
        !before[i].selected || template_name(template, tag_frames(before[i].tag), matches)
            is None ==> after[i].filename@ == before[i].filename@,
        before[i].selected && template_name(template, tag_frames(before[i].tag), matches)
            is Some ==> after[i].filename@ == template_name(
            template,
            tag_frames(before[i].tag),
            matches,
        ).unwrap(),
        after[i].path == before[i].path,
        after[i].tag == before[i].tag,
        after[i].selected == before[i].selected,
{
    assert(after[i] == (Entry { filename: after[i].filename, ..before[i] }));
}

/// A rename gives a selected entry the template with every placeholder
/// given way to the text of the entry's frame and every other character
/// kept, wherever the entry stands in the list and whatever becomes of the
/// other entries. The template is made of text without an opening brace
/// and of placeholders, each of which resolves in the entry's tag to a
/// text without an opening brace.
pub proof fn lemma_rename_fills_template(
    before: Seq<Entry>,
    after: Seq<Entry>,
    template: Seq<char>,
    pieces: Seq<Piece>,
    j: int,
)
    requires
        renamed(before, after, template, hole_texts(hole_names(pieces))),
        0 <= j < before.len(),
        before[j].selected,
        joined(pieces) == template,
        well_formed(pieces),
        forall|q: int|
            0 <= q < pieces.len() && (#[trigger] pieces[q]) is Hole ==> resolved_text(
                tag_frames(before[j].tag),
                piece_text(pieces[q]),
            ) is Some && plain(filling(tag_frames(before[j].tag), pieces[q]->Hole_0)),
    ensures
        after[j].filename@ == joined(filled(pieces, tag_frames(before[j].tag))),
        after[j] == (Entry { filename: after[j].filename, ..before[j] }),
{
    lemma_template_filled(template, tag_frames(before[j].tag), pieces);
    assert(after[j] == (Entry { filename: after[j].filename, ..before[j] }));
}

/// A template with a placeholder whose frame a tag lacks gives that tag's
/// file no name.
pub proof fn lemma_missing_frame_blocks_rename(
    template: Seq<char>,
    frames: Seq<FrameView>,
    matches: Seq<Seq<char>>,
    k: int,
)
    requires
        0 <= k < matches.len(),
        match id_of_name(placeholder_name(matches[k])) {
            Some(id) => first_with_id(frames, id) is None,
            None => true,
        },
    ensures
        template_name(template, frames, matches) is None,
{
    assert(resolved_text(frames, matches[k]) is None);
    lemma_unresolved_blocks(frames, matches, k, matches.len());
}

proof fn lemma_unresolved_blocks(frames: Seq<FrameView>, matches: Seq<Seq<char>>, k: int, n: nat)
    requires
        0 <= k < n,
        resolved_text(frames, matches[k]) is None,
    ensures
        !all_resolve(frames, matches, n),
    decreases n,
{
    if k < n - 1 {
        lemma_unresolved_blocks(frames, matches, k, (n - 1) as nat);
    }
}

/// The details of a file have one line for its name and one for each of
/// its text frames.
pub proof fn lemma_projection_len(filename: Seq<char>, frames: Seq<FrameView>)
    requires
        frames.len() <= usize::MAX,
    ensures
        projection(filename, frames).len() == 1 + frames.filter(is_text_frame()).len(),
        projection(filename, frames)[0] == crate::state::main_state::DetailView::FileName(filename),
{
    let shown = frames.filter(is_text_frame());
    frames.lemma_filter_len(is_text_frame());
    lemma_sorted_order(name_keys(shown), shown.len());
}

/// Rebuilding the details never leaves the detail cursor pointing past the
/// end: where the rebuilt list is too short for it, it goes back to the
/// first line.
pub proof fn lemma_refresh_keeps_cursor_in_range(a: MainState, b: MainState)
    requires
        refreshed(a, b),
        a.details_state matches Some(j) ==> j < a.details@.len(),
        a.files_state matches Some(i) ==> i < a.files@.len(),
    ensures
        b.details_state matches Some(j) ==> j < b.details@.len(),
        a.files_state is Some ==> b.details_state == clamped(a.details_state, b.details@.len())
            && b.details@.len() > 0,
{
    if let Some(i) = a.files_state {
        let e = a.files@[i as int];
        assert(b.details@.len() == crate::state::main_state::detail_views(b.details@).len());
        assert(projection(e.filename@, tag_frames(e.tag)).len() >= 1);
    }
}

/// A cursor clamped to a list that is not empty points into the list.
pub proof fn lemma_clamped_in_range(cursor: Option<usize>, len: nat)
    requires
        len > 0,
    ensures
        clamped(cursor, len) matches Some(j) ==> j < len,
        cursor matches Some(j) && j < len ==> clamped(cursor, len) == cursor,
        cursor matches Some(j) && j >= len ==> clamped(cursor, len) == Some(0usize),
{
}

} // verus!
