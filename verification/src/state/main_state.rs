//! The tag-editing model: the working set of loaded files, the cursors over
//! it, the details of the highlighted file, and the edits that fan out to
//! the selected files.

use vstd::prelude::*;
use crate::order::{key_views, sort_order, sorted_order, SortKey, SortKeyView};
use crate::popups::double_input::DoubleInput;
use crate::popups::single_input::SingleInput;
use crate::popups::template::TemplateInput;
use crate::popups::help::HelpPopup;
use crate::popups::{popup_stepped, Popup, PopupData};
use crate::actions::{
    help_line_of, help_ready, resolve, resolved, Action, Key, KeyBindings, Scope,
};
use crate::logger::Logger;
use crate::state::{logs_applied, update_screen_state, AppEvent, ScreenState};
use crate::rename::{
    first_with_id, placeholder_pattern, position_of_id, regex_find_all, regex_matches,
    render_name, string_views, template_name,
};
use crate::seqs::{lemma_filter_empty, lemma_filter_push, reversed};
use crate::tag::{
    check_frame_id, frame_added, frame_name_of, frame_views, is_frame_id, not_id, outlives,
    tag_add_frame,
    tag_frame_names, tag_frames, tag_read_frames, tag_remove, tag_remove_extended_text, Content,
    ContentView, Frame, FrameView,
};
use crate::text::{chars_of, starts_with_char, str_eq};
use crate::util::{next_index, prev_index};

verus! {

/// Which of the main screen's two lists takes the navigation keys.
#[derive(Debug, Clone, Copy, PartialEq, Eq, Structural)]
pub enum Focus {
    Files,
    Details,
}

/// One loaded audio file.
pub struct Entry {
    pub path: String,
    /// The name shown, and the name the file gets when tags are written.
    pub filename: String,
    pub tag: id3::Tag,
    /// Whether batch operations include the file.
    pub selected: bool,
}

/// One line of the details list.
pub enum DetailItem {
    /// The file's name, offered for renaming.
    FileName(String),
    /// One text frame of the file's tag.
    Frame(Frame),
}

/// Mathematical value of a `DetailItem`.
pub enum DetailView {
    FileName(Seq<char>),
    Frame(FrameView),
}

impl View for DetailItem {
    type V = DetailView;

    open spec fn view(&self) -> DetailView {
        match self {
            DetailItem::FileName(name) => DetailView::FileName(name@),
            DetailItem::Frame(frame) => DetailView::Frame(frame@),
        }
    }
}

/// The values of a list of detail lines, in order.
pub open spec fn detail_views(details: Seq<DetailItem>) -> Seq<DetailView> {
    details.map_values(|d: DetailItem| d@)
}

/// The part of a path behind its last `/`; the whole path if it has none.
pub open spec fn file_name_of(path: Seq<char>) -> Seq<char>
    decreases path.len(),
{
    if path.len() == 0 {
        path
    } else if path.last() == '/' {
        Seq::empty()
    } else {
        file_name_of(path.drop_last()).push(path.last())
    }
}

/// The test that a frame passes if its id begins with `T`: the frames shown
/// and edited as text.
pub open spec fn is_text_frame() -> spec_fn(FrameView) -> bool {
    |f: FrameView| f.id.len() > 0 && f.id[0] == 'T'
}

/// The keys by which the frames of a details list are ordered: their names.
pub open spec fn name_keys(frames: Seq<FrameView>) -> Seq<SortKeyView> {
    frames.map_values(|f: FrameView| SortKeyView { rank: 1, text: frame_name_of(f.id) })
}

/// The details of a file: its name first, then its text frames in the order
/// of their names, frames of one name in the tag's order.
pub open spec fn projection(filename: Seq<char>, frames: Seq<FrameView>) -> Seq<DetailView> {
    let shown = frames.filter(is_text_frame());
    let order = sorted_order(name_keys(shown), shown.len());
    seq![DetailView::FileName(filename)] + order.map_values(
        |i: usize| DetailView::Frame(shown[i as int]),
    )
}

/// A cursor over a list that has come to hold `len` items: one that points
/// past the end goes back to the first item.
pub open spec fn clamped(cursor: Option<usize>, len: nat) -> Option<usize> {
    match cursor {
        Some(i) => if i >= len {
            Some(0usize)
        } else {
            cursor
        },
        None => cursor,
    }
}

/// A cursor after one step through a list of `len` items: it wraps at both
/// ends, starts at the first item, and stays put while the list is empty.
pub open spec fn moved(cursor: Option<usize>, len: nat, forward: bool) -> Option<usize> {
    if len == 0 {
        cursor
    } else {
        match cursor {
            Some(i) => Some(
                (if forward {
                    next_index(i as int, len as int)
                } else {
                    prev_index(i as int, len as int)
                }) as usize,
            ),
            None => Some(0usize),
        }
    }
}

/// Whether some entry has the path `path`.
pub open spec fn has_path(files: Seq<Entry>, path: Seq<char>) -> bool {
    exists|k: int| 0 <= k < files.len() && (#[trigger] files[k]).path@ == path
}

/// The working set after `incoming` has been merged into `existing` one
/// entry at a time: an entry joins unless its path is already there.
pub open spec fn merged(existing: Seq<Entry>, incoming: Seq<Entry>) -> Seq<Entry>
    decreases incoming.len(),
{
    if incoming.len() == 0 {
        existing
    } else {
        let so_far = merged(existing, incoming.drop_last());
        if has_path(so_far, incoming.last().path@) {
            so_far
        } else {
            so_far.push(incoming.last())
        }
    }
}

/// Whether the entry at `i` takes part in a batch operation: it is selected
/// or it is the highlighted one.
pub open spec fn affected(files: Seq<Entry>, cursor: Option<usize>, i: int) -> bool {
    files[i].selected || cursor == Some(i as usize)
}

/// The first `n` entries without those that a removal takes away: the
/// selected ones and the highlighted one.
pub open spec fn survivors(files: Seq<Entry>, cursor: Option<usize>, n: nat) -> Seq<Entry>
    decreases n,
{
    if n == 0 {
        Seq::empty()
    } else if affected(files, cursor, n - 1) {
        survivors(files, cursor, (n - 1) as nat)
    } else {
        survivors(files, cursor, (n - 1) as nat).push(files[n - 1])
    }
}

/// Whether some entry is not selected.
pub open spec fn any_unselected(files: Seq<Entry>) -> bool {
    exists|k: int| 0 <= k < files.len() && !(#[trigger] files[k]).selected
}

impl Entry {
    /// An unselected entry for the file at `path`, named by the last
    /// component of the path.
    pub fn new(path: String, tag: id3::Tag) -> (r: Self)
        ensures
            r.path == path,
            r.tag == tag,
            !r.selected,
            r.filename@ == file_name_of(path@),
    {
        let n = path.as_str().unicode_len();
        let mut start: usize = n;
        proof {
            assert(path@.subrange(0, n as int) =~= path@);
            assert(file_name_of(path@) + path@.subrange(n as int, n as int) =~= file_name_of(
                path@,
            ));
        }
        while start > 0 && path.as_str().get_char(start - 1) != '/'
            invariant
                start <= n,
                n == path@.len(),
                file_name_of(path@) == file_name_of(path@.subrange(0, start as int))
                    + path@.subrange(start as int, n as int),
            decreases start,
        {
            proof {
                let front = path@.subrange(0, start as int);
                assert(front.last() == path@[start - 1]);
                assert(front.drop_last() =~= path@.subrange(0, start - 1));
                assert(file_name_of(front.drop_last()).push(front.last()) + path@.subrange(
                    start as int,
                    n as int,
                ) =~= file_name_of(front.drop_last()) + path@.subrange(start - 1, n as int));
            }
            start -= 1;
        }
        proof {
            let front = path@.subrange(0, start as int);
            if start > 0 {
                assert(front.last() == path@[start - 1]);
            }
            assert(file_name_of(front) =~= Seq::<char>::empty());
            assert(file_name_of(front) + path@.subrange(start as int, n as int) =~= path@.subrange(
                start as int,
                n as int,
            ));
        }
        let filename = String::from_str(path.as_str().substring_char(start, n));
        Self { path, filename, tag, selected: false }
    }
}

/// The main screen: loaded files on one side, the highlighted file's
/// details on the other, and the dialogs opened over them.
pub struct MainState {
    pub popup_stack: Vec<Popup>,
    pub focus: Focus,
    /// The highlighted file.
    pub files_state: Option<usize>,
    pub files: Vec<Entry>,
    /// The highlighted detail.
    pub details_state: Option<usize>,
    pub details: Vec<DetailItem>,
    pub help_text: Vec<String>,
    /// The template by which selected files are renamed.
    pub template_string: String,
}

/// Whether two states differ in nothing but their files, details and the
/// two cursors.
pub open spec fn same_frame(a: MainState, b: MainState) -> bool {
    &&& b.popup_stack == a.popup_stack
    &&& b.focus == a.focus
    &&& b.help_text == a.help_text
    &&& b.template_string == a.template_string
}

/// Whether `b` is `a` with the details rebuilt from the highlighted file.
/// With no file highlighted nothing changes. The detail cursor goes back to
/// the first line if it would point past the end.
pub open spec fn refreshed(a: MainState, b: MainState) -> bool {
    &&& same_frame(a, b)
    &&& b.files == a.files
    &&& b.files_state == a.files_state
    &&& match a.files_state {
        Some(i) => detail_views(b.details@) == projection(
            a.files@[i as int].filename@,
            tag_frames(a.files@[i as int].tag),
        ) && b.details_state == clamped(a.details_state, b.details@.len()),
        None => b.details == a.details && b.details_state == a.details_state,
    }
}

/// Whether `b` is `a` after one navigation step. In the files list the
/// highlight moves and the details follow it; in the details list only the
/// detail cursor moves. An empty list takes no step.
pub open spec fn navigated(a: MainState, b: MainState, forward: bool) -> bool {
    match a.focus {
        Focus::Files => if a.files@.len() == 0 {
            b == a
        } else {
            refreshed(
                MainState { files_state: moved(a.files_state, a.files@.len(), forward), ..a },
                b,
            )
        },
        Focus::Details => b == MainState {
            details_state: moved(a.details_state, a.details@.len(), forward),
            ..a
        },
    }
}

/// Whether the details of `s` are those of its highlighted file.
pub open spec fn settled(s: MainState) -> bool {
    s.files_state matches Some(i) ==> detail_views(s.details@) == projection(
        s.files@[i as int].filename@,
        tag_frames(s.files@[i as int].tag),
    )
}

/// Whether `s` is the main screen as it starts: no files, no details, no
/// dialog, no help text, the focus on the files and the default template.
pub open spec fn is_fresh(s: MainState) -> bool {
    &&& s.popup_stack@.len() == 0
    &&& s.focus == Focus::Files
    &&& s.files_state is None
    &&& s.files@.len() == 0
    &&& s.details_state is None
    &&& s.details@.len() == 0
    &&& s.help_text@.len() == 0
    &&& s.template_string@ == "{track} {title}.mp3"@
}

/// Whether `b` is `a` with the working set and the details emptied and both
/// highlights taken away.
pub open spec fn all_removed(a: MainState, b: MainState) -> bool {
    &&& same_frame(a, b)
    &&& b.files@.len() == 0
    &&& b.details@.len() == 0
    &&& b.files_state is None
    &&& b.details_state is None
}

/// Whether `b` is `a` without the selected entries and the highlighted one.
/// The highlight keeps its position, or goes to the first entry if that
/// position is gone, and the details follow; with no entry left both
/// highlights and the details go too.
pub open spec fn files_removed(a: MainState, b: MainState) -> bool {
    &&& same_frame(a, b)
    &&& b.files@ == survivors(a.files@, a.files_state, a.files@.len())
    &&& b.files@.len() == 0 ==> b.details@.len() == 0 && b.files_state is None
        && b.details_state is None
    &&& b.files@.len() > 0 ==> b.files_state == clamped(a.files_state, b.files@.len())
        && refreshed(MainState { files: b.files, files_state: b.files_state, ..a }, b)
}

/// Whether `b` is `a` with the selection of the highlighted entry flipped.
pub open spec fn entry_toggled(a: MainState, b: MainState) -> bool {
    &&& b == (MainState { files: b.files, ..a })
    &&& match a.files_state {
        Some(i) => b.files@ == a.files@.update(
            i as int,
            Entry { selected: !a.files@[i as int].selected, ..a.files@[i as int] },
        ),
        None => b.files == a.files,
    }
}

/// Whether `b` is `a` with every entry selected if one was not, else with
/// every entry deselected.
pub open spec fn all_toggled(a: MainState, b: MainState) -> bool {
    &&& b == (MainState { files: b.files, ..a })
    &&& b.files@.len() == a.files@.len()
    &&& forall|k: int|
        0 <= k < b.files@.len() ==> (#[trigger] b.files@[k]) == (Entry {
            selected: any_unselected(a.files@),
            ..a.files@[k]
        })
}

impl MainState {
    /// Both cursors point into their lists, and every open dialog is in
    /// order.
    pub open spec fn wf(&self) -> bool {
        &&& self.files_state matches Some(i) ==> i < self.files@.len()
        &&& self.details_state matches Some(j) ==> j < self.details@.len()
        &&& forall|k: int|
            0 <= k < self.popup_stack@.len() ==> (#[trigger] self.popup_stack@[k]).wf()
    }

    /// An empty main screen with the default rename template.
    pub fn new() -> (r: Self)
        ensures
            r.wf(),
            is_fresh(r),
    {
        Self {
            popup_stack: Vec::new(),
            focus: Focus::Files,
            files_state: None,
            files: Vec::new(),
            details_state: None,
            details: Vec::new(),
            help_text: Vec::new(),
            template_string: String::from_str("{track} {title}.mp3"),
        }
    }

    /// Rebuilds the details from the highlighted file.
    pub fn update_details(&mut self)
        requires
            old(self).wf(),
        ensures
            final(self).wf(),
            refreshed(*old(self), *final(self)),
    {
        let index = match self.files_state {
            Some(i) => i,
            None => {
                return ;
            },
        };
        let frames = tag_read_frames(&self.files[index].tag);
        let names = tag_frame_names(&self.files[index].tag);
        let ghost all = tag_frames(self.files@[index as int].tag);
        let mut shown: Vec<Frame> = Vec::new();
        let mut keys: Vec<SortKey> = Vec::new();
        let mut i: usize = 0;
        proof {
            lemma_filter_empty::<FrameView>(is_text_frame());
            assert(all.subrange(0, 0) =~= Seq::<FrameView>::empty());
            assert(frame_views(shown@) =~= Seq::<FrameView>::empty());
            assert(key_views(keys@) =~= name_keys(frame_views(shown@)));
        }
        while i < frames.len()
            invariant
                i <= frames@.len(),
                all == frame_views(frames@),
                names@.len() == all.len(),
                forall|k: int|
                    0 <= k < names@.len() ==> (#[trigger] names@[k])@ == frame_name_of(all[k].id),
                frame_views(shown@) == all.subrange(0, i as int).filter(is_text_frame()),
                key_views(keys@) == name_keys(frame_views(shown@)),
            decreases frames@.len() - i,
        {
            let ghost before_shown = shown@;
            let ghost before_keys = keys@;
            assert(all[i as int] == frames@[i as int]@);
            proof {
                lemma_filter_push(all.subrange(0, i as int), all[i as int], is_text_frame());
                assert(all.subrange(0, i + 1) =~= all.subrange(0, i as int).push(all[i as int]));
            }
            if starts_with_char(frames[i].id.as_str(), 'T') {
                shown.push(frames[i].duplicate());
                keys.push(SortKey { rank: 1, text: chars_of(names[i].as_str()) });
                proof {
                    assert(frame_views(shown@) =~= frame_views(before_shown).push(all[i as int]));
                    assert(key_views(keys@) =~= key_views(before_keys).push(
                        SortKeyView { rank: 1, text: frame_name_of(all[i as int].id) },
                    ));
                    assert(name_keys(frame_views(shown@)) =~= name_keys(
                        frame_views(before_shown),
                    ).push(SortKeyView { rank: 1, text: frame_name_of(all[i as int].id) }));
                }
            }
            i += 1;
        }
        proof {
            assert(all.subrange(0, all.len() as int) =~= all);
        }
        let order = sort_order(&keys);
        let ghost shown_views = frame_views(shown@);
        let mut details: Vec<DetailItem> = Vec::new();
        details.push(DetailItem::FileName(self.files[index].filename.clone()));
        let ghost head = seq![DetailView::FileName(self.files@[index as int].filename@)];
        let mut k: usize = 0;
        proof {
            assert(detail_views(details@) =~= head + order@.subrange(0, 0).map_values(
                |i: usize| DetailView::Frame(shown_views[i as int]),
            ));
        }
        while k < order.len()
            invariant
                k <= order@.len(),
                order@.len() == shown@.len(),
                crate::order::in_range(order@, shown@.len()),
                shown_views == frame_views(shown@),
                head.len() == 1,
                detail_views(details@) == head + order@.subrange(0, k as int).map_values(
                    |i: usize| DetailView::Frame(shown_views[i as int]),
                ),
            decreases order@.len() - k,
        {
            let ghost before = details@;
            let pick = order[k];
            details.push(DetailItem::Frame(shown[pick].duplicate()));
            proof {
                assert(detail_views(details@) =~= detail_views(before).push(
                    DetailView::Frame(shown_views[pick as int]),
                ));
                assert(detail_views(details@) =~= head + order@.subrange(0, k + 1).map_values(
                    |i: usize| DetailView::Frame(shown_views[i as int]),
                ));
            }
            k += 1;
        }
        proof {
            assert(order@.subrange(0, order@.len() as int) =~= order@);
        }
        self.details = details;
        if let Some(j) = self.details_state {
            if j >= self.details.len() {
                self.details_state = Some(0);
            }
        }
    }

    /// Moves the highlight of the focused list one item forward, wrapping at
    /// the end.
    pub fn next(&mut self)
        requires
            old(self).wf(),
        ensures
            final(self).wf(),
            navigated(*old(self), *final(self), true),
    {
        match self.focus {
            Focus::Files => {
                if self.files.len() == 0 {
                    return ;
                }
                let i = match self.files_state {
                    Some(i) => crate::util::next(i, self.files.len()),
                    None => 0,
                };
                self.files_state = Some(i);
                self.update_details();
            },
            Focus::Details => {
                if self.details.len() == 0 {
                    return ;
                }
                let i = match self.details_state {
                    Some(i) => crate::util::next(i, self.details.len()),
                    None => 0,
                };
                self.details_state = Some(i);
            },
        }
    }

    /// Moves the highlight of the focused list one item back, wrapping at
    /// the start.
    pub fn prev(&mut self)
        requires
            old(self).wf(),
        ensures
            final(self).wf(),
            navigated(*old(self), *final(self), false),
    {
        match self.focus {
            Focus::Files => {
                if self.files.len() == 0 {
                    return ;
                }
                let i = match self.files_state {
                    Some(i) => crate::util::prev(i, self.files.len()),
                    None => 0,
                };
                self.files_state = Some(i);
                self.update_details();
            },
            Focus::Details => {
                if self.details.len() == 0 {
                    return ;
                }
                let i = match self.details_state {
                    Some(i) => crate::util::prev(i, self.details.len()),
                    None => 0,
                };
                self.details_state = Some(i);
            },
        }
    }

    /// Whether the working set holds an entry with this path.
    pub fn contains_path(&self, path: &str) -> (r: bool)
        ensures
            r == has_path(self.files@, path@),
    {
        let mut k: usize = 0;
        while k < self.files.len()
            invariant
                k <= self.files@.len(),
                forall|j: int| 0 <= j < k ==> (#[trigger] self.files@[j]).path@ != path@,
            decreases self.files@.len() - k,
        {
            if str_eq(self.files[k].path.as_str(), path) {
                return true;
            }
            k += 1;
        }
        false
    }

    /// Merges loaded entries into the working set. An entry whose path is
    /// already there is dropped without a word.
    pub fn add_files(&mut self, files: Vec<Entry>)
        requires
            old(self).wf(),
        ensures
            final(self).wf(),
            final(self).files@ == merged(old(self).files@, files@),
            same_frame(*old(self), *final(self)),
            final(self).files_state == old(self).files_state,
            final(self).details_state == old(self).details_state,
            final(self).details == old(self).details,
    {
        let ghost incoming = files@;
        let n = files.len();
        let mut stack = reversed(files);
        let mut i: usize = 0;
        proof {
            assert(incoming.subrange(0, 0) =~= Seq::<Entry>::empty());
        }
        while i < n
            invariant
                i <= n,
                n == incoming.len(),
                stack@.len() == n - i,
                forall|k: int| 0 <= k < stack@.len() ==> stack@[k] == incoming[n - 1 - k],
                self.files@ == merged(old(self).files@, incoming.subrange(0, i as int)),
                self.files@.len() >= old(self).files@.len(),
                same_frame(*old(self), *self),
                self.files_state == old(self).files_state,
                self.details_state == old(self).details_state,
                self.details == old(self).details,
            decreases n - i,
        {
            let entry = stack.pop().unwrap();
            proof {
                let upto = incoming.subrange(0, i + 1);
                assert(upto.last() == entry);
                assert(upto.drop_last() =~= incoming.subrange(0, i as int));
            }
            if !self.contains_path(entry.path.as_str()) {
                self.files.push(entry);
            }
            i += 1;
        }
        proof {
            assert(incoming.subrange(0, n as int) =~= incoming);
        }
    }

    /// Empties the working set and the details and takes both highlights
    /// away.
    pub fn remove_all_files(&mut self)
        ensures
            all_removed(*old(self), *final(self)),
            old(self).wf() ==> final(self).wf(),
    {
        self.files.clear();
        self.details.clear();
        self.files_state = None;
        self.details_state = None;
    }

    /// Removes the selected entries and the highlighted one. The highlight
    /// keeps its position, or goes to the first entry if that position is
    /// gone; with no entry left both highlights and the details go too.
    pub fn remove_files(&mut self)
        requires
            old(self).wf(),
        ensures
            final(self).wf(),
            files_removed(*old(self), *final(self)),
    {
        let ghost before = self.files@;
        let cursor = self.files_state;
        let mut taken: Vec<Entry> = Vec::new();
        core::mem::swap(&mut self.files, &mut taken);
        let n = taken.len();
        let mut stack = reversed(taken);
        let mut i: usize = 0;
        while i < n
            invariant
                i <= n,
                n == before.len(),
                stack@.len() == n - i,
                forall|k: int| 0 <= k < stack@.len() ==> stack@[k] == before[n - 1 - k],
                self.files@ == survivors(before, cursor, i as nat),
                self.files@.len() <= i,
                same_frame(*old(self), *self),
                self.files_state == old(self).files_state,
                cursor == old(self).files_state,
                self.details_state == old(self).details_state,
                self.details == old(self).details,
            decreases n - i,
        {
            let entry = stack.pop().unwrap();
            let highlighted = match cursor {
                Some(c) => c == i,
                None => false,
            };
            if !entry.selected && !highlighted {
                self.files.push(entry);
            }
            i += 1;
        }
        if self.files.len() == 0 {
            self.details.clear();
            self.files_state = None;
            self.details_state = None;
        } else {
            if let Some(c) = self.files_state {
                if c >= self.files.len() {
                    self.files_state = Some(0);
                }
            }
            self.update_details();
        }
    }

    /// Flips the selection of the highlighted entry.
    pub fn select_entry(&mut self)
        requires
            old(self).wf(),
        ensures
            final(self).wf(),
            entry_toggled(*old(self), *final(self)),
    {
        if let Some(i) = self.files_state {
            let flag = !self.files[i].selected;
            self.files[i].selected = flag;
            assert(self.files@ =~= old(self).files@.update(
                i as int,
                Entry {
                    selected: !old(self).files@[i as int].selected,
                    ..old(self).files@[i as int]
                },
            ));
        }
    }

    /// Selects every entry if any is unselected, else deselects them all.
    pub fn select_all_entries(&mut self)
        requires
            old(self).wf(),
        ensures
            final(self).wf(),
            all_toggled(*old(self), *final(self)),
    {
        let n = self.files.len();
        let mut flag = false;
        let mut i: usize = 0;
        while i < n
            invariant
                i <= n,
                n == self.files@.len(),
                *self == *old(self),
                flag == any_unselected(self.files@.subrange(0, i as int)),
            decreases n - i,
        {
            if !self.files[i].selected {
                flag = true;
            }
            proof {
                let upto = self.files@.subrange(0, i + 1);
                let prior = self.files@.subrange(0, i as int);
                if any_unselected(prior) {
                    let w = choose|w: int| 0 <= w < prior.len() && !(#[trigger] prior[w]).selected;
                    assert(!upto[w].selected);
                }
                if !self.files@[i as int].selected {
                    assert(!upto[i as int].selected);
                }
                if any_unselected(upto) {
                    let w = choose|w: int| 0 <= w < upto.len() && !(#[trigger] upto[w]).selected;
                    if w < i {
                        assert(!prior[w].selected);
                    }
                }
            }
            i += 1;
        }
        proof {
            assert(self.files@.subrange(0, n as int) =~= self.files@);
        }
        let mut k: usize = 0;
        while k < n
            invariant
                k <= n,
                n == self.files@.len(),
                n == old(self).files@.len(),
                flag == any_unselected(old(self).files@),
                *self == (MainState { files: self.files, ..*old(self) }),
                forall|j: int|
                    0 <= j < k ==> (#[trigger] self.files@[j]) == (Entry {
                        selected: flag,
                        ..old(self).files@[j]
                    }),
                forall|j: int| k <= j < n ==> (#[trigger] self.files@[j]) == old(self).files@[j],
            decreases n - k,
        {
            self.files[k].selected = flag;
            k += 1;
        }
    }
}

/// The details of an entry.
pub open spec fn projection_of(e: Entry) -> Seq<DetailView> {
    projection(e.filename@, tag_frames(e.tag))
}

/// The change that hands `added` to a tag.
pub open spec fn adds(added: FrameView) -> spec_fn(Seq<FrameView>, Seq<FrameView>) -> bool {
    |before: Seq<FrameView>, after: Seq<FrameView>| frame_added(before, added, after)
}

/// The change that takes every frame with the id `id` out of a tag.
pub open spec fn removes(id: Seq<char>) -> spec_fn(Seq<FrameView>, Seq<FrameView>) -> bool {
    |before: Seq<FrameView>, after: Seq<FrameView>| after == before.filter(not_id(id))
}

/// The change that takes the user-defined text described as `description`
/// out of a tag.
pub open spec fn drops_description(description: Seq<char>) -> spec_fn(
    Seq<FrameView>,
    Seq<FrameView>,
) -> bool {
    |before: Seq<FrameView>, after: Seq<FrameView>| after == before.filter(outlives(description))
}

/// The change that hands `added` to a tag unless the tag already holds a
/// frame with that id; user-defined text is handed over in any case.
pub open spec fn inserts(added: FrameView) -> spec_fn(Seq<FrameView>, Seq<FrameView>) -> bool {
    |before: Seq<FrameView>, after: Seq<FrameView>|
        if added.id != "TXXX"@ && first_with_id(before, added.id) is Some {
            after == before
        } else {
            frame_added(before, added, after)
        }
}

/// Whether `after` is `before` with `change` made to the tag of the
/// highlighted entry and of every selected entry, and to nothing else.
pub open spec fn fanned(
    before: Seq<Entry>,
    cursor: Option<usize>,
    after: Seq<Entry>,
    change: spec_fn(Seq<FrameView>, Seq<FrameView>) -> bool,
) -> bool {
    &&& after.len() == before.len()
    &&& forall|i: int|
        0 <= i < before.len() ==> {
            &&& (#[trigger] after[i]).path == before[i].path
            &&& after[i].filename == before[i].filename
            &&& after[i].selected == before[i].selected
            &&& if affected(before, cursor, i) {
                change(tag_frames(before[i].tag), tag_frames(after[i].tag))
            } else {
                after[i].tag == before[i].tag
            }
        }
}

/// The frame that the frames screen adds for an id: user-defined text with
/// a stock description and value, or empty plain text.
pub open spec fn fresh_frame(id: Seq<char>) -> FrameView {
    if id == "TXXX"@ {
        FrameView {
            id,
            content: ContentView::ExtendedText {
                description: "Description"@,
                value: "Value"@,
            },
        }
    } else {
        FrameView { id, content: ContentView::Text(""@) }
    }
}

/// The detail cursor once an edit has been committed: clamped to the
/// rebuilt details, then moved one line on if the details have the focus.
pub open spec fn detail_cursor_after_edit(a: MainState, b: MainState) -> Option<usize> {
    let mid = match a.files_state {
        Some(i) => clamped(a.details_state, projection_of(b.files@[i as int]).len()),
        None => a.details_state,
    };
    if a.focus == Focus::Details {
        moved(mid, b.details@.len(), true)
    } else {
        clamped(mid, b.details@.len())
    }
}

/// Whether `b` is `a` after an edit has been committed: `change` was made
/// to the tag of the highlighted entry and of every selected one, the
/// details were rebuilt, and the focused list moved one step on.
pub open spec fn edit_committed(
    a: MainState,
    b: MainState,
    change: spec_fn(Seq<FrameView>, Seq<FrameView>) -> bool,
) -> bool {
    &&& same_frame(a, b)
    &&& fanned(a.files@, a.files_state, b.files@, change)
    &&& settled(b)
    &&& b.files_state == if a.focus == Focus::Files {
        moved(a.files_state, a.files@.len(), true)
    } else {
        a.files_state
    }
    &&& b.details_state == detail_cursor_after_edit(a, b)
}

/// Whether `b` is `a` with `change` fanned out and the details rebuilt.
pub open spec fn changed_and_refreshed(
    a: MainState,
    b: MainState,
    change: spec_fn(Seq<FrameView>, Seq<FrameView>) -> bool,
) -> bool {
    &&& fanned(a.files@, a.files_state, b.files@, change)
    &&& refreshed(MainState { files: b.files, ..a }, b)
}

/// What the dialog opened on a detail starts with.
pub enum PopupSeed {
    Single { label: Seq<char>, text: Seq<char> },
    Double { description: Seq<char>, value: Seq<char> },
}

/// The dialog that edits a detail: one line for the file name and for plain
/// text, two fields for user-defined text (empty ones if the frame holds
/// none); no dialog for anything else.
pub open spec fn seed_for(d: DetailView) -> Option<PopupSeed> {
    match d {
        DetailView::FileName(name) => Some(PopupSeed::Single { label: "Filename"@, text: name }),
        DetailView::Frame(f) => if f.id == "TXXX"@ {
            match f.content {
                ContentView::ExtendedText { description, value } => Some(
                    PopupSeed::Double { description, value },
                ),
                _ => Some(PopupSeed::Double { description: ""@, value: ""@ }),
            }
        } else if is_text_frame()(f) {
            match f.content {
                ContentView::Text(t) => Some(PopupSeed::Single { label: f.id, text: t }),
                _ => None,
            }
        } else {
            None
        },
    }
}

/// Whether `p` is the freshly opened dialog that `seed` describes.
pub open spec fn grown_from(p: Popup, seed: PopupSeed) -> bool {
    match seed {
        PopupSeed::Single { label, text } => p matches Popup::SingleInput(s) && s.text@ == label
            && s.content@ == text && s.input@ == text && s.cursor_pos == text.len(),
        PopupSeed::Double { description, value } => p matches Popup::DoubleInput(d)
            && d.description@ == description && d.value@ == value && d.input@.len() == 0
            && d.list_state is None && d.cursor_pos == 0 && !d.input_focused,
    }
}

/// Whether `b` is `a` with one more dialog on top, and which, or `a` itself
/// where the highlighted detail has no dialog.
pub open spec fn popup_spawned(a: MainState, b: MainState) -> bool {
    let seed = match a.details_state {
        Some(j) => seed_for(a.details@[j as int]@),
        None => None,
    };
    match seed {
        Some(seed) => one_more_popup(a, b) && grown_from(b.popup_stack@.last(), seed),
        None => b == a,
    }
}

/// Whether `b` is `a` with the highlighted detail's frame removed, by its
/// id, from the highlighted entry and from every selected one, and the
/// details rebuilt. The file name is not a frame and stays.
pub open spec fn frames_removed(a: MainState, b: MainState) -> bool {
    match a.details_state {
        Some(j) => match a.details@[j as int]@ {
            DetailView::Frame(f) => changed_and_refreshed(a, b, removes(f.id)),
            DetailView::FileName(_) => b == a,
        },
        None => b == a,
    }
}

/// Whether `b` is `a` with the focus on the other list. The first time the
/// details get it, their first line is highlighted.
pub open spec fn focus_switched(a: MainState, b: MainState) -> bool {
    &&& b == (MainState { focus: b.focus, details_state: b.details_state, ..a })
    &&& b.focus == if a.focus == Focus::Files {
        Focus::Details
    } else {
        Focus::Files
    }
    &&& b.details_state == if a.focus == Focus::Files && a.details_state is None && a.details@.len()
        > 0 {
        Some(0usize)
    } else {
        a.details_state
    }
}

/// Whether `b` is `a` with one more dialog on top.
pub open spec fn one_more_popup(a: MainState, b: MainState) -> bool {
    &&& b == (MainState { popup_stack: b.popup_stack, ..a })
    &&& b.popup_stack@.len() == a.popup_stack@.len() + 1
    &&& b.popup_stack@.drop_last() == a.popup_stack@
}

/// Whether `b` is `a` with the template dialog opened on the current
/// template.
pub open spec fn template_popup_spawned(a: MainState, b: MainState) -> bool {
    &&& one_more_popup(a, b)
    &&& b.popup_stack@.last() matches Popup::TemplateInput(t) && t.input@ == a.template_string@
        && t.content@ == a.template_string@ && t.cursor_pos == a.template_string@.len()
}

/// Whether `b` is `a` with the main screen's help page opened.
pub open spec fn help_spawned(a: MainState, b: MainState) -> bool {
    &&& one_more_popup(a, b)
    &&& b.popup_stack@.last() matches Popup::Help(h) && h.title@ == "Main Help"@ && h.data@
        == a.help_text@
}

impl MainState {
    /// Hands `frame` to the tag of the highlighted entry and of every
    /// selected entry.
    fn put_frame(&mut self, frame: &Frame)
        requires
            old(self).wf(),
            is_frame_id(frame@.id),
            !(frame@.content is Other),
        ensures
            final(self).wf(),
            *final(self) == (MainState { files: final(self).files, ..*old(self) }),
            fanned(old(self).files@, old(self).files_state, final(self).files@, adds(frame@)),
    {
        let n = self.files.len();
        let cursor = self.files_state;
        let mut i: usize = 0;
        while i < n
            invariant
                i <= n,
                n == self.files@.len(),
                n == old(self).files@.len(),
                cursor == old(self).files_state,
                is_frame_id(frame@.id),
                !(frame@.content is Other),
                *self == (MainState { files: self.files, ..*old(self) }),
                forall|k: int|
                    0 <= k < n ==> {
                        &&& (#[trigger] self.files@[k]).path == old(self).files@[k].path
                        &&& self.files@[k].filename == old(self).files@[k].filename
                        &&& self.files@[k].selected == old(self).files@[k].selected
                    },
                forall|k: int|
                    0 <= k < i ==> if affected(old(self).files@, cursor, k) {
                        adds(frame@)(
                            tag_frames(old(self).files@[k].tag),
                            tag_frames((#[trigger] self.files@[k]).tag),
                        )
                    } else {
                        self.files@[k].tag == old(self).files@[k].tag
                    },
                forall|k: int| i <= k < n ==> (#[trigger] self.files@[k]) == old(self).files@[k],
            decreases n - i,
        {
            let highlighted = match cursor {
                Some(c) => c == i,
                None => false,
            };
            if self.files[i].selected || highlighted {
                tag_add_frame(&mut self.files[i].tag, frame);
            }
            i += 1;
        }
    }

    /// Takes every frame with the id `id` out of the tag of the highlighted
    /// entry and of every selected entry.
    fn drop_frames(&mut self, id: &str)
        requires
            old(self).wf(),
        ensures
            final(self).wf(),
            *final(self) == (MainState { files: final(self).files, ..*old(self) }),
            fanned(old(self).files@, old(self).files_state, final(self).files@, removes(id@)),
    {
        let n = self.files.len();
        let cursor = self.files_state;
        let mut i: usize = 0;
        while i < n
            invariant
                i <= n,
                n == self.files@.len(),
                n == old(self).files@.len(),
                cursor == old(self).files_state,
                *self == (MainState { files: self.files, ..*old(self) }),
                forall|k: int|
                    0 <= k < n ==> {
                        &&& (#[trigger] self.files@[k]).path == old(self).files@[k].path
                        &&& self.files@[k].filename == old(self).files@[k].filename
                        &&& self.files@[k].selected == old(self).files@[k].selected
                    },
                forall|k: int|
                    0 <= k < i ==> if affected(old(self).files@, cursor, k) {
                        removes(id@)(
                            tag_frames(old(self).files@[k].tag),
                            tag_frames((#[trigger] self.files@[k]).tag),
                        )
                    } else {
                        self.files@[k].tag == old(self).files@[k].tag
                    },
                forall|k: int| i <= k < n ==> (#[trigger] self.files@[k]) == old(self).files@[k],
            decreases n - i,
        {
            let highlighted = match cursor {
                Some(c) => c == i,
                None => false,
            };
            if self.files[i].selected || highlighted {
                tag_remove(&mut self.files[i].tag, id);
            }
            i += 1;
        }
    }

    /// Takes the user-defined text described as `description` out of the tag
    /// of the highlighted entry and of every selected entry.
    pub fn remove_old_txxx_frame(&mut self, description: &str)
        requires
            old(self).wf(),
        ensures
            final(self).wf(),
            *final(self) == (MainState { files: final(self).files, ..*old(self) }),
            fanned(
                old(self).files@,
                old(self).files_state,
                final(self).files@,
                drops_description(description@),
            ),
    {
        let n = self.files.len();
        let cursor = self.files_state;
        let mut i: usize = 0;
        while i < n
            invariant
                i <= n,
                n == self.files@.len(),
                n == old(self).files@.len(),
                cursor == old(self).files_state,
                *self == (MainState { files: self.files, ..*old(self) }),
                forall|k: int|
                    0 <= k < n ==> {
                        &&& (#[trigger] self.files@[k]).path == old(self).files@[k].path
                        &&& self.files@[k].filename == old(self).files@[k].filename
                        &&& self.files@[k].selected == old(self).files@[k].selected
                    },
                forall|k: int|
                    0 <= k < i ==> if affected(old(self).files@, cursor, k) {
                        drops_description(description@)(
                            tag_frames(old(self).files@[k].tag),
                            tag_frames((#[trigger] self.files@[k]).tag),
                        )
                    } else {
                        self.files@[k].tag == old(self).files@[k].tag
                    },
                forall|k: int| i <= k < n ==> (#[trigger] self.files@[k]) == old(self).files@[k],
            decreases n - i,
        {
            let highlighted = match cursor {
                Some(c) => c == i,
                None => false,
            };
            if self.files[i].selected || highlighted {
                tag_remove_extended_text(&mut self.files[i].tag, description);
            }
            i += 1;
        }
    }

    /// Commits an edited frame: to the highlighted entry and to every
    /// selected one; then the details are rebuilt and the focused list moves
    /// one step on.
    pub fn update_files(&mut self, new_frame: &Frame)
        requires
            old(self).wf(),
            is_frame_id(new_frame@.id),
            !(new_frame@.content is Other),
        ensures
            final(self).wf(),
            edit_committed(*old(self), *final(self), adds(new_frame@)),
    {
        self.put_frame(new_frame);
        self.update_details();
        self.next();
    }

    /// Adds a frame of the kind `id` to the highlighted entry and to every
    /// selected one. Plain text is added only where the tag has no frame
    /// with that id yet; user-defined text is added in any case. An id that
    /// is not four bytes long adds nothing.
    pub fn add_frame(&mut self, id: &str)
        requires
            old(self).wf(),
        ensures
            final(self).wf(),
            is_frame_id(id@) ==> changed_and_refreshed(
                *old(self),
                *final(self),
                inserts(fresh_frame(id@)),
            ),
            !is_frame_id(id@) ==> *final(self) == *old(self),
    {
        if !check_frame_id(id) {
            return ;
        }
        let extended = str_eq(id, "TXXX");
        let frame = if extended {
            Frame::extended_text(id, "Description", "Value")
        } else {
            Frame::text(id, "")
        };
        let n = self.files.len();
        let cursor = self.files_state;
        let mut i: usize = 0;
        while i < n
            invariant
                i <= n,
                n == self.files@.len(),
                n == old(self).files@.len(),
                cursor == old(self).files_state,
                is_frame_id(frame@.id),
                frame@ == fresh_frame(id@),
                !(frame@.content is Other),
                extended == (id@ == "TXXX"@),
                *self == (MainState { files: self.files, ..*old(self) }),
                forall|k: int|
                    0 <= k < n ==> {
                        &&& (#[trigger] self.files@[k]).path == old(self).files@[k].path
                        &&& self.files@[k].filename == old(self).files@[k].filename
                        &&& self.files@[k].selected == old(self).files@[k].selected
                    },
                forall|k: int|
                    0 <= k < i ==> if affected(old(self).files@, cursor, k) {
                        inserts(frame@)(
                            tag_frames(old(self).files@[k].tag),
                            tag_frames((#[trigger] self.files@[k]).tag),
                        )
                    } else {
                        self.files@[k].tag == old(self).files@[k].tag
                    },
                forall|k: int| i <= k < n ==> (#[trigger] self.files@[k]) == old(self).files@[k],
            decreases n - i,
        {
            let highlighted = match cursor {
                Some(c) => c == i,
                None => false,
            };
            if self.files[i].selected || highlighted {
                let present = if extended {
                    false
                } else {
                    let frames = tag_read_frames(&self.files[i].tag);
                    position_of_id(&frames, id).is_some()
                };
                if !present {
                    tag_add_frame(&mut self.files[i].tag, &frame);
                }
            }
            i += 1;
        }
        self.update_details();
    }

    /// Removes the highlighted detail's frame, by its id, from the
    /// highlighted entry and from every selected one. The file name is not
    /// a frame and stays.
    pub fn remove_frames(&mut self)
        requires
            old(self).wf(),
        ensures
            final(self).wf(),
            frames_removed(*old(self), *final(self)),
    {
        let id = match self.details_state {
            Some(j) => match &self.details[j] {
                DetailItem::FileName(_) => {
                    return ;
                },
                DetailItem::Frame(frame) => frame.id.clone(),
            },
            None => {
                return ;
            },
        };
        self.drop_frames(id.as_str());
        self.update_details();
    }

    /// Gives the highlighted entry a new file name.
    fn update_filename(&mut self, name: String)
        requires
            old(self).wf(),
        ensures
            final(self).wf(),
            *final(self) == (MainState { files: final(self).files, ..*old(self) }),
            match old(self).files_state {
                Some(i) => final(self).files@ == old(self).files@.update(
                    i as int,
                    Entry { filename: name, ..old(self).files@[i as int] },
                ),
                None => final(self).files == old(self).files,
            },
    {
        if let Some(i) = self.files_state {
            self.files[i].filename = name;
            assert(self.files@ =~= old(self).files@.update(
                i as int,
                Entry { filename: name, ..old(self).files@[i as int] },
            ));
        }
    }

    /// Moves the focus to the other list. The first time the details get
    /// it, their first line is highlighted.
    pub fn switch_focus(&mut self)
        requires
            old(self).wf(),
        ensures
            final(self).wf(),
            focus_switched(*old(self), *final(self)),
    {
        match self.focus {
            Focus::Files => {
                if self.details_state.is_none() && self.details.len() > 0 {
                    self.details_state = Some(0);
                }
                self.focus = Focus::Details;
            },
            Focus::Details => {
                self.focus = Focus::Files;
            },
        }
    }

    /// Opens the dialog that edits the highlighted detail.
    pub fn spawn_popup(&mut self)
        requires
            old(self).wf(),
        ensures
            final(self).wf(),
            popup_spawned(*old(self), *final(self)),
    {
        let j = match self.details_state {
            Some(j) => j,
            None => {
                return ;
            },
        };
        let popup = match &self.details[j] {
            DetailItem::FileName(name) => Popup::SingleInput(
                SingleInput::new("Filename", name.as_str()),
            ),
            DetailItem::Frame(frame) => {
                if str_eq(frame.id.as_str(), "TXXX") {
                    match &frame.content {
                        Content::ExtendedText { description, value } => Popup::DoubleInput(
                            DoubleInput::new(description.as_str(), value.as_str()),
                        ),
                        _ => Popup::DoubleInput(DoubleInput::new("", "")),
                    }
                } else if starts_with_char(frame.id.as_str(), 'T') {
                    match &frame.content {
                        Content::Text(t) => Popup::SingleInput(
                            SingleInput::new(frame.id.as_str(), t.as_str()),
                        ),
                        _ => {
                            return ;
                        },
                    }
                } else {
                    return ;
                }
            },
        };
        self.popup_stack.push(popup);
        proof {
            assert(self.popup_stack@.drop_last() =~= old(self).popup_stack@);
        }
    }

    /// Opens the dialog that edits the rename template.
    pub fn spawn_template_popup(&mut self)
        requires
            old(self).wf(),
        ensures
            final(self).wf(),
            template_popup_spawned(*old(self), *final(self)),
    {
        let popup = TemplateInput::new(self.template_string.as_str());
        self.popup_stack.push(Popup::TemplateInput(popup));
        proof {
            assert(self.popup_stack@.drop_last() =~= old(self).popup_stack@);
        }
    }

    /// The dialog that receives input, if one is open.
    pub fn popup_widget(&self) -> (r: Option<&Popup>)
        ensures
            match r {
                Some(p) => self.popup_stack@.len() > 0 && *p == self.popup_stack@.last(),
                None => self.popup_stack@.len() == 0,
            },
    {
        let n = self.popup_stack.len();
        if n == 0 {
            None
        } else {
            Some(&self.popup_stack[n - 1])
        }
    }
}

/// Whether `after` is `before` with every selected entry named by the
/// template, where each placeholder resolves in the entry's tag; an entry
/// with a placeholder that does not resolve keeps its name, and so does
/// every unselected entry.
pub open spec fn renamed(
    before: Seq<Entry>,
    after: Seq<Entry>,
    template: Seq<char>,
    matches: Seq<Seq<char>>,
) -> bool {
    &&& after.len() == before.len()
    &&& forall|i: int|
        0 <= i < before.len() ==> {
            &&& (#[trigger] after[i]) == (Entry { filename: after[i].filename, ..before[i] })
            &&& after[i].filename@ == if before[i].selected {
                match template_name(template, tag_frames(before[i].tag), matches) {
                    Some(name) => name,
                    None => before[i].filename@,
                }
            } else {
                before[i].filename@
            }
        }
}

/// Whether `b` is `a` after a rename by the template whose placeholders are
/// `matches`, with the details rebuilt.
pub open spec fn renamed_and_refreshed(
    a: MainState,
    b: MainState,
    matches: Seq<Seq<char>>,
) -> bool {
    &&& renamed(a.files@, b.files@, a.template_string@, matches)
    &&& refreshed(MainState { files: b.files, ..a }, b)
}

/// Whether `b` is `a` after a rename by its template. A template in which
/// no placeholder can be looked for renames nothing.
pub open spec fn names_updated(a: MainState, b: MainState) -> bool {
    match regex_matches("\\{[\\w]+\\}"@, a.template_string@) {
        Some(matches) => renamed_and_refreshed(a, b, matches),
        None => refreshed(a, b),
    }
}

/// Whether `b` is `a` with the file name in detail line `j` and the name of
/// the highlighted entry set to `text`.
pub open spec fn file_renamed(a: MainState, b: MainState, j: int, text: Seq<char>) -> bool {
    &&& b == (MainState { files: b.files, details: b.details, ..a })
    &&& detail_views(b.details@) == detail_views(a.details@).update(j, DetailView::FileName(text))
    &&& match a.files_state {
        Some(i) => b.files@ == a.files@.update(
            i as int,
            Entry { filename: b.files@[i as int].filename, ..a.files@[i as int] },
        ) && b.files@[i as int].filename@ == text,
        None => b.files == a.files,
    }
}

/// Whether `b` is `a` after a one-line dialog has handed back `text` for the
/// highlighted detail. An empty text changes nothing. A file name goes to
/// the highlighted entry alone; a frame's text is committed as an edit.
pub open spec fn single_applied(a: MainState, b: MainState, text: Seq<char>) -> bool {
    if text.len() == 0 {
        b == a
    } else {
        match a.details_state {
            Some(j) => match a.details@[j as int]@ {
                DetailView::FileName(_) => file_renamed(a, b, j as int, text),
                DetailView::Frame(f) => if is_frame_id(f.id) {
                    edit_committed(
                        a,
                        b,
                        adds(FrameView { id: f.id, content: ContentView::Text(text) }),
                    )
                } else {
                    b == a
                },
            },
            None => b == a,
        }
    }
}

/// The change that an edit of user-defined text makes to a tag: the frame
/// under the old description leaves first if the description has changed,
/// then the edited frame is handed over.
pub open spec fn redescribes(f: FrameView, description: Seq<char>, value: Seq<char>) -> spec_fn(
    Seq<FrameView>,
    Seq<FrameView>,
) -> bool {
    let added = FrameView { id: f.id, content: ContentView::ExtendedText { description, value } };
    match f.content {
        ContentView::ExtendedText { description: previous, .. } => if previous != description {
            |before: Seq<FrameView>, after: Seq<FrameView>|
                frame_added(before.filter(outlives(previous)), added, after)
        } else {
            adds(added)
        },
        _ => adds(added),
    }
}

/// Whether `b` is `a` after a two-field dialog has handed back a
/// description and a value for the highlighted detail. An empty field
/// changes nothing; else the edit is committed.
pub open spec fn double_applied(
    a: MainState,
    b: MainState,
    description: Seq<char>,
    value: Seq<char>,
) -> bool {
    if description.len() == 0 || value.len() == 0 {
        b == a
    } else {
        match a.details_state {
            Some(j) => match a.details@[j as int]@ {
                DetailView::Frame(f) => if is_frame_id(f.id) {
                    edit_committed(a, b, redescribes(f, description, value))
                } else {
                    b == a
                },
                DetailView::FileName(_) => b == a,
            },
            None => b == a,
        }
    }
}

/// Whether `b` is `a` with the template set to `text`; an empty text
/// changes nothing.
pub open spec fn template_applied(a: MainState, b: MainState, text: Seq<char>) -> bool {
    if text.len() == 0 {
        b == a
    } else {
        b == (MainState { template_string: b.template_string, ..a }) && b.template_string@ == text
    }
}

/// Whether `b` is `a` after what a closing dialog handed back has been
/// taken in.
pub open spec fn data_applied(a: MainState, b: MainState, data: PopupData) -> bool {
    match data {
        PopupData::SingleInput(text) => single_applied(a, b, text@),
        PopupData::DoubleInput(description, value) => double_applied(a, b, description@, value@),
        PopupData::TemplateInput(text) => template_applied(a, b, text@),
    }
}

/// Whether `b` is `a` without its top dialog.
pub open spec fn popped(a: MainState, b: MainState) -> bool {
    &&& b == (MainState { popup_stack: b.popup_stack, ..a })
    &&& b.popup_stack@ == a.popup_stack@.drop_last()
}

/// Whether `b` is `a` with `q` in place of its top dialog.
pub open spec fn top_replaced(a: MainState, q: Popup, b: MainState) -> bool {
    &&& b == (MainState { popup_stack: b.popup_stack, ..a })
    &&& b.popup_stack@ == a.popup_stack@.update(a.popup_stack@.len() - 1, q)
}

/// What the screen does once its top dialog has taken a key, become `q` and
/// answered `ev`: a closing dialog leaves the stack, and what it hands back
/// is taken in; a request to switch screens is passed on.
pub open spec fn popup_settled(
    a: MainState,
    q: Popup,
    ev: AppEvent,
    b: MainState,
    event: AppEvent,
) -> bool {
    match ev {
        AppEvent::ClosePopup => event is NoOp && popped(a, b),
        AppEvent::ClosePopupData(data) => event is NoOp && exists|m: MainState|
            popped(a, m) && #[trigger] data_applied(m, b, data),
        AppEvent::SwitchScreen(s) => event == AppEvent::SwitchScreen(s) && top_replaced(a, q, b),
        _ => event is NoOp && top_replaced(a, q, b),
    }
}

/// What a key press does while a dialog is open: the top dialog alone takes
/// it.
pub open spec fn popup_handled(
    a: MainState,
    key: Key,
    action: Action,
    b: MainState,
    event: AppEvent,
) -> bool {
    exists|q: Popup, ev: AppEvent| #[trigger]
        popup_stepped(a.popup_stack@.last(), key, action, q, ev) && popup_settled(
            a,
            q,
            ev,
            b,
            event,
        )
}

/// What an action asks of the caller when no dialog is open.
pub open spec fn event_for(action: Action, event: AppEvent) -> bool {
    match action {
        Action::Quit => event is Quit,
        Action::ScreenOne => event == AppEvent::SwitchScreen(ScreenState::Main),
        Action::ScreenTwo => event == AppEvent::SwitchScreen(ScreenState::Files),
        Action::ScreenThree => event == AppEvent::SwitchScreen(ScreenState::Frames),
        Action::WriteTags => event is WriteTags,
        _ => event is NoOp,
    }
}

/// What an action does to the main screen when no dialog is open.
pub open spec fn action_applied(a: MainState, action: Action, b: MainState) -> bool {
    match action {
        Action::Help => help_spawned(a, b),
        Action::Prev => navigated(a, b, false),
        Action::Next => navigated(a, b, true),
        Action::SwitchFocus => focus_switched(a, b),
        Action::RemoveFiles => all_removed(a, b),
        Action::SelectCurrent => if a.focus == Focus::Files {
            entry_toggled(a, b)
        } else {
            b == a
        },
        Action::SelectAll => if a.focus == Focus::Files {
            all_toggled(a, b)
        } else {
            b == a
        },
        Action::Remove => if a.focus == Focus::Files {
            files_removed(a, b)
        } else {
            frames_removed(a, b)
        },
        Action::SpawnPopup => popup_spawned(a, b),
        Action::UpdateNames => names_updated(a, b),
        Action::TemplatePopup => template_popup_spawned(a, b),
        _ => b == a,
    }
}

/// What one key press, bound to the actions `candidates`, does to the
/// screen and to the log view, and what it leaves for the caller. With a
/// dialog open the top dialog takes the key and the log view stays; else
/// the action that the press resolves to is carried out.
pub open spec fn main_handled(
    a: MainState,
    key: Key,
    candidates: Seq<Action>,
    shown_before: bool,
    log_before: Logger,
    b: MainState,
    shown_after: bool,
    log_after: Logger,
    event: AppEvent,
) -> bool {
    if a.popup_stack@.len() > 0 {
        &&& popup_handled(a, key, resolved(candidates, Scope::MainPopup), b, event)
        &&& shown_after == shown_before
        &&& log_after == log_before
    } else {
        &&& event_for(resolved(candidates, Scope::Main), event)
        &&& action_applied(a, resolved(candidates, Scope::Main), b)
        &&& logs_applied(
            resolved(candidates, Scope::Main),
            shown_before,
            log_before,
            shown_after,
            log_after,
        )
    }
}

impl MainState {
    /// Renames every selected entry by the template, given the template's
    /// placeholders in the order in which they were found. An entry with a
    /// placeholder that does not resolve keeps its name.
    pub fn rename_selected(&mut self, matches: &Vec<String>)
        requires
            old(self).wf(),
        ensures
            final(self).wf(),
            renamed_and_refreshed(*old(self), *final(self), string_views(matches@)),
    {
        let n = self.files.len();
        let mut i: usize = 0;
        while i < n
            invariant
                i <= n,
                n == self.files@.len(),
                n == old(self).files@.len(),
                *self == (MainState { files: self.files, ..*old(self) }),
                forall|k: int|
                    0 <= k < i ==> {
                        &&& (#[trigger] self.files@[k]) == (Entry {
                            filename: self.files@[k].filename,
                            ..old(self).files@[k]
                        })
                        &&& self.files@[k].filename@ == if old(self).files@[k].selected {
                            match template_name(
                                old(self).template_string@,
                                tag_frames(old(self).files@[k].tag),
                                string_views(matches@),
                            ) {
                                Some(name) => name,
                                None => old(self).files@[k].filename@,
                            }
                        } else {
                            old(self).files@[k].filename@
                        }
                    },
                forall|k: int| i <= k < n ==> (#[trigger] self.files@[k]) == old(self).files@[k],
            decreases n - i,
        {
            if self.files[i].selected {
                let frames = tag_read_frames(&self.files[i].tag);
                match render_name(self.template_string.as_str(), &frames, matches) {
                    Some(name) => {
                        self.files[i].filename = name;
                    },
                    None => {},
                }
            }
            i += 1;
        }
        self.update_details();
    }

    /// Renames every selected entry by the template.
    pub fn update_filenames(&mut self)
        requires
            old(self).wf(),
        ensures
            final(self).wf(),
            names_updated(*old(self), *final(self)),
    {
        match regex_find_all(placeholder_pattern(), self.template_string.as_str()) {
            Some(matches) => self.rename_selected(&matches),
            None => self.update_details(),
        }
    }

    /// Opens the main screen's help page.
    pub fn spawn_help_popup(&mut self)
        requires
            old(self).wf(),
        ensures
            final(self).wf(),
            help_spawned(*old(self), *final(self)),
    {
        let popup = HelpPopup::new(String::from_str("Main Help"), self.help_text.clone());
        self.popup_stack.push(Popup::Help(popup));
        proof {
            assert(self.popup_stack@.drop_last() =~= old(self).popup_stack@);
        }
    }

    /// Takes in the text that a one-line dialog handed back.
    fn apply_single(&mut self, text: String)
        requires
            old(self).wf(),
        ensures
            final(self).wf(),
            single_applied(*old(self), *final(self), text@),
    {
        if text.as_str().unicode_len() == 0 {
            return ;
        }
        let j = match self.details_state {
            Some(j) => j,
            None => {
                return ;
            },
        };
        let target: Option<String> = match &self.details[j] {
            DetailItem::FileName(_) => None,
            DetailItem::Frame(frame) => Some(frame.id.clone()),
        };
        match target {
            None => {
                self.details.set(j, DetailItem::FileName(text.clone()));
                proof {
                    assert(detail_views(self.details@) =~= detail_views(old(self).details@).update(
                        j as int,
                        DetailView::FileName(text@),
                    ));
                }
                self.update_filename(text);
            },
            Some(id) => {
                if check_frame_id(id.as_str()) {
                    let frame = Frame::text(id.as_str(), text.as_str());
                    self.update_files(&frame);
                }
            },
        }
    }

    /// Takes in the description and value that a two-field dialog handed
    /// back.
    fn apply_double(&mut self, description: String, value: String)
        requires
            old(self).wf(),
        ensures
            final(self).wf(),
            double_applied(*old(self), *final(self), description@, value@),
    {
        if description.as_str().unicode_len() == 0 || value.as_str().unicode_len() == 0 {
            return ;
        }
        let j = match self.details_state {
            Some(j) => j,
            None => {
                return ;
            },
        };
        let (id, previous): (String, Option<String>) = match &self.details[j] {
            DetailItem::FileName(_) => {
                return ;
            },
            DetailItem::Frame(frame) => (
                frame.id.clone(),
                match &frame.content {
                    Content::ExtendedText { description: d, .. } => Some(d.clone()),
                    _ => None,
                },
            ),
        };
        if !check_frame_id(id.as_str()) {
            return ;
        }
        let ghost shown = old(self).details@[j as int]@->Frame_0;
        let frame = Frame::extended_text(id.as_str(), description.as_str(), value.as_str());
        let stale = match &previous {
            Some(p) => !str_eq(p.as_str(), description.as_str()),
            None => false,
        };
        if stale {
            let p = previous.unwrap();
            self.remove_old_txxx_frame(p.as_str());
            let ghost mid = *self;
            self.update_files(&frame);
            proof {
                let a = *old(self);
                let b = *self;
                let change = redescribes(shown, description@, value@);
                assert forall|i: int| 0 <= i < a.files@.len() implies {
                    &&& (#[trigger] b.files@[i]).path == a.files@[i].path
                    &&& b.files@[i].filename == a.files@[i].filename
                    &&& b.files@[i].selected == a.files@[i].selected
                    &&& if affected(a.files@, a.files_state, i) {
                        change(tag_frames(a.files@[i].tag), tag_frames(b.files@[i].tag))
                    } else {
                        b.files@[i].tag == a.files@[i].tag
                    }
                } by {
                    assert(mid.files@[i].selected == a.files@[i].selected);
                    assert(affected(a.files@, a.files_state, i) == affected(
                        mid.files@,
                        mid.files_state,
                        i,
                    ));
                }
            }
        } else {
            self.update_files(&frame);
        }
    }

    /// Takes in the template that the template dialog handed back.
    fn apply_template(&mut self, text: String)
        requires
            old(self).wf(),
        ensures
            final(self).wf(),
            template_applied(*old(self), *final(self), text@),
    {
        if text.as_str().unicode_len() == 0 {
            return ;
        }
        self.template_string = text;
    }

    /// Handles one key press, given every action the key is bound to. With
    /// a dialog open the top dialog takes the key; else the action that the
    /// press resolves to is carried out. What is left for the caller to do
    /// comes back as the event.
    pub fn handle_input(
        &mut self,
        key: Key,
        actions: &Vec<Action>,
        show_logs: &mut bool,
        logger: &mut Logger,
    ) -> (event: AppEvent)
        requires
            old(self).wf(),
        ensures
            final(self).wf(),
            old(logger).wf() ==> final(logger).wf(),
            main_handled(
                *old(self),
                key,
                actions@,
                *old(show_logs),
                *old(logger),
                *final(self),
                *final(show_logs),
                *final(logger),
                event,
            ),
    {
        let n = self.popup_stack.len();
        if n > 0 {
            let action = resolve(actions, Scope::MainPopup);
            let ghost top = self.popup_stack@[n - 1];
            assert(top == old(self).popup_stack@.last());
            let ev = self.popup_stack[n - 1].handle_input(key, action);
            let ghost q = self.popup_stack@[n - 1];
            let ghost stepped_state = *self;
            assert(popup_stepped(top, key, action, q, ev));
            assert(top_replaced(*old(self), q, *self)) by {
                assert(self.popup_stack@ =~= old(self).popup_stack@.update(n - 1, q));
            }
            match ev {
                AppEvent::ClosePopup => {
                    self.popup_stack.pop();
                    assert(popped(*old(self), *self)) by {
                        assert(self.popup_stack@ =~= old(self).popup_stack@.drop_last());
                    }
                    assert(popup_settled(*old(self), q, ev, *self, AppEvent::NoOp));
                    AppEvent::NoOp
                },
                AppEvent::ClosePopupData(data) => {
                    self.popup_stack.pop();
                    let ghost m = *self;
                    assert(popped(*old(self), m)) by {
                        assert(self.popup_stack@ =~= old(self).popup_stack@.drop_last());
                    }
                    match data {
                        PopupData::SingleInput(text) => {
                            self.apply_single(text);
                        },
                        PopupData::DoubleInput(description, value) => {
                            self.apply_double(description, value);
                        },
                        PopupData::TemplateInput(text) => {
                            self.apply_template(text);
                        },
                    }
                    assert(data_applied(m, *self, data));
                    assert(popup_settled(*old(self), q, ev, *self, AppEvent::NoOp));
                    AppEvent::NoOp
                },
                AppEvent::SwitchScreen(s) => {
                    let event = update_screen_state(s);
                    assert(popup_settled(*old(self), q, ev, *self, event));
                    event
                },
                _ => {
                    assert(popup_settled(*old(self), q, ev, *self, AppEvent::NoOp));
                    AppEvent::NoOp
                },
            }
        } else {
            let action = resolve(actions, Scope::Main);
            match action {
                Action::Quit => {
                    return AppEvent::Quit;
                },
                Action::ScreenOne => {
                    return update_screen_state(ScreenState::Main);
                },
                Action::ScreenTwo => {
                    return update_screen_state(ScreenState::Files);
                },
                Action::ScreenThree => {
                    return update_screen_state(ScreenState::Frames);
                },
                Action::WriteTags => {
                    return AppEvent::WriteTags;
                },
                Action::ToggleLogs => {
                    *show_logs = !*show_logs;
                },
                Action::LogsPrev => logger.prev(),
                Action::LogsNext => logger.next(),
                Action::Help => self.spawn_help_popup(),
                Action::Prev => self.prev(),
                Action::Next => self.next(),
                Action::SwitchFocus => self.switch_focus(),
                Action::RemoveFiles => self.remove_all_files(),
                Action::SelectCurrent => {
                    if self.focus == Focus::Files {
                        self.select_entry();
                    }
                },
                Action::SelectAll => {
                    if self.focus == Focus::Files {
                        self.select_all_entries();
                    }
                },
                Action::Remove => {
                    if self.focus == Focus::Files {
                        self.remove_files();
                    } else {
                        self.remove_frames();
                    }
                },
                Action::SpawnPopup => self.spawn_popup(),
                Action::UpdateNames => self.update_filenames(),
                Action::TemplatePopup => self.spawn_template_popup(),
                _ => {},
            }
            AppEvent::NoOp
        }
    }

    /// Rewrites the help page from the keys that the actions are bound to.
    pub fn update_help_text(&mut self, config: &KeyBindings)
        requires
            help_ready(config.pairs@, Action::Quit),
            help_ready(config.pairs@, Action::RemoveFiles),
            help_ready(config.pairs@, Action::Remove),
            help_ready(config.pairs@, Action::SelectCurrent),
            help_ready(config.pairs@, Action::SelectAll),
            help_ready(config.pairs@, Action::WriteTags),
        ensures
            *final(self) == (MainState { help_text: final(self).help_text, ..*old(self) }),
            string_views(final(self).help_text@) == seq![
                help_line_of(config.pairs@, Action::Quit, "Quit"@),
                help_line_of(config.pairs@, Action::RemoveFiles, "Remove all files"@),
                help_line_of(config.pairs@, Action::Remove, "Remove selected files/frame"@),
                help_line_of(config.pairs@, Action::SelectCurrent, "Select highlighted file"@),
                help_line_of(config.pairs@, Action::SelectAll, "Select/Deselect all files"@),
                help_line_of(config.pairs@, Action::WriteTags, "Write changes"@),
            ],
    {
        let mut lines: Vec<String> = Vec::new();
        lines.push(config.help_line_for(Action::Quit, "Quit"));
        lines.push(config.help_line_for(Action::RemoveFiles, "Remove all files"));
        lines.push(config.help_line_for(Action::Remove, "Remove selected files/frame"));
        lines.push(config.help_line_for(Action::SelectCurrent, "Select highlighted file"));
        lines.push(config.help_line_for(Action::SelectAll, "Select/Deselect all files"));
        lines.push(config.help_line_for(Action::WriteTags, "Write changes"));
        proof {
            assert(string_views(lines@) =~= seq![
                help_line_of(config.pairs@, Action::Quit, "Quit"@),
                help_line_of(config.pairs@, Action::RemoveFiles, "Remove all files"@),
                help_line_of(config.pairs@, Action::Remove, "Remove selected files/frame"@),
                help_line_of(config.pairs@, Action::SelectCurrent, "Select highlighted file"@),
                help_line_of(config.pairs@, Action::SelectAll, "Select/Deselect all files"@),
                help_line_of(config.pairs@, Action::WriteTags, "Write changes"@),
            ]);
        }
        self.help_text = lines;
    }
}

} // verus!
