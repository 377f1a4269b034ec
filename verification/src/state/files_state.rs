//! The file browser: directory listings reduced to what can be tagged,
//! their order, and the requests the browser makes of its caller.

use vstd::prelude::*;
use crate::actions::{
    help_line_of, help_ready, resolve, resolved, Action, Key, KeyBindings, Scope,
};
use crate::logger::Logger;
use crate::order::{
    ascending, in_range, key_views, lemma_least_stays_first, lemma_sorted_order,
    lemma_sorted_order_stable, sort_order, sorted_order, stable, SortKey, SortKeyView,
};
use crate::popups::help::HelpPopup;
use crate::rename::string_views;
use crate::popups::{popup_stepped, Popup};
use crate::seqs::{lemma_filter_empty, lemma_filter_push, reversed};
use crate::state::main_state::{file_name_of, moved, Entry};
use crate::state::{logs_applied, update_screen_state, AppEvent, DirRequest, ScreenState};
use crate::tag::{tag_frames, tag_new, FrameView};
use crate::text::{chars_of, starts_with_char};

verus! {

/// One entry of a directory, as read from disk.
pub struct DirItem {
    pub path: String,
    pub name: String,
    pub is_dir: bool,
}

/// Mathematical value of a `DirItem`.
pub struct DirItemView {
    pub path: Seq<char>,
    pub name: Seq<char>,
    pub is_dir: bool,
}

impl View for DirItem {
    type V = DirItemView;

    open spec fn view(&self) -> DirItemView {
        DirItemView { path: self.path@, name: self.name@, is_dir: self.is_dir }
    }
}

impl DirItem {
    /// A copy with the same value.
    pub fn duplicate(&self) -> (r: DirItem)
        ensures
            r@ == self@,
    {
        DirItem { path: self.path.clone(), name: self.name.clone(), is_dir: self.is_dir }
    }
}

/// One row of the file browser.
pub enum FilesStateItem {
    /// The row that leads to the parent directory.
    Parent,
    /// A directory or an audio file.
    DirEntry(DirItem),
}

/// Mathematical value of a `FilesStateItem`.
pub enum ItemView {
    Parent,
    DirEntry(DirItemView),
}

impl View for FilesStateItem {
    type V = ItemView;

    open spec fn view(&self) -> ItemView {
        match self {
            FilesStateItem::Parent => ItemView::Parent,
            FilesStateItem::DirEntry(d) => ItemView::DirEntry(d@),
        }
    }
}

impl FilesStateItem {
    /// A copy with the same value.
    pub fn duplicate(&self) -> (r: FilesStateItem)
        ensures
            r@ == self@,
    {
        match self {
            FilesStateItem::Parent => FilesStateItem::Parent,
            FilesStateItem::DirEntry(d) => FilesStateItem::DirEntry(d.duplicate()),
        }
    }
}

/// The values of a list of rows, in order.
pub open spec fn item_views(items: Seq<FilesStateItem>) -> Seq<ItemView> {
    items.map_values(|x: FilesStateItem| x@)
}

/// The values of a list of directory entries, in order.
pub open spec fn dir_views(items: Seq<DirItem>) -> Seq<DirItemView> {
    items.map_values(|x: DirItem| x@)
}

/// Whether a file name has the extension `mp3`: it ends in `.mp3` and has
/// at least one character before that.
pub open spec fn is_mp3_name(name: Seq<char>) -> bool {
    name.len() >= 5 && name.subrange(name.len() - 4, name.len() as int) == seq!['.', 'm', 'p', '3']
}

/// The test that a directory entry passes if the browser lists it:
/// directories, but those whose name begins with a dot only on request, and
/// files with the extension `mp3`.
pub open spec fn listed(show_hidden_dirs: bool) -> spec_fn(DirItemView) -> bool {
    |d: DirItemView|
        if d.is_dir {
            show_hidden_dirs || !(d.name.len() > 0 && d.name[0] == '.')
        } else {
            is_mp3_name(d.name)
        }
}

/// The rows for a directory: the parent row, then the listed entries in the
/// order in which they were read.
pub open spec fn rows_for(raw: Seq<DirItemView>, show_hidden_dirs: bool) -> Seq<ItemView> {
    seq![ItemView::Parent] + raw.filter(listed(show_hidden_dirs)).map_values(
        |d: DirItemView| ItemView::DirEntry(d),
    )
}

/// A letter of `A` to `Z` as its small letter; any other character as it
/// is.
pub open spec fn lowered(c: char) -> char {
    if 'A' <= c && c <= 'Z' {
        ((c as u8) + 32) as char
    } else {
        c
    }
}

/// What a row is ordered by: the parent row first, then directories, then
/// files, each group by name without regard to the case of `A` to `Z`.
pub open spec fn row_key(item: ItemView) -> SortKeyView {
    match item {
        ItemView::Parent => SortKeyView { rank: 0, text: Seq::empty() },
        ItemView::DirEntry(d) => SortKeyView {
            rank: if d.is_dir {
                1u8
            } else {
                2u8
            },
            text: d.name.map_values(|c: char| lowered(c)),
        },
    }
}

/// The keys of a list of rows, in order.
pub open spec fn row_keys(items: Seq<ItemView>) -> Seq<SortKeyView> {
    items.map_values(|x: ItemView| row_key(x))
}

/// The rows in the browser's order; rows with equal keys keep their order.
pub open spec fn sorted_rows(items: Seq<ItemView>) -> Seq<ItemView> {
    sorted_order(row_keys(items), items.len()).map_values(|i: usize| items[i as int])
}

/// The small letter of a letter of `A` to `Z`; any other character
/// unchanged.
pub fn to_lower(c: char) -> (r: char)
    ensures
        r == lowered(c),
{
    if 'A' <= c && c <= 'Z' {
        ((c as u8) + 32) as char
    } else {
        c
    }
}

/// Whether a file name has the extension `mp3`.
pub fn has_mp3_extension(name: &str) -> (r: bool)
    ensures
        r == is_mp3_name(name@),
{
    let n = name.unicode_len();
    if n < 5 {
        return false;
    }
    let r = name.get_char(n - 4) == '.' && name.get_char(n - 3) == 'm' && name.get_char(n - 2)
        == 'p' && name.get_char(n - 1) == '3';
    proof {
        let tail = name@.subrange(n - 4, n as int);
        assert(tail[0] == name@[n - 4] && tail[1] == name@[n - 3] && tail[2] == name@[n - 2]
            && tail[3] == name@[n - 1]);
        if r {
            assert(tail =~= seq!['.', 'm', 'p', '3']);
        }
    }
    r
}

/// The key by which a row is ordered.
pub fn key_of(item: &FilesStateItem) -> (k: SortKey)
    ensures
        k@ == row_key(item@),
{
    match item {
        FilesStateItem::Parent => SortKey { rank: 0, text: Vec::new() },
        FilesStateItem::DirEntry(d) => {
            let name = chars_of(d.name.as_str());
            let mut text: Vec<char> = Vec::new();
            let mut i: usize = 0;
            while i < name.len()
                invariant
                    i <= name@.len(),
                    text@ == name@.subrange(0, i as int).map_values(|c: char| lowered(c)),
                decreases name@.len() - i,
            {
                text.push(to_lower(name[i]));
                proof {
                    assert(name@.subrange(0, i + 1) =~= name@.subrange(0, i as int).push(
                        name@[i as int],
                    ));
                    assert(text@ =~= name@.subrange(0, i + 1).map_values(|c: char| lowered(c)));
                }
                i += 1;
            }
            proof {
                assert(name@.subrange(0, name@.len() as int) =~= name@);
            }
            SortKey {
                rank: if d.is_dir {
                    1
                } else {
                    2
                },
                text,
            }
        },
    }
}

/// The rows for a directory that has just been read: the parent row, then
/// the subdirectories and the `mp3` files, in the order read. Directories
/// whose name begins with a dot are left out unless `show_hidden_dirs`.
pub fn get_entries(raw: Vec<DirItem>, show_hidden_dirs: bool) -> (files: Vec<FilesStateItem>)
    ensures
        item_views(files@) == rows_for(dir_views(raw@), show_hidden_dirs),
        files@.len() > 0,
{
    let ghost all = dir_views(raw@);
    let ghost keep = listed(show_hidden_dirs);
    let mut files: Vec<FilesStateItem> = Vec::new();
    files.push(FilesStateItem::Parent);
    let ghost head = seq![ItemView::Parent];
    let mut i: usize = 0;
    proof {
        lemma_filter_empty::<DirItemView>(keep);
        assert(all.subrange(0, 0) =~= Seq::<DirItemView>::empty());
        assert(item_views(files@) =~= head + all.subrange(0, 0).filter(keep).map_values(
            |d: DirItemView| ItemView::DirEntry(d),
        ));
    }
    while i < raw.len()
        invariant
            i <= raw@.len(),
            all == dir_views(raw@),
            keep == listed(show_hidden_dirs),
            head.len() == 1,
            files@.len() > 0,
            item_views(files@) == head + all.subrange(0, i as int).filter(keep).map_values(
                |d: DirItemView| ItemView::DirEntry(d),
            ),
        decreases raw@.len() - i,
    {
        let ghost before = files@;
        assert(all[i as int] == raw@[i as int]@);
        proof {
            lemma_filter_push(all.subrange(0, i as int), all[i as int], keep);
            assert(all.subrange(0, i + 1) =~= all.subrange(0, i as int).push(all[i as int]));
        }
        let item = &raw[i];
        let wanted = if item.is_dir {
            show_hidden_dirs || !starts_with_char(item.name.as_str(), '.')
        } else {
            has_mp3_extension(item.name.as_str())
        };
        if wanted {
            files.push(FilesStateItem::DirEntry(item.duplicate()));
            proof {
                assert(item_views(files@) =~= item_views(before).push(
                    ItemView::DirEntry(all[i as int]),
                ));
                assert(item_views(files@) =~= head + all.subrange(0, i + 1).filter(
                    keep,
                ).map_values(|d: DirItemView| ItemView::DirEntry(d)));
            }
        }
        i += 1;
    }
    proof {
        assert(all.subrange(0, all.len() as int) =~= all);
    }
    files
}

/// Puts the rows in the browser's order: the parent row, then directories,
/// then files, each group by name without regard to case.
pub fn sort_files(files: &mut Vec<FilesStateItem>)
    ensures
        item_views(final(files)@) == sorted_rows(item_views(old(files)@)),
        final(files)@.len() == old(files)@.len(),
{
    let ghost rows = item_views(files@);
    let mut keys: Vec<SortKey> = Vec::new();
    let mut i: usize = 0;
    while i < files.len()
        invariant
            i <= files@.len(),
            rows == item_views(files@),
            key_views(keys@) == row_keys(rows.subrange(0, i as int)),
        decreases files@.len() - i,
    {
        let ghost before = keys@;
        keys.push(key_of(&files[i]));
        proof {
            assert(rows[i as int] == files@[i as int]@);
            assert(key_views(keys@) =~= key_views(before).push(row_key(rows[i as int])));
            assert(rows.subrange(0, i + 1) =~= rows.subrange(0, i as int).push(rows[i as int]));
            assert(key_views(keys@) =~= row_keys(rows.subrange(0, i + 1)));
        }
        i += 1;
    }
    proof {
        assert(rows.subrange(0, rows.len() as int) =~= rows);
    }
    let order = sort_order(&keys);
    let mut sorted: Vec<FilesStateItem> = Vec::new();
    let mut k: usize = 0;
    while k < order.len()
        invariant
            k <= order@.len(),
            order@.len() == files@.len(),
            in_range(order@, files@.len()),
            rows == item_views(files@),
            item_views(sorted@) == order@.subrange(0, k as int).map_values(
                |i: usize| rows[i as int],
            ),
        decreases order@.len() - k,
    {
        let ghost before = sorted@;
        let pick = order[k];
        sorted.push(files[pick].duplicate());
        proof {
            assert(item_views(sorted@) =~= item_views(before).push(rows[pick as int]));
            assert(item_views(sorted@) =~= order@.subrange(0, k + 1).map_values(
                |i: usize| rows[i as int],
            ));
        }
        k += 1;
    }
    proof {
        assert(order@.subrange(0, order@.len() as int) =~= order@);
    }
    *files = sorted;
}

/// What reading one file's tag came to.
pub enum TagRead {
    /// The file has a tag.
    Loaded(id3::Tag),
    /// The file has no tag yet.
    NoTag,
    /// The file could not be read.
    Failed,
}

/// One file and what reading its tag came to.
pub struct FileRead {
    pub path: String,
    pub outcome: TagRead,
}

/// Whether `entry` is the entry for a file that was read: named by its
/// path, unselected, with the tag that was read or, if the file has none,
/// with an empty tag.
pub open spec fn entry_for(read: FileRead, entry: Entry) -> bool {
    &&& entry.path == read.path
    &&& entry.filename@ == file_name_of(read.path@)
    &&& !entry.selected
    &&& match read.outcome {
        TagRead::Loaded(tag) => entry.tag == tag,
        TagRead::NoTag => tag_frames(entry.tag) == Seq::<FrameView>::empty(),
        TagRead::Failed => false,
    }
}

/// Whether `entries` are the entries for the files that could be read, in
/// order: a file that could not be read has none.
pub open spec fn loaded(reads: Seq<FileRead>, entries: Seq<Entry>) -> bool
    decreases reads.len(),
{
    if reads.len() == 0 {
        entries.len() == 0
    } else if reads.last().outcome is Failed {
        loaded(reads.drop_last(), entries)
    } else {
        entries.len() > 0 && loaded(reads.drop_last(), entries.drop_last()) && entry_for(
            reads.last(),
            entries.last(),
        )
    }
}

/// Turns files that have been read into entries. A file without a tag gets
/// an empty one; a file that could not be read is left out.
pub fn get_tags(reads: Vec<FileRead>) -> (entries: Vec<Entry>)
    ensures
        loaded(reads@, entries@),
{
    let ghost all = reads@;
    let n = reads.len();
    let mut stack = reversed(reads);
    let mut entries: Vec<Entry> = Vec::new();
    let mut i: usize = 0;
    proof {
        assert(all.subrange(0, 0) =~= Seq::<FileRead>::empty());
    }
    while i < n
        invariant
            i <= n,
            n == all.len(),
            stack@.len() == n - i,
            forall|k: int| 0 <= k < stack@.len() ==> stack@[k] == all[n - 1 - k],
            loaded(all.subrange(0, i as int), entries@),
        decreases n - i,
    {
        let ghost before = entries@;
        let read = stack.pop().unwrap();
        proof {
            let upto = all.subrange(0, i + 1);
            assert(upto.last() == read);
            assert(upto.drop_last() =~= all.subrange(0, i as int));
        }
        match read.outcome {
            TagRead::Loaded(tag) => {
                entries.push(Entry::new(read.path, tag));
                proof {
                    assert(entries@.drop_last() =~= before);
                }
            },
            TagRead::NoTag => {
                entries.push(Entry::new(read.path, tag_new()));
                proof {
                    assert(entries@.drop_last() =~= before);
                }
            },
            TagRead::Failed => {},
        }
        i += 1;
    }
    proof {
        assert(all.subrange(0, n as int) =~= all);
    }
    entries
}

/// The paths of the files among the rows from `from` on, in order.
pub open spec fn file_paths(rows: Seq<ItemView>, from: int) -> Seq<Seq<char>>
    decreases rows.len() - from,
{
    if from >= rows.len() || from < 0 {
        Seq::empty()
    } else {
        match rows[from] {
            ItemView::DirEntry(d) => if d.is_dir {
                file_paths(rows, from + 1)
            } else {
                seq![d.path] + file_paths(rows, from + 1)
            },
            ItemView::Parent => file_paths(rows, from + 1),
        }
    }
}

/// The file browser.
pub struct FilesState {
    pub popup_stack: Vec<Popup>,
    pub current_dir: String,
    /// The highlighted row.
    pub files_state: Option<usize>,
    pub files: Vec<FilesStateItem>,
    pub show_hidden_dirs: bool,
    pub help_text: Vec<String>,
}

/// Whether `b` is `a` with the rows of a directory that has just been read
/// and the first row highlighted.
pub open spec fn dir_shown(
    a: FilesState,
    b: FilesState,
    dir: Seq<char>,
    raw: Seq<DirItemView>,
) -> bool {
    &&& b == (FilesState {
        current_dir: b.current_dir,
        files: b.files,
        files_state: Some(0usize),
        ..a
    })
    &&& b.current_dir@ == dir
    &&& item_views(b.files@) == sorted_rows(rows_for(raw, a.show_hidden_dirs))
}

/// What the browser asks of its caller for a row on which "add" is
/// pressed: to load the file, if the row is one.
pub open spec fn add_request(row: ItemView, event: AppEvent) -> bool {
    match row {
        ItemView::DirEntry(d) => if d.is_dir {
            event is NoOp
        } else {
            event matches AppEvent::LoadFiles(paths) && string_views(paths@) == seq![d.path]
        },
        ItemView::Parent => event is NoOp,
    }
}

/// What the browser asks of its caller for a row on which "enter" is
/// pressed: to list the parent for the parent row, the directory for a
/// directory, and nothing for a file.
pub open spec fn enter_request(row: ItemView, event: AppEvent) -> bool {
    match row {
        ItemView::DirEntry(d) => if d.is_dir {
            event matches AppEvent::ReadDir(DirRequest::Enter(path)) && path@ == d.path
        } else {
            event is NoOp
        },
        ItemView::Parent => event matches AppEvent::ReadDir(DirRequest::Parent),
    }
}

/// Whether `b` is `a` with one more dialog on top: the browser's help page.
pub open spec fn files_help_spawned(a: FilesState, b: FilesState) -> bool {
    &&& b == (FilesState { popup_stack: b.popup_stack, ..a })
    &&& b.popup_stack@.len() == a.popup_stack@.len() + 1
    &&& b.popup_stack@.drop_last() == a.popup_stack@
    &&& b.popup_stack@.last() matches Popup::Help(h) && h.title@ == "Files Help"@ && h.data@
        == a.help_text@
}

/// What a key press does to the browser while a dialog is open: the top
/// dialog takes it, and leaves the stack if it closes.
pub open spec fn files_popup_handled(
    a: FilesState,
    key: Key,
    action: Action,
    b: FilesState,
    event: AppEvent,
) -> bool {
    exists|q: Popup, ev: AppEvent| #[trigger]
        popup_stepped(a.popup_stack@.last(), key, action, q, ev) && b == (FilesState {
            popup_stack: b.popup_stack,
            ..a
        }) && match ev {
            AppEvent::ClosePopup => event is NoOp && b.popup_stack@ == a.popup_stack@.drop_last(),
            AppEvent::SwitchScreen(s) => event == AppEvent::SwitchScreen(s) && b.popup_stack@
                == a.popup_stack@.update(a.popup_stack@.len() - 1, q),
            _ => event is NoOp && b.popup_stack@ == a.popup_stack@.update(
                a.popup_stack@.len() - 1,
                q,
            ),
        }
}

/// What an action does to the browser and asks of its caller when no dialog
/// is open.
pub open spec fn files_action_applied(
    a: FilesState,
    action: Action,
    b: FilesState,
    event: AppEvent,
) -> bool {
    match action {
        Action::Quit => event is Quit && b == a,
        Action::ScreenOne => event == AppEvent::SwitchScreen(ScreenState::Main) && b == a,
        Action::ScreenTwo => event == AppEvent::SwitchScreen(ScreenState::Files) && b == a,
        Action::ScreenThree => event == AppEvent::SwitchScreen(ScreenState::Frames) && b == a,
        Action::Help => event is NoOp && files_help_spawned(a, b),
        Action::Prev => event is NoOp && b == (FilesState {
            files_state: moved(a.files_state, a.files@.len(), false),
            ..a
        }),
        Action::Next => event is NoOp && b == (FilesState {
            files_state: moved(a.files_state, a.files@.len(), true),
            ..a
        }),
        Action::AddAllFiles => b == a && (event matches AppEvent::LoadFiles(paths) && string_views(
            paths@,
        ) == file_paths(item_views(a.files@), 0)),
        Action::AddFile => b == a && match a.files_state {
            Some(i) => add_request(a.files@[i as int]@, event),
            None => event is NoOp,
        },
        Action::ParentDir => b == a && (event matches AppEvent::ReadDir(DirRequest::Parent)),
        Action::EnterDir => b == a && match a.files_state {
            Some(i) => enter_request(a.files@[i as int]@, event),
            None => event is NoOp,
        },
        Action::HiddenDir => b == (FilesState { show_hidden_dirs: !a.show_hidden_dirs, ..a }) && (
        event matches AppEvent::ReadDir(DirRequest::Refresh)),
        _ => event is NoOp && b == a,
    }
}

/// What one key press, bound to the actions `candidates`, does to the
/// screen and to the log view, and what it leaves for the caller. With a
/// dialog open the top dialog takes the key and the log view stays; else
/// the action that the press resolves to is carried out.
pub open spec fn files_handled(
    a: FilesState,
    key: Key,
    candidates: Seq<Action>,
    shown_before: bool,
    log_before: Logger,
    b: FilesState,
    shown_after: bool,
    log_after: Logger,
    event: AppEvent,
) -> bool {
    if a.popup_stack@.len() > 0 {
        &&& files_popup_handled(a, key, resolved(candidates, Scope::Files), b, event)
        &&& shown_after == shown_before
        &&& log_after == log_before
    } else {
        &&& files_action_applied(a, resolved(candidates, Scope::Files), b, event)
        &&& logs_applied(
            resolved(candidates, Scope::Files),
            shown_before,
            log_before,
            shown_after,
            log_after,
        )
    }
}

impl FilesState {
    /// There is at least one row, the highlight points at a row, and every
    /// open dialog is in order.
    pub open spec fn wf(&self) -> bool {
        &&& self.files@.len() > 0
        &&& self.files_state matches Some(i) ==> i < self.files@.len()
        &&& forall|k: int|
            0 <= k < self.popup_stack@.len() ==> (#[trigger] self.popup_stack@[k]).wf()
    }

    /// A browser on the directory `dir`, whose entries are `raw`, with
    /// hidden directories left out and no row highlighted.
    pub fn new(dir: String, raw: Vec<DirItem>) -> (r: Self)
        ensures
            r.wf(),
            r.current_dir == dir,
            item_views(r.files@) == sorted_rows(rows_for(dir_views(raw@), false)),
            r.files_state is None,
            !r.show_hidden_dirs,
            r.popup_stack@.len() == 0,
            r.help_text@.len() == 0,
    {
        let mut files = get_entries(raw, false);
        sort_files(&mut files);
        Self {
            popup_stack: Vec::new(),
            current_dir: dir,
            files,
            files_state: None,
            show_hidden_dirs: false,
            help_text: Vec::new(),
        }
    }

    /// Shows a directory that the caller has read: its rows in order, the
    /// first one highlighted.
    pub fn show_dir(&mut self, dir: String, raw: Vec<DirItem>)
        requires
            old(self).wf(),
        ensures
            final(self).wf(),
            dir_shown(*old(self), *final(self), dir@, dir_views(raw@)),
    {
        let mut files = get_entries(raw, self.show_hidden_dirs);
        sort_files(&mut files);
        self.current_dir = dir;
        self.files = files;
        self.files_state = Some(0);
    }

    /// Moves the highlight one row down, wrapping at the end.
    pub fn next(&mut self)
        requires
            old(self).wf(),
        ensures
            final(self).wf(),
            *final(self) == (FilesState {
                files_state: moved(old(self).files_state, old(self).files@.len(), true),
                ..*old(self)
            }),
    {
        let i = match self.files_state {
            Some(i) => crate::util::next(i, self.files.len()),
            None => 0,
        };
        self.files_state = Some(i);
    }

    /// Moves the highlight one row up, wrapping at the start.
    pub fn prev(&mut self)
        requires
            old(self).wf(),
        ensures
            final(self).wf(),
            *final(self) == (FilesState {
                files_state: moved(old(self).files_state, old(self).files@.len(), false),
                ..*old(self)
            }),
    {
        let i = match self.files_state {
            Some(i) => crate::util::prev(i, self.files.len()),
            None => 0,
        };
        self.files_state = Some(i);
    }

    /// The request to load the highlighted file, if a file is highlighted.
    pub fn add_file(&self) -> (event: AppEvent)
        requires
            self.wf(),
        ensures
            match self.files_state {
                Some(i) => add_request(self.files@[i as int]@, event),
                None => event is NoOp,
            },
    {
        match self.files_state {
            Some(i) => match &self.files[i] {
                FilesStateItem::DirEntry(d) => {
                    if d.is_dir {
                        AppEvent::NoOp
                    } else {
                        let mut paths: Vec<String> = Vec::new();
                        paths.push(d.path.clone());
                        proof {
                            assert(string_views(paths@) =~= seq![d.path@]);
                        }
                        AppEvent::LoadFiles(paths)
                    }
                },
                FilesStateItem::Parent => AppEvent::NoOp,
            },
            None => AppEvent::NoOp,
        }
    }

    /// The request to load every file in the listing; directories and the
    /// parent row are passed over.
    pub fn add_all_files(&self) -> (event: AppEvent)
        ensures
            event matches AppEvent::LoadFiles(paths) && string_views(paths@) == file_paths(
                item_views(self.files@),
                0,
            ),
    {
        let ghost rows = item_views(self.files@);
        let n = self.files.len();
        let mut paths: Vec<String> = Vec::new();
        let mut i: usize = n;
        proof {
            assert(string_views(paths@) =~= file_paths(rows, n as int));
        }
        while i > 0
            invariant
                i <= n,
                n == self.files@.len(),
                rows == item_views(self.files@),
                string_views(paths@).reverse() == file_paths(rows, i as int),
            decreases i,
        {
            let ghost before = paths@;
            i -= 1;
            assert(rows[i as int] == self.files@[i as int]@);
            match &self.files[i] {
                FilesStateItem::DirEntry(d) => {
                    if !d.is_dir {
                        paths.push(d.path.clone());
                        proof {
                            assert(string_views(paths@) =~= string_views(before).push(d.path@));
                            assert(string_views(paths@).reverse() =~= seq![d.path@] + string_views(
                                before,
                            ).reverse());
                        }
                    }
                },
                FilesStateItem::Parent => {},
            }
        }
        let ordered = reversed(paths);
        proof {
            assert(string_views(ordered@) =~= string_views(paths@).reverse());
        }
        AppEvent::LoadFiles(ordered)
    }

    /// What "enter" asks for on the highlighted row.
    pub fn enter_dir(&self) -> (event: AppEvent)
        requires
            self.wf(),
        ensures
            match self.files_state {
                Some(i) => enter_request(self.files@[i as int]@, event),
                None => event is NoOp,
            },
    {
        match self.files_state {
            Some(i) => match &self.files[i] {
                FilesStateItem::DirEntry(d) => {
                    if d.is_dir {
                        AppEvent::ReadDir(DirRequest::Enter(d.path.clone()))
                    } else {
                        AppEvent::NoOp
                    }
                },
                FilesStateItem::Parent => AppEvent::ReadDir(DirRequest::Parent),
            },
            None => AppEvent::NoOp,
        }
    }

    /// The dialog that receives input, if one is open.
    pub fn popup_widget(&self) -> (r: Option<&Popup>)
        ensures
            match r {
                Some(p) => self.popup_stack@.len() > 0 && *p == self.popup_stack@.last(),
                None => self.popup_stack@.len() == 0,
            },
    {
        let n = self.popup_stack.len();
        if n == 0 {
            None
        } else {
            Some(&self.popup_stack[n - 1])
        }
    }

    /// Opens the browser's help page.
    pub fn spawn_help_popup(&mut self)
        requires
            old(self).wf(),
        ensures
            final(self).wf(),
            files_help_spawned(*old(self), *final(self)),
    {
        let popup = HelpPopup::new(String::from_str("Files Help"), self.help_text.clone());
        self.popup_stack.push(Popup::Help(popup));
        proof {
            assert(self.popup_stack@.drop_last() =~= old(self).popup_stack@);
        }
    }

    /// Handles one key press, given every action the key is bound to. With
    /// a dialog open the top dialog takes the key; else the action that the
    /// press resolves to is carried out. Reading directories and tags is
    /// left to the caller, as the event says.
    pub fn handle_input(
        &mut self,
        key: Key,
        actions: &Vec<Action>,
        show_logs: &mut bool,
        logger: &mut Logger,
    ) -> (event: AppEvent)
        requires
            old(self).wf(),
        ensures
            final(self).wf(),
            old(logger).wf() ==> final(logger).wf(),
            files_handled(
                *old(self),
                key,
                actions@,
                *old(show_logs),
                *old(logger),
                *final(self),
                *final(show_logs),
                *final(logger),
                event,
            ),
    {
        let action = resolve(actions, Scope::Files);
        let n = self.popup_stack.len();
        if n > 0 {
            let ghost top = self.popup_stack@[n - 1];
            assert(top == old(self).popup_stack@.last());
            let ev = self.popup_stack[n - 1].handle_input(key, action);
            let ghost q = self.popup_stack@[n - 1];
            assert(popup_stepped(top, key, action, q, ev));
            assert(self.popup_stack@ =~= old(self).popup_stack@.update(n - 1, q));
            match ev {
                AppEvent::ClosePopup => {
                    self.popup_stack.pop();
                    assert(self.popup_stack@ =~= old(self).popup_stack@.drop_last());
                    AppEvent::NoOp
                },
                AppEvent::SwitchScreen(s) => update_screen_state(s),
                _ => AppEvent::NoOp,
            }
        } else {
            match action {
                Action::Quit => AppEvent::Quit,
                Action::ScreenOne => update_screen_state(ScreenState::Main),
                Action::ScreenTwo => update_screen_state(ScreenState::Files),
                Action::ScreenThree => update_screen_state(ScreenState::Frames),
                Action::ToggleLogs => {
                    *show_logs = !*show_logs;
                    AppEvent::NoOp
                },
                Action::LogsPrev => {
                    logger.prev();
                    AppEvent::NoOp
                },
                Action::LogsNext => {
                    logger.next();
                    AppEvent::NoOp
                },
                Action::Help => {
                    self.spawn_help_popup();
                    AppEvent::NoOp
                },
                Action::Prev => {
                    self.prev();
                    AppEvent::NoOp
                },
                Action::Next => {
                    self.next();
                    AppEvent::NoOp
                },
                Action::AddAllFiles => self.add_all_files(),
                Action::AddFile => self.add_file(),
                Action::ParentDir => AppEvent::ReadDir(DirRequest::Parent),
                Action::EnterDir => self.enter_dir(),
                Action::HiddenDir => {
                    self.show_hidden_dirs = !self.show_hidden_dirs;
                    AppEvent::ReadDir(DirRequest::Refresh)
                },
                _ => AppEvent::NoOp,
            }
        }
    }
}

impl FilesState {
    /// Rewrites the help page from the keys that the actions are bound to.
    pub fn update_help_text(&mut self, config: &KeyBindings)
        requires
            help_ready(config.pairs@, Action::Quit),
            help_ready(config.pairs@, Action::ParentDir),
            help_ready(config.pairs@, Action::AddFile),
            help_ready(config.pairs@, Action::AddAllFiles),
        ensures
            *final(self) == (FilesState { help_text: final(self).help_text, ..*old(self) }),
            string_views(final(self).help_text@) == seq![
                help_line_of(config.pairs@, Action::Quit, "Quit"@),
                help_line_of(config.pairs@, Action::ParentDir, "Change to parent directory"@),
                help_line_of(config.pairs@, Action::AddFile, "Add highlighted file"@),
                help_line_of(config.pairs@, Action::AddAllFiles, "Add all files"@),
            ],
    {
        let mut lines: Vec<String> = Vec::new();
        lines.push(config.help_line_for(Action::Quit, "Quit"));
        lines.push(config.help_line_for(Action::ParentDir, "Change to parent directory"));
        lines.push(config.help_line_for(Action::AddFile, "Add highlighted file"));
        lines.push(config.help_line_for(Action::AddAllFiles, "Add all files"));
        proof {
            assert(string_views(lines@) =~= seq![
                help_line_of(config.pairs@, Action::Quit, "Quit"@),
                help_line_of(config.pairs@, Action::ParentDir, "Change to parent directory"@),
                help_line_of(config.pairs@, Action::AddFile, "Add highlighted file"@),
                help_line_of(config.pairs@, Action::AddAllFiles, "Add all files"@),
            ]);
        }
        self.help_text = lines;
    }
}

/// A listing shows the parent row first, and behind it every other row of
/// the directory once, directories before files and each group in the
/// order of the names without regard to case; rows that compare equal keep
/// the order in which they were read.
pub proof fn lemma_listing_order(raw: Seq<DirItemView>, show_hidden_dirs: bool)
    requires
        raw.len() < usize::MAX,
    ensures
        sorted_rows(rows_for(raw, show_hidden_dirs)).len() == rows_for(raw, show_hidden_dirs).len(),
        sorted_rows(rows_for(raw, show_hidden_dirs))[0] == ItemView::Parent,
        ascending(
            sorted_order(
                row_keys(rows_for(raw, show_hidden_dirs)),
                rows_for(raw, show_hidden_dirs).len(),
            ),
            row_keys(rows_for(raw, show_hidden_dirs)),
        ),
        stable(
            sorted_order(
                row_keys(rows_for(raw, show_hidden_dirs)),
                rows_for(raw, show_hidden_dirs).len(),
            ),
            row_keys(rows_for(raw, show_hidden_dirs)),
        ),
        forall|x: usize|
            sorted_order(
                row_keys(rows_for(raw, show_hidden_dirs)),
                rows_for(raw, show_hidden_dirs).len(),
            ).to_multiset().count(x) == if x < rows_for(raw, show_hidden_dirs).len() {
                1nat
            } else {
                0nat
            },
{
    let rows = rows_for(raw, show_hidden_dirs);
    let keys = row_keys(rows);
    raw.lemma_filter_len(listed(show_hidden_dirs));
    assert(rows[0] == ItemView::Parent);
    assert forall|i: int| 0 < i < keys.len() implies crate::order::key_le(
        keys[0],
        #[trigger] keys[i],
    ) by {
        assert(rows[i] is DirEntry);
    }
    lemma_sorted_order(keys, rows.len());
    lemma_sorted_order_stable(keys, rows.len());
    lemma_least_stays_first(keys, rows.len());
}

} // verus!
