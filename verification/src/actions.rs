//! Keys, the semantic actions they stand for, and the rule that picks one
//! action where a key is bound to several.

use vstd::prelude::*;
use crate::text::str_eq;

verus! {

/// A key press, reduced to what the control core tells apart.
#[derive(Debug, Clone, Copy, PartialEq, Eq, Structural)]
pub enum Key {
    Backspace,
    Enter,
    Left,
    Right,
    Up,
    Down,
    Home,
    End,
    PageUp,
    PageDown,
    Tab,
    BackTab,
    Delete,
    Insert,
    Esc,
    Char(char),
    /// Any key the core has no use for.
    Other,
}

/// What the user means by a key press.
#[derive(Debug, Clone, Copy, Hash, PartialEq, Eq, Structural)]
pub enum Action {
    Prev,
    Next,
    Quit,
    Back,
    SwitchFocus,
    ToggleLogs,
    LogsPrev,
    LogsNext,
    ScreenOne,
    ScreenTwo,
    ScreenThree,
    Help,
    RemoveFiles,
    WriteTags,
    SelectCurrent,
    SelectAll,
    Remove,
    SpawnPopup,
    UpdateNames,
    TemplatePopup,
    AddAllFiles,
    AddFile,
    ParentDir,
    EnterDir,
    HiddenDir,
    AddFrame,
    SelectField,
    SaveChanges,
    /// No action at all.
    NoOp,
}

/// Where a key press lands: one of the three screens, or a dialog on the
/// main screen.
#[derive(Debug, Clone, Copy, PartialEq, Eq, Structural)]
pub enum Scope {
    Main,
    MainPopup,
    Files,
    Frames,
}

/// The actions that belong to a scope and win over the general ones.
pub open spec fn relevant(scope: Scope, a: Action) -> bool {
    match scope {
        Scope::Main => a == Action::RemoveFiles || a == Action::WriteTags || a
            == Action::SelectCurrent || a == Action::SelectAll || a == Action::Remove || a
            == Action::SpawnPopup || a == Action::TemplatePopup,
        Scope::MainPopup => a == Action::SelectField || a == Action::SaveChanges,
        Scope::Files => a == Action::AddAllFiles || a == Action::AddFile || a == Action::ParentDir
            || a == Action::EnterDir || a == Action::HiddenDir,
        Scope::Frames => a == Action::AddFrame,
    }
}

/// The first candidate that belongs to the scope, or `Action::NoOp`.
pub open spec fn first_relevant(candidates: Seq<Action>, scope: Scope) -> Action
    decreases candidates.len(),
{
    if candidates.len() == 0 {
        Action::NoOp
    } else if relevant(scope, candidates[0]) {
        candidates[0]
    } else {
        first_relevant(candidates.drop_first(), scope)
    }
}

/// The one action a key press resolves to: a single candidate as it is,
/// else the first candidate that belongs to the scope.
pub open spec fn resolved(candidates: Seq<Action>, scope: Scope) -> Action {
    if candidates.len() == 1 {
        candidates[0]
    } else {
        first_relevant(candidates, scope)
    }
}

/// Whether `a` belongs to `scope`.
pub fn is_relevant(scope: Scope, a: Action) -> (r: bool)
    ensures
        r == relevant(scope, a),
{
    match scope {
        Scope::Main => a == Action::RemoveFiles || a == Action::WriteTags || a
            == Action::SelectCurrent || a == Action::SelectAll || a == Action::Remove || a
            == Action::SpawnPopup || a == Action::TemplatePopup,
        Scope::MainPopup => a == Action::SelectField || a == Action::SaveChanges,
        Scope::Files => a == Action::AddAllFiles || a == Action::AddFile || a == Action::ParentDir
            || a == Action::EnterDir || a == Action::HiddenDir,
        Scope::Frames => a == Action::AddFrame,
    }
}

/// Picks the one action that a key press means in `scope`, given every
/// action the key is bound to.
pub fn resolve(candidates: &Vec<Action>, scope: Scope) -> (action: Action)
    ensures
        action == resolved(candidates@, scope),
{
    if candidates.len() == 1 {
        return candidates[0];
    }
    let mut i: usize = 0;
    proof {
        assert(candidates@.subrange(0, candidates@.len() as int) =~= candidates@);
    }
    while i < candidates.len()
        invariant
            i <= candidates@.len(),
            first_relevant(candidates@, scope) == first_relevant(
                candidates@.subrange(i as int, candidates@.len() as int),
                scope,
            ),
        decreases candidates@.len() - i,
    {
        let ghost rest = candidates@.subrange(i as int, candidates@.len() as int);
        assert(rest[0] == candidates@[i as int]);
        if is_relevant(scope, candidates[i]) {
            return candidates[i];
        }
        proof {
            assert(rest.drop_first() =~= candidates@.subrange(i + 1, candidates@.len() as int));
        }
        i += 1;
    }
    Action::NoOp
}

/// The key that a name in a key-binding table stands for: the names of the
/// special keys, or any single character of one byte.
pub open spec fn key_of_name(name: Seq<char>) -> Option<Key> {
    if name == "Up"@ {
        Some(Key::Up)
    } else if name == "Down"@ {
        Some(Key::Down)
    } else if name == "Left"@ {
        Some(Key::Left)
    } else if name == "Right"@ {
        Some(Key::Right)
    } else if name == "Esc"@ {
        Some(Key::Esc)
    } else if name == "Tab"@ {
        Some(Key::Tab)
    } else if name == "Backspace"@ {
        Some(Key::Backspace)
    } else if name == "Enter"@ {
        Some(Key::Enter)
    } else if name == "Home"@ {
        Some(Key::Home)
    } else if name == "End"@ {
        Some(Key::End)
    } else if name == "PageUp"@ {
        Some(Key::PageUp)
    } else if name == "PageDown"@ {
        Some(Key::PageDown)
    } else if name == "BackTab"@ {
        Some(Key::BackTab)
    } else if name == "Delete"@ {
        Some(Key::Delete)
    } else if name == "Insert"@ {
        Some(Key::Insert)
    } else if name.len() == 1 && (name[0] as u32) < 128 {
        Some(Key::Char(name[0]))
    } else {
        None
    }
}

/// The action that a name in a key-binding table stands for.
pub open spec fn action_of_name(name: Seq<char>) -> Option<Action> {
    if name == "up"@ {
        Some(Action::Prev)
    } else if name == "down"@ {
        Some(Action::Next)
    } else if name == "quit"@ {
        Some(Action::Quit)
    } else if name == "back"@ {
        Some(Action::Back)
    } else if name == "switch_focus"@ {
        Some(Action::SwitchFocus)
    } else if name == "toggle_logs"@ {
        Some(Action::ToggleLogs)
    } else if name == "logs_prev"@ {
        Some(Action::LogsPrev)
    } else if name == "logs_next"@ {
        Some(Action::LogsNext)
    } else if name == "screen_one"@ {
        Some(Action::ScreenOne)
    } else if name == "screen_two"@ {
        Some(Action::ScreenTwo)
    } else if name == "screen_three"@ {
        Some(Action::ScreenThree)
    } else if name == "help"@ {
        Some(Action::Help)
    } else if name == "remove_files"@ {
        Some(Action::RemoveFiles)
    } else if name == "write_tags"@ {
        Some(Action::WriteTags)
    } else if name == "select_current"@ {
        Some(Action::SelectCurrent)
    } else if name == "select_all"@ {
        Some(Action::SelectAll)
    } else if name == "remove"@ {
        Some(Action::Remove)
    } else if name == "spawn_popup"@ {
        Some(Action::SpawnPopup)
    } else if name == "update_names"@ {
        Some(Action::UpdateNames)
    } else if name == "template_popup"@ {
        Some(Action::TemplatePopup)
    } else if name == "add_file"@ {
        Some(Action::AddFile)
    } else if name == "add_all_files"@ {
        Some(Action::AddAllFiles)
    } else if name == "parent_directory"@ {
        Some(Action::ParentDir)
    } else if name == "enter_directory"@ {
        Some(Action::EnterDir)
    } else if name == "show_hidden"@ {
        Some(Action::HiddenDir)
    } else if name == "add_frame"@ {
        Some(Action::AddFrame)
    } else if name == "select_field"@ {
        Some(Action::SelectField)
    } else if name == "save_changes"@ {
        Some(Action::SaveChanges)
    } else {
        None
    }
}

/// How a key is shown in help texts: a character as itself, a special key
/// by its name.
pub open spec fn key_label(key: Key) -> Seq<char> {
    match key {
        Key::Char(c) => seq![c],
        Key::Up => "Up"@,
        Key::Down => "Down"@,
        Key::Left => "Left"@,
        Key::Right => "Right"@,
        Key::Esc => "Esc"@,
        Key::Tab => "Tab"@,
        Key::Backspace => "Backspace"@,
        Key::Enter => "Enter"@,
        Key::Home => "Home"@,
        Key::End => "End"@,
        Key::PageUp => "PageUp"@,
        Key::PageDown => "PageDown"@,
        Key::BackTab => "BackTab"@,
        Key::Delete => "Delete"@,
        Key::Insert => "Insert"@,
        Key::Other => Seq::empty(),
    }
}

impl Key {
    /// Reads a key from its name in a key-binding table.
    pub fn from_name(name: &str) -> (r: Option<Key>)
        ensures
            r == key_of_name(name@),
    {
        if str_eq(name, "Up") {
            Some(Key::Up)
        } else if str_eq(name, "Down") {
            Some(Key::Down)
        } else if str_eq(name, "Left") {
            Some(Key::Left)
        } else if str_eq(name, "Right") {
            Some(Key::Right)
        } else if str_eq(name, "Esc") {
            Some(Key::Esc)
        } else if str_eq(name, "Tab") {
            Some(Key::Tab)
        } else if str_eq(name, "Backspace") {
            Some(Key::Backspace)
        } else if str_eq(name, "Enter") {
            Some(Key::Enter)
        } else if str_eq(name, "Home") {
            Some(Key::Home)
        } else if str_eq(name, "End") {
            Some(Key::End)
        } else if str_eq(name, "PageUp") {
            Some(Key::PageUp)
        } else if str_eq(name, "PageDown") {
            Some(Key::PageDown)
        } else if str_eq(name, "BackTab") {
            Some(Key::BackTab)
        } else if str_eq(name, "Delete") {
            Some(Key::Delete)
        } else if str_eq(name, "Insert") {
            Some(Key::Insert)
        } else if name.unicode_len() == 1 && (name.get_char(0) as u32) < 128 {
            Some(Key::Char(name.get_char(0)))
        } else {
            None
        }
    }
}

impl Action {
    /// Reads an action from its name in a key-binding table.
    pub fn from_name(name: &str) -> (r: Option<Action>)
        ensures
            r == action_of_name(name@),
    {
        if str_eq(name, "up") {
            Some(Action::Prev)
        } else if str_eq(name, "down") {
            Some(Action::Next)
        } else if str_eq(name, "quit") {
            Some(Action::Quit)
        } else if str_eq(name, "back") {
            Some(Action::Back)
        } else if str_eq(name, "switch_focus") {
            Some(Action::SwitchFocus)
        } else if str_eq(name, "toggle_logs") {
            Some(Action::ToggleLogs)
        } else if str_eq(name, "logs_prev") {
            Some(Action::LogsPrev)
        } else if str_eq(name, "logs_next") {
            Some(Action::LogsNext)
        } else if str_eq(name, "screen_one") {
            Some(Action::ScreenOne)
        } else if str_eq(name, "screen_two") {
            Some(Action::ScreenTwo)
        } else if str_eq(name, "screen_three") {
            Some(Action::ScreenThree)
        } else if str_eq(name, "help") {
            Some(Action::Help)
        } else if str_eq(name, "remove_files") {
            Some(Action::RemoveFiles)
        } else if str_eq(name, "write_tags") {
            Some(Action::WriteTags)
        } else if str_eq(name, "select_current") {
            Some(Action::SelectCurrent)
        } else if str_eq(name, "select_all") {
            Some(Action::SelectAll)
        } else if str_eq(name, "remove") {
            Some(Action::Remove)
        } else if str_eq(name, "spawn_popup") {
            Some(Action::SpawnPopup)
        } else if str_eq(name, "update_names") {
            Some(Action::UpdateNames)
        } else if str_eq(name, "template_popup") {
            Some(Action::TemplatePopup)
        } else if str_eq(name, "add_file") {
            Some(Action::AddFile)
        } else if str_eq(name, "add_all_files") {
            Some(Action::AddAllFiles)
        } else if str_eq(name, "parent_directory") {
            Some(Action::ParentDir)
        } else if str_eq(name, "enter_directory") {
            Some(Action::EnterDir)
        } else if str_eq(name, "show_hidden") {
            Some(Action::HiddenDir)
        } else if str_eq(name, "add_frame") {
            Some(Action::AddFrame)
        } else if str_eq(name, "select_field") {
            Some(Action::SelectField)
        } else if str_eq(name, "save_changes") {
            Some(Action::SaveChanges)
        } else {
            None
        }
    }
}

/// The text that shows a key in help texts.
pub fn display_keycode(keycode: &Key) -> (r: String)
    requires
        !(keycode is Other),
    ensures
        r@ == key_label(*keycode),
{
    match keycode {
        Key::Char(c) => {
            let mut s = String::new();
            s.push(*c);
            proof {
                assert(s@ =~= seq![*c]);
            }
            s
        },
        Key::Up => String::from_str("Up"),
        Key::Down => String::from_str("Down"),
        Key::Left => String::from_str("Left"),
        Key::Right => String::from_str("Right"),
        Key::Esc => String::from_str("Esc"),
        Key::Tab => String::from_str("Tab"),
        Key::Backspace => String::from_str("Backspace"),
        Key::Enter => String::from_str("Enter"),
        Key::Home => String::from_str("Home"),
        Key::End => String::from_str("End"),
        Key::PageUp => String::from_str("PageUp"),
        Key::PageDown => String::from_str("PageDown"),
        Key::BackTab => String::from_str("BackTab"),
        Key::Delete => String::from_str("Delete"),
        Key::Insert => String::from_str("Insert"),
        Key::Other => String::new(),
    }
}

/// One line of a help page: the key in backticks, a dash, and what the key
/// does.
pub open spec fn help_line_text(key: Key, what: Seq<char>) -> Seq<char> {
    "`"@ + key_label(key) + "` - "@ + what
}

/// Builds one line of a help page.
pub fn help_line(key: &Key, what: &str) -> (r: String)
    requires
        !(key is Other),
    ensures
        r@ == help_line_text(*key, what@),
{
    let label = display_keycode(key);
    String::from_str("`").concat(label.as_str()).concat("` - ").concat(what)
}

/// Whether `action` is bound to a key that help texts can show.
pub open spec fn help_ready(pairs: Seq<(Action, Key)>, action: Action) -> bool {
    bound_key(pairs, action, 0) matches Some(k) && !(k is Other)
}

/// The help line for `action`: the key it is bound to, and what it does.
pub open spec fn help_line_of(pairs: Seq<(Action, Key)>, action: Action, what: Seq<char>) -> Seq<
    char,
> {
    help_line_text(bound_key(pairs, action, 0).unwrap(), what)
}

/// The keys that the actions are bound to: one pair for each bound action,
/// in the order in which the actions were first bound.
pub struct KeyBindings {
    pub pairs: Vec<(Action, Key)>,
}

/// Whether no action stands in two pairs.
pub open spec fn bound_once(pairs: Seq<(Action, Key)>) -> bool {
    forall|i: int, j: int|
        0 <= i < j < pairs.len() ==> (#[trigger] pairs[i]).0 != (#[trigger] pairs[j]).0
}

/// Whether no pair binds `action`.
pub open spec fn unbound(pairs: Seq<(Action, Key)>, action: Action) -> bool {
    forall|i: int| 0 <= i < pairs.len() ==> (#[trigger] pairs[i]).0 != action
}

/// Whether `after` is `before` with `action` bound to `key`: the pair of
/// the action holds the new key where the action was bound, and a new pair
/// stands last where it was not.
pub open spec fn rebound(
    before: Seq<(Action, Key)>,
    action: Action,
    key: Key,
    after: Seq<(Action, Key)>,
) -> bool {
    if unbound(before, action) {
        after == before.push((action, key))
    } else {
        exists|k: int|
            0 <= k < before.len() && (#[trigger] before[k]).0 == action && after == before.update(
                k,
                (action, key),
            )
    }
}

proof fn lemma_bound_key_elsewhere(
    before: Seq<(Action, Key)>,
    after: Seq<(Action, Key)>,
    action: Action,
    other: Action,
    from: int,
)
    requires
        other != action,
        0 <= from,
        before.len() <= after.len(),
        forall|i: int| 0 <= i < before.len() && before[i].0 != action ==> after[i] == before[i],
        forall|i: int| 0 <= i < before.len() && before[i].0 == action ==> after[i].0 == action,
        forall|i: int| before.len() <= i < after.len() ==> after[i].0 == action,
    ensures
        bound_key(after, other, from) == bound_key(before, other, from),
    decreases after.len() - from,
{
    if from < after.len() {
        lemma_bound_key_elsewhere(before, after, action, other, from + 1);
    }
}

proof fn lemma_bound_key_found(pairs: Seq<(Action, Key)>, action: Action, k: int, from: int)
    requires
        0 <= from <= k < pairs.len(),
        pairs[k].0 == action,
        forall|i: int| from <= i < k ==> pairs[i].0 != action,
    ensures
        bound_key(pairs, action, from) == Some(pairs[k].1),
    decreases k - from,
{
    if from < k {
        lemma_bound_key_found(pairs, action, k, from + 1);
    }
}

/// Binding an action gives it the new key and leaves every other action
/// with the key it had; no action comes to stand in two pairs.
pub proof fn lemma_rebound(
    before: Seq<(Action, Key)>,
    action: Action,
    key: Key,
    after: Seq<(Action, Key)>,
)
    requires
        bound_once(before),
        rebound(before, action, key, after),
    ensures
        bound_once(after),
        bound_key(after, action, 0) == Some(key),
        forall|other: Action|
            other != action ==> bound_key(after, other, 0) == #[trigger] bound_key(
                before,
                other,
                0,
            ),
{
    if unbound(before, action) {
        lemma_bound_key_found(after, action, before.len() as int, 0);
    } else {
        let k = choose|k: int|
            0 <= k < before.len() && (#[trigger] before[k]).0 == action && after == before.update(
                k,
                (action, key),
            );
        assert forall|i: int| 0 <= i < k implies after[i].0 != action by {
            assert(before[i].0 != before[k].0);
        }
        lemma_bound_key_found(after, action, k, 0);
        assert forall|i: int| 0 <= i < before.len() && before[i].0 != action implies after[i]
            == before[i] by {}
    }
    assert forall|other: Action| other != action implies bound_key(after, other, 0)
        == #[trigger] bound_key(before, other, 0) by {
        lemma_bound_key_elsewhere(before, after, action, other, 0);
    }
}

/// The actions bound to `key` among the first `n` pairs, in the order of
/// the table.
pub open spec fn bound_actions(pairs: Seq<(Action, Key)>, key: Key, n: nat) -> Seq<Action>
    decreases n,
{
    if n == 0 {
        Seq::empty()
    } else if pairs[n - 1].1 == key {
        bound_actions(pairs, key, (n - 1) as nat).push(pairs[n - 1].0)
    } else {
        bound_actions(pairs, key, (n - 1) as nat)
    }
}

/// The key of the first pair among those from `from` on that binds
/// `action`.
pub open spec fn bound_key(pairs: Seq<(Action, Key)>, action: Action, from: int) -> Option<Key>
    decreases pairs.len() - from,
{
    if from < 0 || from >= pairs.len() {
        None
    } else if pairs[from].0 == action {
        Some(pairs[from].1)
    } else {
        bound_key(pairs, action, from + 1)
    }
}

proof fn lemma_candidates_come_from_pairs(pairs: Seq<(Action, Key)>, key: Key, n: nat)
    requires
        n <= pairs.len(),
    ensures
        forall|p: int|
            0 <= p < bound_actions(pairs, key, n).len() ==> exists|k: int|
                0 <= k < n && (#[trigger] pairs[k]).0 == (#[trigger] bound_actions(
                    pairs,
                    key,
                    n,
                )[p]) && pairs[k].1 == key,
    decreases n,
{
    if n > 0 {
        let m = (n - 1) as nat;
        lemma_candidates_come_from_pairs(pairs, key, m);
        let prev = bound_actions(pairs, key, m);
        let now = bound_actions(pairs, key, n);
        assert forall|p: int| 0 <= p < now.len() implies exists|k: int|
            0 <= k < n && (#[trigger] pairs[k]).0 == (#[trigger] now[p]) && pairs[k].1 == key by {
            if p < prev.len() {
                let k = choose|k: int|
                    0 <= k < m && (#[trigger] pairs[k]).0 == prev[p] && pairs[k].1 == key;
                assert(now[p] == prev[p]);
                assert(pairs[k].0 == now[p]);
            } else {
                assert(pairs[m as int].0 == now[p]);
            }
        }
    }
}

/// In a table that binds no action twice, the candidates for a key are
/// actions bound to that key, each of them once.
pub proof fn lemma_candidates_distinct(pairs: Seq<(Action, Key)>, key: Key, n: nat)
    requires
        bound_once(pairs),
        n <= pairs.len(),
    ensures
        forall|p: int, q: int|
            0 <= p < q < bound_actions(pairs, key, n).len() ==> (#[trigger] bound_actions(
                pairs,
                key,
                n,
            )[p]) != (#[trigger] bound_actions(pairs, key, n)[q]),
        forall|p: int|
            0 <= p < bound_actions(pairs, key, n).len() ==> bound_key(
                pairs,
                #[trigger] bound_actions(pairs, key, n)[p],
                0,
            ) == Some(key),
    decreases n,
{
    lemma_candidates_come_from_pairs(pairs, key, n);
    let now = bound_actions(pairs, key, n);
    assert forall|p: int| 0 <= p < now.len() implies bound_key(pairs, #[trigger] now[p], 0)
        == Some(key) by {
        let k = choose|k: int|
            0 <= k < n && (#[trigger] pairs[k]).0 == now[p] && pairs[k].1 == key;
        assert forall|i: int| 0 <= i < k implies pairs[i].0 != now[p] by {
            assert(pairs[i].0 != pairs[k].0);
        }
        lemma_bound_key_found(pairs, now[p], k, 0);
    }
    if n > 0 {
        let m = (n - 1) as nat;
        lemma_candidates_distinct(pairs, key, m);
        lemma_candidates_come_from_pairs(pairs, key, m);
        let prev = bound_actions(pairs, key, m);
        assert forall|p: int, q: int| 0 <= p < q < now.len() implies (#[trigger] now[p]) != (
        #[trigger] now[q]) by {
            if q < prev.len() {
                assert(now[p] == prev[p] && now[q] == prev[q]);
            } else {
                let k = choose|k: int|
                    0 <= k < m && (#[trigger] pairs[k]).0 == prev[p] && pairs[k].1 == key;
                assert(now[p] == prev[p]);
                assert(now[q] == pairs[m as int].0);
                assert(pairs[k].0 != pairs[m as int].0);
            }
        }
    }
}

impl KeyBindings {
    /// No action is bound twice.
    pub open spec fn wf(&self) -> bool {
        bound_once(self.pairs@)
    }

    /// A table without bindings.
    pub fn new() -> (r: Self)
        ensures
            r.wf(),
            r.pairs@.len() == 0,
    {
        KeyBindings { pairs: Vec::new() }
    }

    /// Binds `action` to `key`; a key that the action was bound to before is
    /// forgotten.
    pub fn bind(&mut self, action: Action, key: Key)
        requires
            old(self).wf(),
        ensures
            final(self).wf(),
            rebound(old(self).pairs@, action, key, final(self).pairs@),
            bound_key(final(self).pairs@, action, 0) == Some(key),
            forall|other: Action|
                other != action ==> bound_key(final(self).pairs@, other, 0) == #[trigger] bound_key(
                    old(self).pairs@,
                    other,
                    0,
                ),
    {
        let mut i: usize = 0;
        while i < self.pairs.len()
            invariant
                i <= self.pairs@.len(),
                self.pairs@ == old(self).pairs@,
                bound_once(old(self).pairs@),
                forall|j: int| 0 <= j < i ==> (#[trigger] self.pairs@[j]).0 != action,
            decreases self.pairs@.len() - i,
        {
            if self.pairs[i].0 == action {
                self.pairs.set(i, (action, key));
                proof {
                    assert(old(self).pairs@[i as int].0 == action);
                    lemma_rebound(old(self).pairs@, action, key, self.pairs@);
                }
                return ;
            }
            i += 1;
        }
        self.pairs.push((action, key));
        proof {
            lemma_rebound(old(self).pairs@, action, key, self.pairs@);
        }
    }

    /// Every action that `key` is bound to: the candidates among which a
    /// key press is resolved.
    pub fn get_actions(&self, key: Key) -> (actions: Vec<Action>)
        ensures
            actions@ == bound_actions(self.pairs@, key, self.pairs@.len()),
    {
        let mut actions: Vec<Action> = Vec::new();
        let mut i: usize = 0;
        while i < self.pairs.len()
            invariant
                i <= self.pairs@.len(),
                actions@ == bound_actions(self.pairs@, key, i as nat),
            decreases self.pairs@.len() - i,
        {
            if self.pairs[i].1 == key {
                actions.push(self.pairs[i].0);
            }
            i += 1;
        }
        actions
    }

    /// Whether help texts can show the key of `action`.
    pub fn can_show(&self, action: Action) -> (r: bool)
        ensures
            r == help_ready(self.pairs@, action),
    {
        match self.get_key(action) {
            Some(Key::Other) => false,
            Some(_) => true,
            None => false,
        }
    }

    /// The help line for `action`.
    pub fn help_line_for(&self, action: Action, what: &str) -> (r: String)
        requires
            help_ready(self.pairs@, action),
        ensures
            r@ == help_line_of(self.pairs@, action, what@),
    {
        match self.get_key(action) {
            Some(key) => help_line(&key, what),
            None => String::new(),
        }
    }

    /// The key that `action` is bound to, if it is bound.
    pub fn get_key(&self, action: Action) -> (key: Option<Key>)
        ensures
            key == bound_key(self.pairs@, action, 0),
    {
        let mut i: usize = 0;
        while i < self.pairs.len()
            invariant
                i <= self.pairs@.len(),
                bound_key(self.pairs@, action, 0) == bound_key(self.pairs@, action, i as int),
            decreases self.pairs@.len() - i,
        {
            if self.pairs[i].0 == action {
                return Some(self.pairs[i].1);
            }
            i += 1;
        }
        None
    }
}

/// With no candidate the press means nothing.
pub proof fn lemma_resolve_empty(scope: Scope)
    ensures
        resolved(Seq::<Action>::empty(), scope) == Action::NoOp,
{
}

/// What a press resolves to is one of the candidates, or nothing; with
/// several candidates it belongs to the scope.
pub proof fn lemma_resolved_is_candidate(candidates: Seq<Action>, scope: Scope)
    ensures
        resolved(candidates, scope) == Action::NoOp || candidates.contains(
            resolved(candidates, scope),
        ),
        candidates.len() != 1 && resolved(candidates, scope) != Action::NoOp ==> relevant(
            scope,
            resolved(candidates, scope),
        ),
    decreases candidates.len(),
{
    if candidates.len() == 1 {
        assert(candidates[0] == resolved(candidates, scope));
    } else if candidates.len() > 0 {
        if relevant(scope, candidates[0]) {
            assert(candidates[0] == resolved(candidates, scope));
        } else {
            let rest = candidates.drop_first();
            lemma_first_relevant(rest, scope);
            let r = first_relevant(rest, scope);
            if r != Action::NoOp {
                let k = choose|k: int| 0 <= k < rest.len() && rest[k] == r;
                assert(candidates[k + 1] == r);
            }
        }
    }
}

proof fn lemma_first_relevant(candidates: Seq<Action>, scope: Scope)
    ensures
        first_relevant(candidates, scope) == Action::NoOp || (candidates.contains(
            first_relevant(candidates, scope),
        ) && relevant(scope, first_relevant(candidates, scope))),
    decreases candidates.len(),
{
    if candidates.len() > 0 {
        if relevant(scope, candidates[0]) {
            assert(candidates[0] == first_relevant(candidates, scope));
        } else {
            let rest = candidates.drop_first();
            lemma_first_relevant(rest, scope);
            let r = first_relevant(rest, scope);
            if r != Action::NoOp {
                let k = choose|k: int| 0 <= k < rest.len() && rest[k] == r;
                assert(candidates[k + 1] == r);
            }
        }
    }
}

} // verus!
