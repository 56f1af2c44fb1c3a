//! The interactive input components: a text field with sorted
//! suggestions, and the popup state machines built on it. Drawing is the
//! application's; every keystroke decision is made here, and effects that
//! need the outside world (canonicalizing a path, asking for fresh
//! suggestions) come back as outcomes for the application to perform.
use vstd::prelude::*;

use crate::bus::Command;
use crate::strutil::{lemma_seq_lt_total, lemma_seq_lt_trans, seq_le, seq_lt, str_eq, str_le};
use crate::types::RepositoryArchives;

verus! {

/// Relies on String::push: appends one character to the string.
#[verifier::external_body]
fn push_char(s: &mut String, c: char)
    ensures
        final(s)@ == old(s)@.push(c),
{
    s.push(c);
}

/// Relies on String::pop: removes and returns the string's last
/// character, if any.
#[verifier::external_body]
fn pop_char(s: &mut String) -> (r: Option<char>)
    ensures
        old(s)@.len() == 0 ==> r is None && final(s)@ == old(s)@,
        old(s)@.len() > 0 ==> r == Some(old(s)@.last()) && final(s)@ == old(s)@.drop_last(),
{
    s.pop()
}

/// `s` with its trailing slashes removed.
pub open spec fn strip_trailing_slashes(s: Seq<char>) -> Seq<char>
    decreases s.len(),
{
    if s.len() > 0 && s.last() == '/' {
        strip_trailing_slashes(s.drop_last())
    } else {
        s
    }
}

/// The directory above `t` (for `t` without trailing slashes): everything
/// up to and including the last slash, or the root when no slash occurs.
pub open spec fn parent_of(t: Seq<char>) -> Seq<char>
    decreases t.len(),
{
    if t.len() == 0 {
        seq!['/']
    } else if t.last() == '/' {
        t
    } else {
        parent_of(t.drop_last())
    }
}

/// The directory a path string's parent directory renders as, always
/// ending in a slash.
pub open spec fn parent_dir_spec(s: Seq<char>) -> Seq<char> {
    parent_of(strip_trailing_slashes(s))
}

/// Drops the last path component (and trailing slashes), keeping the
/// slash that ends the parent, as `parent_dir_spec` describes.
pub fn parent_dir(s: &str) -> (r: String)
    ensures
        r@ == parent_dir_spec(s@),
{
    proof {
        reveal_strlit("/");
    }
    let len = s.unicode_len();
    let mut end: usize = len;
    proof {
        assert(s@.take(len as int) =~= s@);
    }
    loop
        invariant
            end <= len,
            len == s@.len(),
            strip_trailing_slashes(s@) == strip_trailing_slashes(s@.take(end as int)),
        ensures
            end <= len,
            strip_trailing_slashes(s@) == s@.take(end as int),
        decreases end,
    {
        if end == 0 {
            proof {
                assert(s@.take(0) =~= Seq::<char>::empty());
            }
            break;
        }
        if s.get_char(end - 1) != '/' {
            proof {
                assert(s@.take(end as int).last() == s@[end - 1]);
            }
            break;
        }
        proof {
            assert(s@.take(end as int).last() == s@[end - 1]);
            assert(s@.take(end as int).drop_last() =~= s@.take(end - 1));
        }
        end = end - 1;
    }
    let mut k: usize = end;
    let ghost t = s@.take(end as int);
    loop
        invariant
            k <= end <= len,
            len == s@.len(),
            t == s@.take(end as int),
            parent_of(t) == parent_of(s@.take(k as int)),
        ensures
            k <= end,
            parent_of(t) == parent_of(s@.take(k as int)),
            k == 0 || s@[k - 1] == '/',
        decreases k,
    {
        if k == 0 {
            break;
        }
        if s.get_char(k - 1) == '/' {
            break;
        }
        proof {
            assert(s@.take(k as int).last() == s@[k - 1]);
            assert(s@.take(k as int).drop_last() =~= s@.take(k - 1));
        }
        k = k - 1;
    }
    if k == 0 {
        proof {
            assert(s@.take(0) =~= Seq::<char>::empty());
            assert(parent_of(Seq::<char>::empty()) =~= seq!['/']);
            assert("/"@ =~= seq!['/']);
        }
        "/".to_owned()
    } else {
        proof {
            assert(s@.take(k as int).last() == s@[k - 1]);
            assert(parent_of(s@.take(k as int)) == s@.take(k as int));
        }
        s.substring_char(0, k).to_owned()
    }
}

/// One keystroke, as the input components understand it.
#[derive(Clone, Copy, Debug, PartialEq, Eq, Structural)]
pub enum InputKey {
    /// Backspace; `word` when a modifier asks to delete a whole path
    /// component.
    Backspace { word: bool },
    Tab,
    Esc,
    Enter,
    Down,
    Up,
    Left,
    Right,
    /// The cancel chord.
    Cancel,
    Char(char),
}

/// How the field completes on Tab.
#[derive(Clone, Copy, Debug, PartialEq, Eq, Structural)]
pub enum CompletionMode {
    /// Jump to the first suggestion at or after the buffer.
    FirstAtOrAfter,
    /// Directory completion: jumping as above, but a buffer that already
    /// equals its best suggestion is canonicalized by the caller.
    Directory,
}

/// How the field validates on Enter.
#[derive(Clone, Copy, Debug, PartialEq, Eq, Structural)]
pub enum ValidationMode {
    /// Only a buffer that equals a suggestion submits.
    MustBeKnown,
    /// Any buffer submits.
    AlwaysValid,
}

/// What a keystroke on the field asks the caller to do.
pub enum KeyOutcome {
    /// Nothing beyond the field's own state change.
    Nothing,
    /// The buffer was submitted.
    Submit(String),
    /// Directory completion needs the filesystem: canonicalize this path
    /// and hand it back through `apply_canonicalized`.
    RequestCanonicalize(String),
}

/// A text input with a lexicographically sorted set of suggestions, a
/// cursor over them, and the done/editing flags of the popup protocol.
pub struct InputFieldWithSuggestions {
    suggestions: Vec<String>,
    input_buffer: String,
    input_buffer_changed: bool,
    content_title: String,
    is_editing: bool,
    is_done: bool,
    cursor: Option<usize>,
}

impl InputFieldWithSuggestions {
    /// Suggestions are strictly sorted, so also pairwise distinct.
    #[verifier::type_invariant]
    spec fn inv(&self) -> bool {
        forall|i: int, j: int|
            0 <= i < j < self.suggestions@.len() ==> seq_lt(
                (#[trigger] self.suggestions@[i])@,
                (#[trigger] self.suggestions@[j])@,
            )
    }

    /// The suggestions, in lexicographic order.
    pub closed spec fn suggestion_view(&self) -> Seq<Seq<char>> {
        self.suggestions@.map_values(|s: String| s@)
    }

    /// The text in the field.
    pub closed spec fn buffer(&self) -> Seq<char> {
        self.input_buffer@
    }

    /// Whether the buffer changed since the last time the caller drained
    /// the change flag.
    pub closed spec fn changed(&self) -> bool {
        self.input_buffer_changed
    }

    pub closed spec fn done(&self) -> bool {
        self.is_done
    }

    pub closed spec fn editing(&self) -> bool {
        self.is_editing
    }

    pub closed spec fn title(&self) -> Seq<char> {
        self.content_title@
    }

    /// A fresh field: editing, not done, the buffer preloaded (and marked
    /// changed when the preload is non-empty).
    pub fn new(initial_input_text: String, content_title: String) -> (r: Self)
        ensures
            r.suggestion_view() == Seq::<Seq<char>>::empty(),
            r.buffer() == initial_input_text@,
            r.changed() == (initial_input_text@.len() != 0),
            r.title() == content_title@,
            r.editing(),
            !r.done(),
    {
        let changed = initial_input_text.unicode_len() != 0;
        let r = InputFieldWithSuggestions {
            suggestions: Vec::new(),
            input_buffer: initial_input_text,
            input_buffer_changed: changed,
            content_title,
            is_editing: true,
            is_done: false,
            cursor: None,
        };
        proof {
            assert(r.suggestion_view() =~= Seq::<Seq<char>>::empty());
        }
        r
    }

    pub fn is_done(&self) -> (r: bool)
        ensures
            r == self.done(),
    {
        self.is_done
    }

    /// Marks the field done (the popup protocol's way out).
    pub fn finish(&mut self)
        ensures
            final(self).done(),
            final(self).buffer() == old(self).buffer(),
            final(self).suggestion_view() == old(self).suggestion_view(),
    {
        proof {
            use_type_invariant(&*self);
        }
        self.is_done = true;
    }

    /// Inserts one suggestion, keeping the set sorted and duplicate-free.
    fn insert_suggestion(&mut self, item: &str)
        ensures
            final(self).suggestion_view().contains(item@),
            forall|x: Seq<char>|
                old(self).suggestion_view().contains(x) ==> final(self).suggestion_view().contains(
                    x,
                ),
            forall|x: Seq<char>|
                final(self).suggestion_view().contains(x) ==> old(self).suggestion_view().contains(x) || x == item@,
            final(self).buffer() == old(self).buffer(),
            final(self).changed() == old(self).changed(),
            final(self).done() == old(self).done(),
            final(self).editing() == old(self).editing(),
    {
        proof {
            use_type_invariant(&*self);
        }
        let ghost kv = self.suggestion_view();
        let len = self.suggestions.len();
        let mut i: usize = 0;
        loop
            invariant
                i <= len,
                len == self.suggestions@.len(),
                kv == self.suggestion_view(),
                forall|j: int| 0 <= j < i ==> seq_lt((#[trigger] kv[j]), item@),
            ensures
                i <= len,
                forall|j: int| 0 <= j < i ==> seq_lt((#[trigger] kv[j]), item@),
                i < len ==> seq_le(item@, kv[i as int]),
                kv == self.suggestion_view(),
                len == self.suggestions@.len(),
            decreases len - i,
        {
            if i == len {
                break;
            }
            proof {
                assert(kv[i as int] == self.suggestions@[i as int]@);
            }
            if str_le(item, self.suggestions[i].as_str()) {
                proof {
                    lemma_seq_lt_total(kv[i as int], item@);
                }
                break;
            }
            proof {
                lemma_seq_lt_total(kv[i as int], item@);
            }
            i = i + 1;
        }
        if i < len {
            if str_eq(self.suggestions[i].as_str(), item) {
                proof {
                    assert(kv.contains(kv[i as int]));
                }
                return;
            }
        }
        let mut items: Vec<String> = Vec::new();
        std::mem::swap(&mut items, &mut self.suggestions);
        items.insert(i, item.to_owned());
        proof {
            let nv = items@.map_values(|s: String| s@);
            assert(nv =~= kv.insert(i as int, item@));
            assert forall|a: int, b: int| 0 <= a < b < nv.len() implies seq_lt(
                (#[trigger] items@[a])@,
                (#[trigger] items@[b])@,
            ) by {
                assert(items@[a]@ == nv[a]);
                assert(items@[b]@ == nv[b]);
                if b < i {
                    assert(nv[a] == kv[a] && nv[b] == kv[b]);
                } else if a < i && b == i {
                    assert(nv[a] == kv[a] && nv[b] == item@);
                } else if a < i && b > i {
                    assert(nv[a] == kv[a] && nv[b] == kv[b - 1]);
                } else if a == i {
                    assert(nv[a] == item@ && nv[b] == kv[b - 1]);
                    assert(i <= b - 1 < kv.len());
                    assert(seq_le(item@, kv[i as int]));
                    if item@ == kv[i as int] {
                        assert(false);
                    }
                    if b - 1 == i {
                    } else {
                        lemma_seq_lt_trans(item@, kv[i as int], kv[b - 1]);
                    }
                } else {
                    assert(nv[a] == kv[a - 1] && nv[b] == kv[b - 1]);
                }
            }
            assert forall|x: Seq<char>| kv.contains(x) implies nv.contains(x) by {
                let j = choose|j: int| 0 <= j < kv.len() && kv[j] == x;
                if j < i {
                    assert(nv[j] == x);
                } else {
                    assert(nv[j + 1] == x);
                }
            }
            assert forall|x: Seq<char>| nv.contains(x) implies kv.contains(x) || x == item@ by {
                let j = choose|j: int| 0 <= j < nv.len() && nv[j] == x;
                if j < i {
                    assert(kv[j] == x);
                } else if j == i {
                } else {
                    assert(kv[j - 1] == x);
                }
            }
            assert(nv[i as int] == item@);
            assert(nv.contains(item@));
        }
        std::mem::swap(&mut items, &mut self.suggestions);
    }

    /// Extends the suggestion set.
    pub fn update_suggestions(&mut self, items: &Vec<String>)
        ensures
            forall|x: Seq<char>|
                old(self).suggestion_view().contains(x) ==> final(self).suggestion_view().contains(
                    x,
                ),
            forall|i: int|
                0 <= i < items@.len() ==> final(self).suggestion_view().contains(
                    (#[trigger] items@[i])@,
                ),
            forall|x: Seq<char>|
                final(self).suggestion_view().contains(x) ==> old(self).suggestion_view().contains(x) || exists|i: int|
                    0 <= i < items@.len() && (#[trigger] items@[i])@ == x,
            final(self).buffer() == old(self).buffer(),
            final(self).changed() == old(self).changed(),
            final(self).done() == old(self).done(),
    {
        let mut i: usize = 0;
        while i < items.len()
            invariant
                i <= items.len(),
                forall|x: Seq<char>|
                    old(self).suggestion_view().contains(x) ==> self.suggestion_view().contains(x),
                forall|j: int|
                    0 <= j < i ==> self.suggestion_view().contains((#[trigger] items@[j])@),
                forall|x: Seq<char>|
                    self.suggestion_view().contains(x) ==> old(self).suggestion_view().contains(x)
                        || exists|j: int| 0 <= j < items@.len() && (#[trigger] items@[j])@ == x,
                self.buffer() == old(self).buffer(),
                self.changed() == old(self).changed(),
                self.done() == old(self).done(),
            decreases items@.len() - i,
        {
            self.insert_suggestion(items[i].as_str());
            i = i + 1;
        }
    }

    /// Hands the buffer out once after each change: the caller asks for
    /// fresh suggestions exactly when this returns a value.
    pub fn on_input_buffer_changed(&mut self) -> (r: Option<String>)
        ensures
            old(self).changed() ==> (r matches Some(buffer) && buffer@ == old(self).buffer()
                && !final(self).changed()),
            !old(self).changed() ==> r is None && *final(self) == *old(self),
            final(self).buffer() == old(self).buffer(),
            final(self).suggestion_view() == old(self).suggestion_view(),
            final(self).done() == old(self).done(),
    {
        proof {
            use_type_invariant(&*self);
        }
        if self.input_buffer_changed {
            self.input_buffer_changed = false;
            Some(self.input_buffer.clone())
        } else {
            None
        }
    }

    /// Moves the cursor to `new_index`, clamped to the suggestion range,
    /// and loads the selected suggestion into the buffer (without marking
    /// it changed, so a selection does not scramble a pending lookup).
    pub fn update_cursor(&mut self, new_index: usize)
        ensures
            final(self).suggestion_view() == old(self).suggestion_view(),
            final(self).done() == old(self).done(),
            old(self).suggestion_view().len() > 0 ==> {
                let clamped = (if new_index < old(self).suggestion_view().len() {
                    new_index as int
                } else {
                    old(self).suggestion_view().len() - 1
                });
                final(self).buffer() == old(self).suggestion_view()[clamped] && !final(self).changed()
            },
            old(self).suggestion_view().len() == 0 ==> final(self).buffer() == old(self).buffer()
                && final(self).changed() == old(self).changed(),
    {
        proof {
            use_type_invariant(&*self);
        }
        let len = self.suggestions.len();
        let clamped = if len == 0 {
            0
        } else if new_index < len {
            new_index
        } else {
            len - 1
        };
        self.cursor = Some(clamped);
        if clamped < len {
            proof {
                let ci = clamped as int;
                assert(self.suggestion_view()[ci] == self.suggestions@[ci]@);
            }
            self.input_buffer = self.suggestions[clamped].clone();
            self.input_buffer_changed = false;
        }
    }

    /// The first suggestion lexicographically at or after the buffer.
    fn first_at_or_after(&self) -> (r: Option<usize>)
        ensures
            match r {
                Some(i) => i < self.suggestion_view().len() && seq_le(
                    self.buffer(),
                    self.suggestion_view()[i as int],
                ),
                None => true,
            },
    {
        let mut i: usize = 0;
        while i < self.suggestions.len()
            invariant
                i <= self.suggestions@.len(),
            decreases self.suggestions@.len() - i,
        {
            proof {
                assert(self.suggestion_view()[i as int] == self.suggestions@[i as int]@);
            }
            if str_le(self.input_buffer.as_str(), self.suggestions[i].as_str()) {
                return Some(i);
            }
            i = i + 1;
        }
        None
    }

    /// Directory completion resolved: adopts the canonicalized path,
    /// ensuring it ends in a slash, and marks the buffer changed.
    pub fn apply_canonicalized(&mut self, canonical: String)
        ensures
            final(self).changed(),
            final(self).suggestion_view() == old(self).suggestion_view(),
            final(self).done() == old(self).done(),
            canonical@.len() > 0 && canonical@.last() == '/' ==> final(self).buffer()
                == canonical@,
            !(canonical@.len() > 0 && canonical@.last() == '/') ==> final(self).buffer()
                == canonical@.push('/'),
    {
        proof {
            use_type_invariant(&*self);
        }
        let mut buffer = canonical;
        let len = buffer.unicode_len();
        let ends_with_slash = if len == 0 {
            false
        } else {
            buffer.as_str().get_char(len - 1) == '/'
        };
        if !ends_with_slash {
            push_char(&mut buffer, '/');
        }
        self.input_buffer = buffer;
        self.input_buffer_changed = true;
    }

    /// One keystroke. The field mutates itself; whatever needs the caller
    /// comes back as the outcome.
    pub fn handle_key(&mut self, key: InputKey, completion: CompletionMode, validation: ValidationMode) -> (r: KeyOutcome)
        ensures
            final(self).suggestion_view() == old(self).suggestion_view(),
            key matches InputKey::Enter ==> (match r {
                KeyOutcome::Submit(value) => value@ == old(self).buffer() && (
                validation == ValidationMode::MustBeKnown ==> old(self).suggestion_view().contains(value@)),
                KeyOutcome::Nothing => validation == ValidationMode::MustBeKnown && !old(self).suggestion_view().contains(old(self).buffer()),
                _ => false,
            }),
            (key matches InputKey::Backspace{word} && word) ==> (final(self).buffer()
                == parent_dir_spec(old(self).buffer()) && final(self).changed()),
            (key matches InputKey::Backspace{word} && !word && old(self).buffer().len() > 0) ==> (
            final(self).buffer() == old(self).buffer().drop_last() && final(self).changed()),
            key matches InputKey::Cancel ==> final(self).done(),
            !(key is Enter) ==> !(r is Submit),
    {
        proof {
            use_type_invariant(&*self);
        }
        match key {
            InputKey::Backspace { word } => {
                if word {
                    let parent = parent_dir(self.input_buffer.as_str());
                    self.input_buffer = parent;
                } else {
                    let mut buffer = String::new();
                    std::mem::swap(&mut buffer, &mut self.input_buffer);
                    pop_char(&mut buffer);
                    std::mem::swap(&mut buffer, &mut self.input_buffer);
                }
                self.input_buffer_changed = true;
                KeyOutcome::Nothing
            },
            InputKey::Tab => {
                match self.first_at_or_after() {
                    None => {
                        self.input_buffer_changed = false;
                        KeyOutcome::Nothing
                    },
                    Some(i) => {
                        proof {
                            let ii = i as int;
                            assert(self.suggestion_view()[ii] == self.suggestions@[ii]@);
                        }
                        if str_eq(self.suggestions[i].as_str(), self.input_buffer.as_str()) {
                            match completion {
                                CompletionMode::Directory => {
                                    KeyOutcome::RequestCanonicalize(self.input_buffer.clone())
                                },
                                CompletionMode::FirstAtOrAfter => {
                                    self.input_buffer_changed = false;
                                    KeyOutcome::Nothing
                                },
                            }
                        } else {
                            self.input_buffer = self.suggestions[i].clone();
                            self.input_buffer_changed = true;
                            KeyOutcome::Nothing
                        }
                    },
                }
            },
            InputKey::Esc => {
                if self.is_editing {
                    self.is_done = true;
                } else {
                    self.is_editing = false;
                }
                KeyOutcome::Nothing
            },
            InputKey::Enter => {
                let valid = match validation {
                    ValidationMode::AlwaysValid => true,
                    ValidationMode::MustBeKnown => self.contains_suggestion(
                        self.input_buffer.as_str(),
                    ),
                };
                if valid {
                    KeyOutcome::Submit(self.input_buffer.clone())
                } else {
                    KeyOutcome::Nothing
                }
            },
            InputKey::Down => {
                let next = match self.cursor {
                    Some(c) => if c < usize::MAX {
                        c + 1
                    } else {
                        c
                    },
                    None => 1,
                };
                self.update_cursor(next);
                KeyOutcome::Nothing
            },
            InputKey::Up => {
                let next = match self.cursor {
                    Some(c) => if c > 0 {
                        c - 1
                    } else {
                        0
                    },
                    None => 0,
                };
                self.update_cursor(next);
                KeyOutcome::Nothing
            },
            InputKey::Left => KeyOutcome::Nothing,
            InputKey::Right => KeyOutcome::Nothing,
            InputKey::Cancel => {
                self.is_done = true;
                KeyOutcome::Nothing
            },
            InputKey::Char(c) => {
                if c == 'q' && !self.is_editing {
                    self.is_done = true;
                } else {
                    let mut buffer = String::new();
                    std::mem::swap(&mut buffer, &mut self.input_buffer);
                    push_char(&mut buffer, c);
                    std::mem::swap(&mut buffer, &mut self.input_buffer);
                    self.input_buffer_changed = true;
                }
                KeyOutcome::Nothing
            },
        }
    }

    /// Whether the suggestion set holds exactly this string.
    pub fn contains_suggestion(&self, s: &str) -> (r: bool)
        ensures
            r == self.suggestion_view().contains(s@),
    {
        let mut i: usize = 0;
        while i < self.suggestions.len()
            invariant
                i <= self.suggestions@.len(),
                forall|j: int| 0 <= j < i ==> (#[trigger] self.suggestions@[j])@ != s@,
            decreases self.suggestions@.len() - i,
        {
            if str_eq(self.suggestions[i].as_str(), s) {
                proof {
                    assert(self.suggestion_view()[i as int] == s@);
                }
                return true;
            }
            i = i + 1;
        }
        proof {
            if self.suggestion_view().contains(s@) {
                let j = choose|j: int|
                    0 <= j < self.suggestion_view().len() && self.suggestion_view()[j] == s@;
                assert((self.suggestions@[j])@ == s@);
            }
        }
        false
    }
}

} // verus!

verus! {

/// The two answers a confirmation dialog offers.
#[derive(Clone, Copy, Debug, PartialEq, Eq, Structural)]
pub enum ConfirmationButtonState {
    Yes,
    No,
}

impl ConfirmationButtonState {
    /// The other answer.
    pub fn compliment(&self) -> (r: ConfirmationButtonState)
        ensures
            self == ConfirmationButtonState::Yes ==> r == ConfirmationButtonState::No,
            self == ConfirmationButtonState::No ==> r == ConfirmationButtonState::Yes,
    {
        match self {
            ConfirmationButtonState::Yes => ConfirmationButtonState::No,
            ConfirmationButtonState::No => ConfirmationButtonState::Yes,
        }
    }
}

/// A yes/no dialog: arrow keys flip the selection, Enter confirms it,
/// `y` and `n` answer directly, and the cancel keys dismiss.
pub struct ConfirmationPopup {
    pub text: String,
    pub button_state: ConfirmationButtonState,
    pub is_dismissed: bool,
}

impl ConfirmationPopup {
    pub fn new(text: String, initial_button_state: ConfirmationButtonState) -> (r: Self)
        ensures
            r.text@ == text@,
            r.button_state == initial_button_state,
            !r.is_dismissed,
    {
        ConfirmationPopup { text, button_state: initial_button_state, is_dismissed: false }
    }

    /// One keystroke; the confirmed answer comes back when the user gave
    /// one, and the dialog dismisses itself.
    pub fn handle_key(&mut self, key: InputKey) -> (r: Option<ConfirmationButtonState>)
        ensures
            match key {
                InputKey::Cancel => r is None && final(self).is_dismissed,
                InputKey::Char(c) => (if c == 'q' {
                    r is None && final(self).is_dismissed
                } else if c == 'y' {
                    r == Some(ConfirmationButtonState::Yes) && final(self).is_dismissed
                } else if c == 'n' {
                    r == Some(ConfirmationButtonState::No) && final(self).is_dismissed
                } else {
                    r is None && *final(self) == *old(self)
                }),
                InputKey::Enter => r == Some(old(self).button_state) && final(self).is_dismissed,
                InputKey::Left => r is None && final(self).button_state == (if old(self).button_state == ConfirmationButtonState::Yes {
                    ConfirmationButtonState::No
                } else {
                    ConfirmationButtonState::Yes
                }),
                InputKey::Right => r is None && final(self).button_state == (if old(self).button_state == ConfirmationButtonState::Yes {
                    ConfirmationButtonState::No
                } else {
                    ConfirmationButtonState::Yes
                }),
                _ => r is None && *final(self) == *old(self),
            },
    {
        match key {
            InputKey::Cancel => {
                self.is_dismissed = true;
                None
            },
            InputKey::Char(c) => {
                if c == 'q' {
                    self.is_dismissed = true;
                    None
                } else if c == 'y' {
                    self.button_state = ConfirmationButtonState::Yes;
                    self.is_dismissed = true;
                    Some(ConfirmationButtonState::Yes)
                } else if c == 'n' {
                    self.button_state = ConfirmationButtonState::No;
                    self.is_dismissed = true;
                    Some(ConfirmationButtonState::No)
                } else {
                    None
                }
            },
            InputKey::Enter => {
                self.is_dismissed = true;
                Some(self.button_state)
            },
            InputKey::Left => {
                self.button_state = self.button_state.compliment();
                None
            },
            InputKey::Right => {
                self.button_state = self.button_state.compliment();
                None
            },
            _ => None,
        }
    }

    pub fn is_done(&self) -> (r: bool)
        ensures
            r == self.is_dismissed,
    {
        self.is_dismissed
    }
}

/// A message dialog: it shows one line until dismissed.
pub struct MessagePopup {
    pub error_message: String,
    pub is_dismissed: bool,
}

impl MessagePopup {
    pub fn new(error_message: String) -> (r: Self)
        ensures
            r.error_message@ == error_message@,
            !r.is_dismissed,
    {
        MessagePopup { error_message, is_dismissed: false }
    }

    /// `q` and the cancel chord dismiss; everything else is ignored.
    pub fn handle_key(&mut self, key: InputKey)
        ensures
            final(self).error_message@ == old(self).error_message@,
            final(self).is_dismissed == (old(self).is_dismissed || key == InputKey::Cancel || key
                == InputKey::Char('q')),
    {
        match key {
            InputKey::Cancel => {
                self.is_dismissed = true;
            },
            InputKey::Char(c) => {
                if c == 'q' {
                    self.is_dismissed = true;
                }
            },
            _ => {},
        }
    }

    pub fn is_done(&self) -> (r: bool)
        ensures
            r == self.is_dismissed,
    {
        self.is_dismissed
    }
}

/// The popup that adds a backup path to the profile: a directory input
/// whose submission becomes a profile mutation; it stays open until the
/// mutation's success is signalled back.
pub struct AddFileToProfilePopup {
    pub path_successfully_added: bool,
    pub input: InputFieldWithSuggestions,
}

impl AddFileToProfilePopup {
    pub open spec fn added(&self) -> bool {
        self.path_successfully_added
    }

    pub fn new(initial_text: String) -> (r: Self)
        ensures
            !r.added(),
            r.input.buffer() == initial_text@,
    {
        AddFileToProfilePopup {
            path_successfully_added: false,
            input: InputFieldWithSuggestions::new(initial_text, "Filepath to Add".to_owned()),
        }
    }

    /// The dispatch loop reported that the path was added and persisted.
    pub fn mark_path_added(&mut self)
        ensures
            final(self).added(),
    {
        self.path_successfully_added = true;
    }

    pub fn is_done(&self) -> (r: bool)
        ensures
            r == (self.input.done() || self.added()),
    {
        self.input.is_done() || self.path_successfully_added
    }

    /// One keystroke: directory completion, any text submits; a submitted
    /// value is the path the caller should add to the profile.
    pub fn handle_key(&mut self, key: InputKey) -> (r: KeyOutcome) {
        self.input.handle_key(key, CompletionMode::Directory, ValidationMode::AlwaysValid)
    }

    /// One tick: adopt fresh directory suggestions and, when the buffer
    /// changed, ask for the next batch.
    pub fn on_tick(&mut self, directory_suggestions: &Vec<String>) -> (r: Option<Command>) {
        self.input.update_suggestions(directory_suggestions);
        match self.input.on_input_buffer_changed() {
            Some(buffer) => Some(Command::GetDirectorySuggestionsFor(buffer)),
            None => None,
        }
    }
}

/// What the mount popup is currently selecting.
#[derive(Clone, Copy, Debug, PartialEq, Eq, Structural)]
pub enum MountPopupSelectionState {
    /// Choosing a whole repository to mount.
    Repo,
    /// Choosing a single archive to mount.
    Archive,
    /// Choosing the mountpoint.
    MountPoint,
}

/// The mount dialog: first a repository or archive selector (fed from the
/// listing results), then a mountpoint input with directory completion.
pub struct MountPopup {
    pub state: MountPopupSelectionState,
    pub input: InputFieldWithSuggestions,
    pub repo_or_archive: Option<String>,
    pub num_list_archives: usize,
    pub done_flag: bool,
}

impl MountPopup {
    /// The selector the user confirmed, once one was confirmed.
    pub open spec fn selection(&self) -> Option<Seq<char>> {
        match self.repo_or_archive {
            Some(ref s) => Some(s@),
            None => None,
        }
    }

    pub fn new(is_repo: bool) -> (r: Self)
        ensures
            is_repo ==> r.state == MountPopupSelectionState::Repo,
            !is_repo ==> r.state == MountPopupSelectionState::Archive,
            r.selection() is None,
            !r.done(),
    {
        let state = if is_repo {
            MountPopupSelectionState::Repo
        } else {
            MountPopupSelectionState::Archive
        };
        MountPopup {
            state,
            input: InputFieldWithSuggestions::new(
                "".to_owned(),
                "Archive or Repo to Mount".to_owned(),
            ),
            repo_or_archive: None,
            num_list_archives: 0,
            done_flag: false,
        }
    }

    pub open spec fn done(&self) -> bool {
        self.done_flag
    }

    pub fn is_done(&self) -> (r: bool)
        ensures
            r == (self.input.done() || self.done()),
    {
        self.input.is_done() || self.done_flag
    }

    /// Adopts `repository::archive` selectors for every archive of every
    /// listing that has arrived, when the total changed since last fed.
    pub fn update_list_archive_suggestions(&mut self, listings: &Vec<RepositoryArchives>) {
        let mut total: usize = 0;
        let mut i: usize = 0;
        while i < listings.len()
            decreases listings@.len() - i,
        {
            let n = listings[i].archives.len();
            if total <= usize::MAX - n {
                total = total + n;
            }
            i = i + 1;
        }
        if total == self.num_list_archives {
            return;
        }
        self.num_list_archives = total;
        let mut selectors: Vec<String> = Vec::new();
        let mut j: usize = 0;
        while j < listings.len()
            invariant
                j <= listings@.len(),
            decreases listings@.len() - j,
        {
            let mut k: usize = 0;
            while k < listings[j].archives.len()
                invariant
                    j < listings@.len(),
                    k <= listings@[j as int].archives@.len(),
                decreases listings@[j as int].archives@.len() - k,
            {
                let mut selector = listings[j].path.clone();
                selector.append("::");
                selector.append(listings[j].archives[k].name.as_str());
                selectors.push(selector);
                k = k + 1;
            }
            j = j + 1;
        }
        self.input.update_suggestions(&selectors);
    }

    /// Adopts the repository locations themselves as suggestions (the
    /// whole-repository variant of the dialog).
    pub fn update_repo_suggestions(&mut self, repo_paths: &Vec<String>) {
        self.input.update_suggestions(repo_paths);
    }

    /// One keystroke while selecting the repository or archive: a
    /// confirmed selector (it must name a known entry) moves the dialog
    /// to mountpoint selection, seeded with the caller's default
    /// mountpoint text.
    pub fn handle_key_repo_or_archive(&mut self, key: InputKey, default_mountpoint: String)
        ensures
            final(self).state == MountPopupSelectionState::MountPoint ==> ((final(self).selection()
                matches Some(sel) && old(self).input.suggestion_view().contains(sel)) || old(
                self,
            ).state == MountPopupSelectionState::MountPoint),
    {
        let outcome = self.input.handle_key(
            key,
            CompletionMode::FirstAtOrAfter,
            ValidationMode::MustBeKnown,
        );
        match outcome {
            KeyOutcome::Submit(value) => {
                self.repo_or_archive = Some(value);
                self.state = MountPopupSelectionState::MountPoint;
                self.input = InputFieldWithSuggestions::new(
                    default_mountpoint,
                    "Mount Point".to_owned(),
                );
            },
            _ => {},
        }
    }

    /// One keystroke while selecting the mountpoint: a submitted value,
    /// together with the earlier selector, becomes the mount command and
    /// closes the dialog.
    pub fn handle_key_mount_point_selection(&mut self, key: InputKey) -> (r: Option<
        (String, String),
    >)
        ensures
            r matches Some(pair) ==> old(self).selection() == Some(pair.0@) && final(self).done(),
    {
        let outcome = self.input.handle_key(
            key,
            CompletionMode::Directory,
            ValidationMode::AlwaysValid,
        );
        match outcome {
            KeyOutcome::Submit(mountpoint) => match &self.repo_or_archive {
                Some(selector) => {
                    let pair = (selector.clone(), mountpoint);
                    self.done_flag = true;
                    Some(pair)
                },
                None => None,
            },
            _ => None,
        }
    }

    /// One keystroke, routed by the dialog's phase. A mount request comes
    /// back once both the selector and the mountpoint are confirmed.
    pub fn handle_key(&mut self, key: InputKey, default_mountpoint: String) -> (r: Option<
        (String, String),
    >) {
        let is_selection = match self.state {
            MountPopupSelectionState::Repo => true,
            MountPopupSelectionState::Archive => true,
            MountPopupSelectionState::MountPoint => false,
        };
        if is_selection {
            self.handle_key_repo_or_archive(key, default_mountpoint);
            None
        } else {
            self.handle_key_mount_point_selection(key)
        }
    }
}

} // verus!
