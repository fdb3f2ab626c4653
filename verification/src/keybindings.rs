//! Which keys trigger which actions in the worktree list.
use vstd::prelude::*;

use crate::events::input::{KeyCode, KeyModifiers};
use crate::text;

verus! {

/// What a bound key does.
#[derive(Debug, Clone, Copy, PartialEq, Eq, Structural)]
pub enum Action {
    Quit,
    MoveDown,
    MoveUp,
    FocusTerminal,
    UnfocusTerminal,
    NewWorktree,
    DeleteWorktree,
    AddRepo,
    OpenEditor,
    Refresh,
}

/// One key, what it does, and how the key is shown to the user.
#[derive(Debug, Clone)]
pub struct Binding {
    pub code: KeyCode,
    pub modifiers: KeyModifiers,
    pub action: Action,
    pub hint: String,
}

/// The bound keys; where two bindings compete, the earlier one counts.
#[derive(Debug, Clone)]
pub struct Keybindings {
    pub bindings: Vec<Binding>,
}

/// A binding with its hint as characters.
#[verifier::ext_equal]
pub struct BindingView {
    pub code: KeyCode,
    pub modifiers: KeyModifiers,
    pub action: Action,
    pub hint: Seq<char>,
}

impl View for Binding {
    type V = BindingView;

    open spec fn view(&self) -> BindingView {
        BindingView {
            code: self.code,
            modifiers: self.modifiers,
            action: self.action,
            hint: self.hint@,
        }
    }
}

impl View for Keybindings {
    type V = Seq<BindingView>;

    open spec fn view(&self) -> Seq<BindingView> {
        self.bindings@.map_values(|b: Binding| b@)
    }
}

/// The action of the first binding of the key.
pub open spec fn action_for(
    bindings: Seq<BindingView>,
    code: KeyCode,
    modifiers: KeyModifiers,
) -> Option<Action>
    decreases bindings.len(),
{
    if bindings.len() == 0 {
        None
    } else if bindings[0].code == code && bindings[0].modifiers == modifiers {
        Some(bindings[0].action)
    } else {
        action_for(bindings.drop_first(), code, modifiers)
    }
}

/// The hint of the first binding of the action.
pub open spec fn hint_of(bindings: Seq<BindingView>, action: Action) -> Option<Seq<char>>
    decreases bindings.len(),
{
    if bindings.len() == 0 {
        None
    } else if bindings[0].action == action {
        Some(bindings[0].hint)
    } else {
        hint_of(bindings.drop_first(), action)
    }
}

impl Keybindings {
    /// The action that the key triggers.
    pub fn get(&self, code: KeyCode, modifiers: KeyModifiers) -> (r: Option<Action>)
        ensures
            r == action_for(self@, code, modifiers),
    {
        let mut i: usize = 0;
        assert(self@.skip(0) =~= self@);
        while i < self.bindings.len()
            invariant
                i <= self.bindings.len(),
                action_for(self@, code, modifiers) == action_for(
                    self@.skip(i as int),
                    code,
                    modifiers,
                ),
            decreases self.bindings.len() - i,
        {
            let b: &Binding = &self.bindings[i];
            assert(self@.skip(i as int)[0] == b@);
            if b.code == code && b.modifiers == modifiers {
                return Some(b.action);
            }
            assert(self@.skip(i as int).drop_first() =~= self@.skip(i + 1));
            i += 1;
        }
        None
    }

    /// How the key of the action is shown to the user.
    pub fn hint_for(&self, action: Action) -> (r: Option<String>)
        ensures
            text::opt_view(r) == hint_of(self@, action),
    {
        let mut i: usize = 0;
        assert(self@.skip(0) =~= self@);
        while i < self.bindings.len()
            invariant
                i <= self.bindings.len(),
                hint_of(self@, action) == hint_of(self@.skip(i as int), action),
            decreases self.bindings.len() - i,
        {
            let b: &Binding = &self.bindings[i];
            assert(self@.skip(i as int)[0] == b@);
            if b.action == action {
                return Some(b.hint.clone());
            }
            assert(self@.skip(i as int).drop_first() =~= self@.skip(i + 1));
            i += 1;
        }
        None
    }
}

/// Whether binding `i` is the first of the key.
pub open spec fn is_first_of_key(
    bindings: Seq<BindingView>,
    code: KeyCode,
    modifiers: KeyModifiers,
    i: int,
) -> bool {
    &&& 0 <= i < bindings.len()
    &&& bindings[i].code == code && bindings[i].modifiers == modifiers
    &&& forall|j: int|
        0 <= j < i ==> (#[trigger] bindings[j]).code != code || bindings[j].modifiers != modifiers
}

/// A key does what the first binding of exactly that key, with exactly those
/// modifiers, says; a key without a binding does nothing.
pub proof fn the_first_binding_of_a_key_counts(
    bindings: Seq<BindingView>,
    code: KeyCode,
    modifiers: KeyModifiers,
)
    ensures
        match action_for(bindings, code, modifiers) {
            Some(action) => exists|i: int| #[trigger] is_first_of_key(bindings, code, modifiers, i)
                && bindings[i].action == action,
            None => forall|i: int|
                0 <= i < bindings.len() ==> (#[trigger] bindings[i]).code != code
                    || bindings[i].modifiers != modifiers,
        },
    decreases bindings.len(),
{
    if bindings.len() > 0 {
        if bindings[0].code == code && bindings[0].modifiers == modifiers {
            assert(is_first_of_key(bindings, code, modifiers, 0));
        } else {
            let rest = bindings.drop_first();
            the_first_binding_of_a_key_counts(rest, code, modifiers);
            assert forall|j: int| 0 < j < bindings.len() implies #[trigger] bindings[j] == rest[j
                - 1] by {}
            if let Some(action) = action_for(rest, code, modifiers) {
                let i = choose|i: int| #[trigger] is_first_of_key(rest, code, modifiers, i)
                    && rest[i].action == action;
                assert(is_first_of_key(bindings, code, modifiers, i + 1));
            }
        }
    }
}

/// Whether binding `i` is the first of the action.
pub open spec fn is_first_of_action(bindings: Seq<BindingView>, action: Action, i: int) -> bool {
    &&& 0 <= i < bindings.len()
    &&& bindings[i].action == action
    &&& forall|j: int| 0 <= j < i ==> (#[trigger] bindings[j]).action != action
}

/// An action is shown with the key of its first binding; one without a binding
/// is not shown.
pub proof fn the_first_binding_of_an_action_is_shown(bindings: Seq<BindingView>, action: Action)
    ensures
        match hint_of(bindings, action) {
            Some(hint) => exists|i: int| #[trigger] is_first_of_action(bindings, action, i)
                && bindings[i].hint == hint,
            None => forall|i: int|
                0 <= i < bindings.len() ==> (#[trigger] bindings[i]).action != action,
        },
    decreases bindings.len(),
{
    if bindings.len() > 0 {
        if bindings[0].action == action {
            assert(is_first_of_action(bindings, action, 0));
        } else {
            let rest = bindings.drop_first();
            the_first_binding_of_an_action_is_shown(rest, action);
            assert forall|j: int| 0 < j < bindings.len() implies #[trigger] bindings[j] == rest[j
                - 1] by {}
            if let Some(hint) = hint_of(rest, action) {
                let i = choose|i: int| #[trigger] is_first_of_action(rest, action, i)
                    && rest[i].hint == hint;
                assert(is_first_of_action(bindings, action, i + 1));
            }
        }
    }
}

} // verus!
