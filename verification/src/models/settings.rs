use vstd::prelude::*;

verus! {

pub const GLOBAL_SEARCH_ACTION: &'static str = "global_toggle_search";
pub const DEFAULT_GLOBAL_SEARCH_SHORTCUT: &'static str = "CommandOrControl+Shift+P";

/// One configurable action: its id, default binding, label, and whether it is
/// a system-wide shortcut.
#[derive(Debug, Clone)]
pub struct ShortcutAction {
    pub action: String,
    pub default_binding: String,
    pub label: String,
    pub is_global: bool,
}

#[derive(Debug, Clone)]
pub struct KeyboardShortcut {
    pub action: String,
    pub binding: String,
    pub label: String,
    pub default_binding: String,
    pub is_global: bool,
}

/// The actions a user can bind, in display order:
/// (action id, default binding, label, is global).
pub open spec fn shortcut_table() -> Seq<(Seq<char>, Seq<char>, Seq<char>, bool)> {
    seq![
        ("global_toggle_search"@, "CommandOrControl+Shift+P"@, "Toggle Search Window"@, true),
        ("focus_search"@, "CommandOrControl+F"@, "Focus Search"@, false),
        ("new_prompt"@, "CommandOrControl+N"@, "New Prompt"@, false),
        ("toggle_favorite"@, "CommandOrControl+D"@, "Toggle Favorite"@, false),
        ("toggle_edit"@, "CommandOrControl+E"@, "Toggle Edit Mode"@, false),
        ("open_import"@, "CommandOrControl+I"@, "Open Import"@, false),
        ("copy_selected"@, "Enter"@, "Copy Selected Prompt"@, false),
        ("deselect"@, "Escape"@, "Deselect"@, false),
        ("navigate_up"@, "ArrowUp"@, "Navigate Up"@, false),
        ("navigate_down"@, "ArrowDown"@, "Navigate Down"@, false),
        ("open_settings"@, "CommandOrControl+Comma"@, "Open Settings"@, false),
    ]
}

pub open spec fn action_matches(a: ShortcutAction, t: (Seq<char>, Seq<char>, Seq<char>, bool)) -> bool {
    a.action@ == t.0 && a.default_binding@ == t.1 && a.label@ == t.2 && a.is_global == t.3
}

fn make_action(action: &str, default_binding: &str, label: &str, is_global: bool) -> (a: ShortcutAction)
    ensures
        a.action@ == action@,
        a.default_binding@ == default_binding@,
        a.label@ == label@,
        a.is_global == is_global,
{
    ShortcutAction {
        action: action.to_string(),
        default_binding: default_binding.to_string(),
        label: label.to_string(),
        is_global,
    }
}

/// The table of bindable actions.
pub fn shortcut_actions() -> (v: Vec<ShortcutAction>)
    ensures
        v.len() == shortcut_table().len(),
        forall|i: int| 0 <= i < v.len() ==> action_matches(#[trigger] v[i], shortcut_table()[i]),
{
    let mut v = Vec::new();
    v.push(make_action("global_toggle_search", "CommandOrControl+Shift+P", "Toggle Search Window", true));
    v.push(make_action("focus_search", "CommandOrControl+F", "Focus Search", false));
    v.push(make_action("new_prompt", "CommandOrControl+N", "New Prompt", false));
    v.push(make_action("toggle_favorite", "CommandOrControl+D", "Toggle Favorite", false));
    v.push(make_action("toggle_edit", "CommandOrControl+E", "Toggle Edit Mode", false));
    v.push(make_action("open_import", "CommandOrControl+I", "Open Import", false));
    v.push(make_action("copy_selected", "Enter", "Copy Selected Prompt", false));
    v.push(make_action("deselect", "Escape", "Deselect", false));
    v.push(make_action("navigate_up", "ArrowUp", "Navigate Up", false));
    v.push(make_action("navigate_down", "ArrowDown", "Navigate Down", false));
    v.push(make_action("open_settings", "CommandOrControl+Comma", "Open Settings", false));
    v
}

/// A string-to-string association list, viewed as pairs of character sequences.
pub open spec fn pairs_view(v: Seq<(String, String)>) -> Seq<(Seq<char>, Seq<char>)> {
    v.map_values(|p: (String, String)| (p.0@, p.1@))
}

/// The default binding of every action, in table order.
pub open spec fn default_bindings() -> Seq<(Seq<char>, Seq<char>)> {
    shortcut_table().map_values(|t: (Seq<char>, Seq<char>, Seq<char>, bool)| (t.0, t.1))
}

/// Each action mapped to its default binding.
pub fn default_shortcuts_map() -> (m: Vec<(String, String)>)
    ensures
        pairs_view(m@) == default_bindings(),
{
    let actions = shortcut_actions();
    let mut m: Vec<(String, String)> = Vec::new();
    for i in 0..actions.len()
        invariant
            actions.len() == shortcut_table().len(),
            forall|j: int| 0 <= j < actions.len() ==> action_matches(#[trigger] actions[j], shortcut_table()[j]),
            m.len() == i,
            pairs_view(m@) == default_bindings().take(i as int),
    {
        proof { assert(action_matches(actions[i as int], shortcut_table()[i as int])); }
        let ghost prev = m@;
        m.push((actions[i].action.clone(), actions[i].default_binding.clone()));
        proof {
            assert(m@ == prev.push(m@[i as int]));
            assert(pairs_view(m@)[i as int] == default_bindings()[i as int]);
            assert(pairs_view(m@) =~= default_bindings().take(i + 1));
        }
    }
    proof { assert(default_bindings().take(actions.len() as int) =~= default_bindings()); }
    m
}

}
