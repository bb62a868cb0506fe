use mstodo::action::{Action, Field};
use mstodo::keybindings::{
    binding_at, commands, help_rows, hints, key_for, key_input, parse_key_string, resolve, Context, KeyCode,
    KeyEvent, KeyInput, KeyPress, Modifiers, BINDING_COUNT,
};

fn none() -> Modifiers {
    Modifiers { control: false, shift: false, alt: false }
}

fn key(code: KeyCode, modifiers: Modifiers) -> KeyEvent {
    KeyEvent { code, modifiers, release: false }
}

#[test]
fn every_binding_parses() {
    for i in 0..BINDING_COUNT {
        let binding = binding_at(i);
        assert!(parse_key_string(binding.key).is_ok(), "{}", binding.key);
    }
}

#[test]
fn no_key_does_two_things_in_one_context() {
    for i in 0..BINDING_COUNT {
        let binding = binding_at(i);
        for j in i + 1..BINDING_COUNT {
            let other = binding_at(j);
            let theirs = other.contexts.contexts();
            let shared = binding
                .contexts
                .contexts()
                .iter()
                .any(|c| theirs.contains(c));
            assert!(
                !(shared && binding.key == other.key && binding.action != other.action),
                "{} is bound twice",
                binding.key
            );
        }
    }
}

#[test]
fn keys_resolve_by_context() {
    let x = key(KeyCode::Char('x'), none());
    assert_eq!(resolve(Context::Tasks, &x), Some(Action::ToggleComplete));
    assert_eq!(resolve(Context::Sidebar, &x), None);
    assert_eq!(resolve(Context::Prompt, &x), None, "text in a prompt");
    // "G" with or without Shift reported.
    for shift in [false, true] {
        let modifiers = Modifiers { control: false, shift, alt: false };
        assert_eq!(
            resolve(Context::Tasks, &key(KeyCode::Char('G'), modifiers)),
            Some(Action::JumpBottom)
        );
    }
    let control = Modifiers { control: true, shift: false, alt: false };
    assert_eq!(
        resolve(Context::Tasks, &key(KeyCode::Char('c'), control)),
        Some(Action::Quit)
    );
    assert_eq!(
        resolve(Context::Sidebar, &key(KeyCode::Enter, none())),
        Some(Action::Open)
    );
    assert_eq!(
        resolve(Context::Sidebar, &key(KeyCode::Char(' '), none())),
        Some(Action::Open)
    );
    assert_eq!(
        resolve(Context::Folder, &key(KeyCode::Tab, none())),
        Some(Action::Complete)
    );
}

#[test]
fn a_release_does_nothing() {
    let released = KeyEvent { code: KeyCode::Char('x'), modifiers: none(), release: true };
    assert_eq!(resolve(Context::Tasks, &released), None);
}

#[test]
fn hints_and_help_come_from_the_table() {
    let hints = hints(Context::Tasks);
    assert!(hints.contains(&("x".into(), "Done")));
    assert!(!hints.iter().any(|(_, label)| *label == "Open"));
    let help = help_rows();
    assert!(help.contains(&("j/Down".into(), "Down")));
    assert!(help.contains(&("q/Ctrl-c".into(), "Quit")));
    assert!(help.contains(&("e".into(), "Edit")));
    assert!(help.contains(&("Enter".into(), "Edit this field")));
}

#[test]
fn the_palette_offers_actions_not_movement() {
    let commands = commands();
    assert!(commands.contains(&("x".into(), "Done", Action::ToggleComplete)));
    assert!(commands.contains(&("D".into(), "Diagnostics", Action::Diagnostics)));
    // Each field the picker edits, by its keys.
    assert!(commands.contains(&("e d".into(), "Edit due date", Action::EditField(Field::Due))));
    assert!(commands.contains(&("e I".into(), "Cycle importance", Action::CycleImportance)));
    assert!(!commands.iter().any(|(keys, _, _)| keys == "e Esc"));
    assert!(
        !commands
            .iter()
            .any(|(_, _, action)| matches!(action, Action::MoveDown | Action::Palette))
    );
}

#[test]
fn key_strings_parse_to_their_keys() {
    let press = |code, control, shift, alt| KeyPress {
        code,
        modifiers: Modifiers { control, shift, alt },
    };
    assert_eq!(parse_key_string("j"), Ok(press(KeyCode::Char('j'), false, false, false)));
    assert_eq!(parse_key_string("G"), Ok(press(KeyCode::Char('G'), false, true, false)));
    assert_eq!(parse_key_string("Ctrl-c"), Ok(press(KeyCode::Char('c'), true, false, false)));
    assert_eq!(parse_key_string("Alt-Enter"), Ok(press(KeyCode::Enter, false, false, true)));
    assert_eq!(parse_key_string("Escape"), Ok(press(KeyCode::Esc, false, false, false)));
    assert_eq!(parse_key_string("Space"), Ok(press(KeyCode::Char(' '), false, false, false)));
    assert_eq!(parse_key_string("Ctrl-"), Err("missing a key after Ctrl-".to_string()));
    assert_eq!(parse_key_string("jk"), Err("\"jk\" isn't one key".to_string()));
}

#[test]
fn the_first_key_for_an_action_is_found() {
    assert_eq!(key_for(Context::Tasks, Action::Edit), Some("e"));
    assert_eq!(key_for(Context::Sidebar, Action::MoveDown), Some("j"));
    assert_eq!(key_for(Context::Fields, Action::EditField(Field::Notes)), Some("n"));
    assert_eq!(key_for(Context::Help, Action::Add), None);
}

#[test]
fn a_prompt_takes_typed_characters_and_editing_keys() {
    let plain = |c: char| key(KeyCode::Char(c), none());
    assert_eq!(key_input(Context::Tasks, &plain('x')), KeyInput::Action(Action::ToggleComplete));
    assert_eq!(key_input(Context::Tasks, &plain('§')), KeyInput::Ignored);
    assert_eq!(key_input(Context::Prompt, &plain('x')), KeyInput::Char('x'));
    let ctrl_w = key(KeyCode::Char('w'), Modifiers { control: true, shift: false, alt: false });
    assert_eq!(key_input(Context::Prompt, &ctrl_w), KeyInput::Edit(ctrl_w));
    let left = key(KeyCode::Left, none());
    assert_eq!(key_input(Context::Prompt, &left), KeyInput::Edit(left));
    let released = KeyEvent { release: true, ..plain('x') };
    assert_eq!(key_input(Context::Tasks, &released), KeyInput::Ignored);
}
