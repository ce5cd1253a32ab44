use speedy_reader::{handle_key_event, AppAction, InputMode, KeyInput, KeyPress};

fn plain(key: KeyInput) -> KeyPress {
    KeyPress { key, ctrl: false, shift: false }
}

fn ch(c: char) -> KeyPress {
    plain(KeyInput::Char(c))
}

#[test]
fn help_overlay_eats_any_key_first() {
    let got = handle_key_event(ch('q'), InputMode::Normal, true);
    assert!(matches!(got, Some(AppAction::HideHelp)));
    let got = handle_key_event(plain(KeyInput::Esc), InputMode::TagInput, true);
    assert!(matches!(got, Some(AppAction::HideHelp)));
}

#[test]
fn normal_mode_shortcut_table() {
    assert!(matches!(handle_key_event(ch('q'), InputMode::Normal, false), Some(AppAction::Quit)));
    assert!(matches!(
        handle_key_event(KeyPress { key: KeyInput::Char('c'), ctrl: true, shift: false }, InputMode::Normal, false),
        Some(AppAction::Quit)
    ));
    assert!(matches!(handle_key_event(ch('j'), InputMode::Normal, false), Some(AppAction::MoveDown)));
    assert!(matches!(handle_key_event(ch('k'), InputMode::Normal, false), Some(AppAction::MoveUp)));
    assert!(matches!(
        handle_key_event(plain(KeyInput::Down), InputMode::Normal, false),
        Some(AppAction::MoveDown)
    ));
    assert!(matches!(
        handle_key_event(plain(KeyInput::Enter), InputMode::Normal, false),
        Some(AppAction::SelectArticle)
    ));
    assert!(matches!(handle_key_event(ch('r'), InputMode::Normal, false), Some(AppAction::RefreshFeeds)));
    assert!(matches!(handle_key_event(ch('b'), InputMode::Normal, false), Some(AppAction::SaveToRaindrop)));
    assert!(matches!(handle_key_event(ch('g'), InputMode::Normal, false), Some(AppAction::RegenerateSummary)));
    assert!(matches!(handle_key_event(ch('d'), InputMode::Normal, false), Some(AppAction::DeleteArticle)));
    assert!(matches!(handle_key_event(ch('?'), InputMode::Normal, false), Some(AppAction::ShowHelp)));
    assert!(handle_key_event(ch('z'), InputMode::Normal, false).is_none());
    assert!(handle_key_event(plain(KeyInput::Esc), InputMode::Normal, false).is_none());
}

#[test]
fn input_modes_own_the_keyboard() {
    assert!(matches!(
        handle_key_event(ch('q'), InputMode::TagInput, false),
        Some(AppAction::TagInputChar('q'))
    ));
    assert!(matches!(
        handle_key_event(plain(KeyInput::Enter), InputMode::TagInput, false),
        Some(AppAction::TagInputConfirm)
    ));
    assert!(matches!(
        handle_key_event(plain(KeyInput::Esc), InputMode::FeedInput, false),
        Some(AppAction::FeedInputCancel)
    ));
    assert!(matches!(
        handle_key_event(plain(KeyInput::Backspace), InputMode::OpmlImportInput, false),
        Some(AppAction::OpmlInputBackspace)
    ));
    assert!(matches!(
        handle_key_event(plain(KeyInput::Enter), InputMode::OpmlExportInput, false),
        Some(AppAction::OpmlExportConfirm)
    ));
    assert!(handle_key_event(plain(KeyInput::Up), InputMode::TagInput, false).is_none());
}
