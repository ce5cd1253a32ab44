//! Key handling: a pure map from (modal state, key press) to the closed set
//! of actions that drive the session. The help overlay takes priority: while
//! it shows, any key closes it. Each input mode then owns the keyboard until
//! it is confirmed or cancelled; only normal mode reaches the shortcut table.

use vstd::prelude::*;

use crate::session::InputMode;

verus! {

/// The closed set of discrete actions the session takes.
#[derive(Clone, Debug)]
pub enum AppAction {
    Quit,
    MoveUp,
    MoveDown,
    MoveToTop,
    MoveToBottom,
    SelectArticle,
    RefreshFeeds,
    ToggleRead,
    OpenInBrowser,
    EmailArticle,
    SaveToRaindrop,
    CycleFilter,
    RegenerateSummary,
    DeleteArticle,
    DeleteFeed,
    UndeleteArticle,
    ToggleStarred,
    AddFeed,
    ShowHelp,
    HideHelp,
    TagInputChar(char),
    TagInputBackspace,
    TagInputConfirm,
    TagInputCancel,
    FeedInputChar(char),
    FeedInputBackspace,
    FeedInputConfirm,
    FeedInputCancel,
    ImportOpmlStart,
    OpmlInputChar(char),
    OpmlInputBackspace,
    OpmlInputConfirm,
    OpmlInputCancel,
    ExportOpmlStart,
    OpmlExportChar(char),
    OpmlExportBackspace,
    OpmlExportConfirm,
    OpmlExportCancel,
}

/// A key press, reduced to what the session distinguishes.
#[derive(Clone, Copy, Debug, PartialEq, Eq, Structural)]
pub enum KeyInput {
    Enter,
    Esc,
    Backspace,
    Up,
    Down,
    Char(char),
    /// Any key the session does not distinguish.
    Other,
}

/// A key press with the modifiers the shortcut table reads.
#[derive(Clone, Copy, Debug, PartialEq, Eq, Structural)]
pub struct KeyPress {
    pub key: KeyInput,
    pub ctrl: bool,
    pub shift: bool,
}

/// The action a key press maps to while an input mode owns the keyboard.
pub open spec fn spec_mode_action(
    key: KeyInput,
    confirm: AppAction,
    cancel: AppAction,
    backspace: AppAction,
    ch: spec_fn(char) -> AppAction,
) -> Option<AppAction> {
    match key {
        KeyInput::Enter => Some(confirm),
        KeyInput::Esc => Some(cancel),
        KeyInput::Backspace => Some(backspace),
        KeyInput::Char(c) => Some(ch(c)),
        _ => None,
    }
}

/// The full key map: help first, then the owning input mode, then the
/// normal-mode shortcut table.
pub open spec fn spec_key_action(key: KeyPress, mode: InputMode, show_help: bool) -> Option<
    AppAction,
> {
    if show_help {
        Some(AppAction::HideHelp)
    } else {
        match mode {
            InputMode::TagInput => spec_mode_action(
                key.key,
                AppAction::TagInputConfirm,
                AppAction::TagInputCancel,
                AppAction::TagInputBackspace,
                |c: char| AppAction::TagInputChar(c),
            ),
            InputMode::FeedInput => spec_mode_action(
                key.key,
                AppAction::FeedInputConfirm,
                AppAction::FeedInputCancel,
                AppAction::FeedInputBackspace,
                |c: char| AppAction::FeedInputChar(c),
            ),
            InputMode::OpmlImportInput => spec_mode_action(
                key.key,
                AppAction::OpmlInputConfirm,
                AppAction::OpmlInputCancel,
                AppAction::OpmlInputBackspace,
                |c: char| AppAction::OpmlInputChar(c),
            ),
            InputMode::OpmlExportInput => spec_mode_action(
                key.key,
                AppAction::OpmlExportConfirm,
                AppAction::OpmlExportCancel,
                AppAction::OpmlExportBackspace,
                |c: char| AppAction::OpmlExportChar(c),
            ),
            InputMode::Normal => spec_normal_action(key),
        }
    }
}

/// The normal-mode shortcut table.
pub open spec fn spec_normal_action(key: KeyPress) -> Option<AppAction> {
    match key.key {
        KeyInput::Enter => Some(AppAction::SelectArticle),
        KeyInput::Up => Some(AppAction::MoveUp),
        KeyInput::Down => Some(AppAction::MoveDown),
        KeyInput::Char(c) => {
            if c == 'c' && key.ctrl {
                Some(AppAction::Quit)
            } else if c == 'q' {
                Some(AppAction::Quit)
            } else if c == 'j' {
                Some(AppAction::MoveDown)
            } else if c == 'k' {
                Some(AppAction::MoveUp)
            } else if c == '<' {
                Some(AppAction::MoveToTop)
            } else if c == '>' {
                Some(AppAction::MoveToBottom)
            } else if c == 'r' {
                Some(AppAction::RefreshFeeds)
            } else if c == 'm' {
                Some(AppAction::ToggleRead)
            } else if c == 's' {
                Some(AppAction::ToggleStarred)
            } else if c == 'o' {
                Some(AppAction::OpenInBrowser)
            } else if c == 'e' {
                Some(AppAction::EmailArticle)
            } else if c == 'b' {
                Some(AppAction::SaveToRaindrop)
            } else if c == 'f' {
                Some(AppAction::CycleFilter)
            } else if c == 'g' {
                Some(AppAction::RegenerateSummary)
            } else if c == 'd' && !key.ctrl && !key.shift {
                Some(AppAction::DeleteArticle)
            } else if c == 'D' && key.shift {
                Some(AppAction::DeleteFeed)
            } else if c == 'u' {
                Some(AppAction::UndeleteArticle)
            } else if c == 'a' {
                Some(AppAction::AddFeed)
            } else if c == 'i' {
                Some(AppAction::ImportOpmlStart)
            } else if c == 'w' {
                Some(AppAction::ExportOpmlStart)
            } else if c == '?' {
                Some(AppAction::ShowHelp)
            } else {
                None
            }
        },
        _ => None,
    }
}

/// Map a key press to an action, honoring the help overlay's priority and
/// the owning input mode, exactly as the key map states.
pub fn handle_key_event(key: KeyPress, mode: InputMode, show_help: bool) -> (r: Option<AppAction>)
    ensures
        r == spec_key_action(key, mode, show_help),
{
    if show_help {
        return Some(AppAction::HideHelp);
    }
    match mode {
        InputMode::TagInput => match key.key {
            KeyInput::Enter => Some(AppAction::TagInputConfirm),
            KeyInput::Esc => Some(AppAction::TagInputCancel),
            KeyInput::Backspace => Some(AppAction::TagInputBackspace),
            KeyInput::Char(c) => Some(AppAction::TagInputChar(c)),
            _ => None,
        },
        InputMode::FeedInput => match key.key {
            KeyInput::Enter => Some(AppAction::FeedInputConfirm),
            KeyInput::Esc => Some(AppAction::FeedInputCancel),
            KeyInput::Backspace => Some(AppAction::FeedInputBackspace),
            KeyInput::Char(c) => Some(AppAction::FeedInputChar(c)),
            _ => None,
        },
        InputMode::OpmlImportInput => match key.key {
            KeyInput::Enter => Some(AppAction::OpmlInputConfirm),
            KeyInput::Esc => Some(AppAction::OpmlInputCancel),
            KeyInput::Backspace => Some(AppAction::OpmlInputBackspace),
            KeyInput::Char(c) => Some(AppAction::OpmlInputChar(c)),
            _ => None,
        },
        InputMode::OpmlExportInput => match key.key {
            KeyInput::Enter => Some(AppAction::OpmlExportConfirm),
            KeyInput::Esc => Some(AppAction::OpmlExportCancel),
            KeyInput::Backspace => Some(AppAction::OpmlExportBackspace),
            KeyInput::Char(c) => Some(AppAction::OpmlExportChar(c)),
            _ => None,
        },
        InputMode::Normal => {
            match key.key {
                KeyInput::Enter => Some(AppAction::SelectArticle),
                KeyInput::Up => Some(AppAction::MoveUp),
                KeyInput::Down => Some(AppAction::MoveDown),
                KeyInput::Char(c) => {
                    if c == 'c' && key.ctrl {
                        Some(AppAction::Quit)
                    } else if c == 'q' {
                        Some(AppAction::Quit)
                    } else if c == 'j' {
                        Some(AppAction::MoveDown)
                    } else if c == 'k' {
                        Some(AppAction::MoveUp)
                    } else if c == '<' {
                        Some(AppAction::MoveToTop)
                    } else if c == '>' {
                        Some(AppAction::MoveToBottom)
                    } else if c == 'r' {
                        Some(AppAction::RefreshFeeds)
                    } else if c == 'm' {
                        Some(AppAction::ToggleRead)
                    } else if c == 's' {
                        Some(AppAction::ToggleStarred)
                    } else if c == 'o' {
                        Some(AppAction::OpenInBrowser)
                    } else if c == 'e' {
                        Some(AppAction::EmailArticle)
                    } else if c == 'b' {
                        Some(AppAction::SaveToRaindrop)
                    } else if c == 'f' {
                        Some(AppAction::CycleFilter)
                    } else if c == 'g' {
                        Some(AppAction::RegenerateSummary)
                    } else if c == 'd' && !key.ctrl && !key.shift {
                        Some(AppAction::DeleteArticle)
                    } else if c == 'D' && key.shift {
                        Some(AppAction::DeleteFeed)
                    } else if c == 'u' {
                        Some(AppAction::UndeleteArticle)
                    } else if c == 'a' {
                        Some(AppAction::AddFeed)
                    } else if c == 'i' {
                        Some(AppAction::ImportOpmlStart)
                    } else if c == 'w' {
                        Some(AppAction::ExportOpmlStart)
                    } else if c == '?' {
                        Some(AppAction::ShowHelp)
                    } else {
                        None
                    }
                },
                _ => None,
            }
        },
    }
}

} // verus!
