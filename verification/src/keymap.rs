use vstd::prelude::*;
use crate::app::{ActiveTab, InputMode};
use crate::export::ExportPlatformChoice;

verus! {

/// A key press, as far as the interface tells keys apart.
#[derive(PartialEq, Eq, Structural, Clone, Copy, Debug)]
pub enum KeyInput {
    Char(char),
    Enter,
    Esc,
    Backspace,
    Tab,
    Up,
    Down,
    Left,
    Other,
}

/// What a key press asks of the application: the method of [`crate::app::App`] of the same
/// name (with the outside work it needs), quitting, or nothing.
#[derive(PartialEq, Eq, Structural, Clone, Copy, Debug)]
pub enum Command {
    Nothing,
    Quit,
    SwitchTab(ActiveTab),
    ConfigNext,
    ConfigPrevious,
    KhNext,
    KhPrevious,
    CopyPublicKey,
    StartCreation,
    StartFileBrowser,
    StartExport,
    StartSearch,
    StartAddConfig,
    StartEditConfig,
    DeleteConfigEntry,
    DeleteKnownHost,
    ConfirmCreation,
    HandleInput(char),
    HandleBackspace,
    CancelCreation,
    SwitchField,
    FbNext,
    FbPrevious,
    FbSelect,
    FbParent,
    CancelImport,
    ImportAction(char),
    SubmitPassword,
    PasswordInput(char),
    PasswordBackspace,
    ConfirmConfigEdit,
    ConfigEditInput(char),
    ConfigEditBackspace,
    ConfigEditNextField,
    CancelConfigEdit,
    SelectExportPlatform(ExportPlatformChoice),
    CancelExport,
    SubmitExport,
    ExportTokenInput(char),
    ExportTokenBackspace,
    SearchInput(char),
    SearchBackspace,
    CancelSearch,
    ConfirmSearch,
    NextVisible,
    PreviousVisible,
}

/// The keys of the list views: move with the arrows or `j`/`k` (through the listed keys when a
/// search filter is kept), switch tabs with `1`-`3`,
/// quit with `q` or `Esc`; `n`, `i`, `c`, `e` and `/` act on the keys tab, `a`, `e` and `d`
/// on the configuration tab, `d` on the known-hosts tab.
pub open spec fn normal_binding(tab: ActiveTab, key: KeyInput) -> Command {
    match key {
        KeyInput::Esc => Command::Quit,
        KeyInput::Down => down_in(tab),
        KeyInput::Up => up_in(tab),
        KeyInput::Char(c) => if c == 'q' {
            Command::Quit
        } else if c == '1' {
            Command::SwitchTab(ActiveTab::Keys)
        } else if c == '2' {
            Command::SwitchTab(ActiveTab::SshConfig)
        } else if c == '3' {
            Command::SwitchTab(ActiveTab::KnownHosts)
        } else if c == 'j' {
            down_in(tab)
        } else if c == 'k' {
            up_in(tab)
        } else {
            match tab {
                ActiveTab::Keys => if c == 'c' {
                    Command::CopyPublicKey
                } else if c == 'n' {
                    Command::StartCreation
                } else if c == 'i' {
                    Command::StartFileBrowser
                } else if c == 'e' {
                    Command::StartExport
                } else if c == '/' {
                    Command::StartSearch
                } else {
                    Command::Nothing
                },
                ActiveTab::SshConfig => if c == 'a' {
                    Command::StartAddConfig
                } else if c == 'e' {
                    Command::StartEditConfig
                } else if c == 'd' {
                    Command::DeleteConfigEntry
                } else {
                    Command::Nothing
                },
                ActiveTab::KnownHosts => if c == 'd' {
                    Command::DeleteKnownHost
                } else {
                    Command::Nothing
                },
            }
        },
        _ => Command::Nothing,
    }
}

pub open spec fn down_in(tab: ActiveTab) -> Command {
    match tab {
        ActiveTab::Keys => Command::NextVisible,
        ActiveTab::SshConfig => Command::ConfigNext,
        ActiveTab::KnownHosts => Command::KhNext,
    }
}

pub open spec fn up_in(tab: ActiveTab) -> Command {
    match tab {
        ActiveTab::Keys => Command::PreviousVisible,
        ActiveTab::SshConfig => Command::ConfigPrevious,
        ActiveTab::KnownHosts => Command::KhPrevious,
    }
}

/// What a key press does in each mode.
pub open spec fn binding(mode: InputMode, tab: ActiveTab, key: KeyInput) -> Command {
    match mode {
        InputMode::Normal => normal_binding(tab, key),
        InputMode::Editing => match key {
            KeyInput::Enter => Command::ConfirmCreation,
            KeyInput::Char(c) => Command::HandleInput(c),
            KeyInput::Backspace => Command::HandleBackspace,
            KeyInput::Esc => Command::CancelCreation,
            KeyInput::Tab => Command::SwitchField,
            _ => Command::Nothing,
        },
        InputMode::FileBrowser => match key {
            KeyInput::Down => Command::FbNext,
            KeyInput::Up => Command::FbPrevious,
            KeyInput::Enter => Command::FbSelect,
            KeyInput::Left => Command::FbParent,
            KeyInput::Backspace => Command::FbParent,
            KeyInput::Esc => Command::CancelImport,
            KeyInput::Char(c) => if c == 'j' {
                Command::FbNext
            } else if c == 'k' {
                Command::FbPrevious
            } else if c == 'q' {
                Command::CancelImport
            } else {
                Command::Nothing
            },
            _ => Command::Nothing,
        },
        InputMode::ImportAction => match key {
            KeyInput::Esc => Command::CancelImport,
            KeyInput::Char(c) => if c == 'm' || c == 'c' {
                Command::ImportAction(c)
            } else if c == 'q' {
                Command::CancelImport
            } else {
                Command::Nothing
            },
            _ => Command::Nothing,
        },
        InputMode::PasswordPrompt => match key {
            KeyInput::Enter => Command::SubmitPassword,
            KeyInput::Char(c) => Command::PasswordInput(c),
            KeyInput::Backspace => Command::PasswordBackspace,
            KeyInput::Esc => Command::CancelImport,
            _ => Command::Nothing,
        },
        InputMode::ConfigEditing => match key {
            KeyInput::Enter => Command::ConfirmConfigEdit,
            KeyInput::Char(c) => Command::ConfigEditInput(c),
            KeyInput::Backspace => Command::ConfigEditBackspace,
            KeyInput::Tab => Command::ConfigEditNextField,
            KeyInput::Esc => Command::CancelConfigEdit,
            _ => Command::Nothing,
        },
        InputMode::ExportPlatform => match key {
            KeyInput::Esc => Command::CancelExport,
            KeyInput::Char(c) => if c == 'g' || c == '1' {
                Command::SelectExportPlatform(ExportPlatformChoice::GitHub)
            } else if c == 'l' || c == '2' {
                Command::SelectExportPlatform(ExportPlatformChoice::GitLab)
            } else if c == 'q' {
                Command::CancelExport
            } else {
                Command::Nothing
            },
            _ => Command::Nothing,
        },
        InputMode::ExportToken => match key {
            KeyInput::Enter => Command::SubmitExport,
            KeyInput::Char(c) => Command::ExportTokenInput(c),
            KeyInput::Backspace => Command::ExportTokenBackspace,
            KeyInput::Esc => Command::CancelExport,
            _ => Command::Nothing,
        },
        InputMode::Searching => match key {
            KeyInput::Enter => Command::ConfirmSearch,
            KeyInput::Char(c) => Command::SearchInput(c),
            KeyInput::Backspace => Command::SearchBackspace,
            KeyInput::Esc => Command::CancelSearch,
            KeyInput::Down => Command::NextVisible,
            KeyInput::Up => Command::PreviousVisible,
            _ => Command::Nothing,
        },
    }
}

/// The documented keys of the list views: `q` and `Esc` quit and `1`-`3` switch tabs on every
/// tab; the arrows and `j`/`k` move in the list shown; `n`, `i`, `c`, `e` and `/` create,
/// import, copy, export and search on the keys tab; `a`, `e` and `d` add, edit and delete on
/// the configuration tab; `d` deletes on the known-hosts tab.
pub proof fn law_list_view_keys(tab: ActiveTab)
    ensures
        binding(InputMode::Normal, tab, KeyInput::Char('q')) == Command::Quit,
        binding(InputMode::Normal, tab, KeyInput::Esc) == Command::Quit,
        binding(InputMode::Normal, tab, KeyInput::Char('1')) == Command::SwitchTab(ActiveTab::Keys),
        binding(InputMode::Normal, tab, KeyInput::Char('2')) == Command::SwitchTab(ActiveTab::SshConfig),
        binding(InputMode::Normal, tab, KeyInput::Char('3')) == Command::SwitchTab(ActiveTab::KnownHosts),
        binding(InputMode::Normal, tab, KeyInput::Down) == binding(InputMode::Normal, tab, KeyInput::Char('j')),
        binding(InputMode::Normal, tab, KeyInput::Up) == binding(InputMode::Normal, tab, KeyInput::Char('k')),
        binding(InputMode::Normal, ActiveTab::Keys, KeyInput::Down) == Command::NextVisible,
        binding(InputMode::Normal, ActiveTab::Keys, KeyInput::Up) == Command::PreviousVisible,
        binding(InputMode::Normal, ActiveTab::SshConfig, KeyInput::Down) == Command::ConfigNext,
        binding(InputMode::Normal, ActiveTab::SshConfig, KeyInput::Up) == Command::ConfigPrevious,
        binding(InputMode::Normal, ActiveTab::KnownHosts, KeyInput::Down) == Command::KhNext,
        binding(InputMode::Normal, ActiveTab::KnownHosts, KeyInput::Up) == Command::KhPrevious,
        binding(InputMode::Normal, ActiveTab::Keys, KeyInput::Char('n')) == Command::StartCreation,
        binding(InputMode::Normal, ActiveTab::Keys, KeyInput::Char('i')) == Command::StartFileBrowser,
        binding(InputMode::Normal, ActiveTab::Keys, KeyInput::Char('c')) == Command::CopyPublicKey,
        binding(InputMode::Normal, ActiveTab::Keys, KeyInput::Char('e')) == Command::StartExport,
        binding(InputMode::Normal, ActiveTab::Keys, KeyInput::Char('/')) == Command::StartSearch,
        binding(InputMode::Normal, ActiveTab::SshConfig, KeyInput::Char('a')) == Command::StartAddConfig,
        binding(InputMode::Normal, ActiveTab::SshConfig, KeyInput::Char('e')) == Command::StartEditConfig,
        binding(InputMode::Normal, ActiveTab::SshConfig, KeyInput::Char('d')) == Command::DeleteConfigEntry,
        binding(InputMode::Normal, ActiveTab::KnownHosts, KeyInput::Char('d')) == Command::DeleteKnownHost,
{
}

/// In the forms every character typed goes into the text being edited, `Backspace` deletes,
/// `Enter` submits and `Esc` cancels; `Tab` moves between the fields of a form.
pub proof fn law_form_keys(tab: ActiveTab, c: char)
    ensures
        binding(InputMode::Editing, tab, KeyInput::Char(c)) == Command::HandleInput(c),
        binding(InputMode::Editing, tab, KeyInput::Backspace) == Command::HandleBackspace,
        binding(InputMode::Editing, tab, KeyInput::Enter) == Command::ConfirmCreation,
        binding(InputMode::Editing, tab, KeyInput::Esc) == Command::CancelCreation,
        binding(InputMode::Editing, tab, KeyInput::Tab) == Command::SwitchField,
        binding(InputMode::PasswordPrompt, tab, KeyInput::Char(c)) == Command::PasswordInput(c),
        binding(InputMode::PasswordPrompt, tab, KeyInput::Backspace) == Command::PasswordBackspace,
        binding(InputMode::PasswordPrompt, tab, KeyInput::Enter) == Command::SubmitPassword,
        binding(InputMode::PasswordPrompt, tab, KeyInput::Esc) == Command::CancelImport,
        binding(InputMode::ConfigEditing, tab, KeyInput::Char(c)) == Command::ConfigEditInput(c),
        binding(InputMode::ConfigEditing, tab, KeyInput::Backspace) == Command::ConfigEditBackspace,
        binding(InputMode::ConfigEditing, tab, KeyInput::Enter) == Command::ConfirmConfigEdit,
        binding(InputMode::ConfigEditing, tab, KeyInput::Esc) == Command::CancelConfigEdit,
        binding(InputMode::ConfigEditing, tab, KeyInput::Tab) == Command::ConfigEditNextField,
        binding(InputMode::ExportToken, tab, KeyInput::Char(c)) == Command::ExportTokenInput(c),
        binding(InputMode::ExportToken, tab, KeyInput::Enter) == Command::SubmitExport,
        binding(InputMode::ExportToken, tab, KeyInput::Esc) == Command::CancelExport,
        binding(InputMode::Searching, tab, KeyInput::Char(c)) == Command::SearchInput(c),
        binding(InputMode::Searching, tab, KeyInput::Enter) == Command::ConfirmSearch,
        binding(InputMode::Searching, tab, KeyInput::Esc) == Command::CancelSearch,
{
}

/// The file browser moves with the arrows or `j`/`k`, opens with `Enter`, goes up with `Left`
/// or `Backspace`, and closes with `Esc` or `q`; the import asks `m` to move or `c` to copy;
/// the export asks `g` or `1` for GitHub and `l` or `2` for GitLab.
pub proof fn law_dialog_keys(tab: ActiveTab)
    ensures
        binding(InputMode::FileBrowser, tab, KeyInput::Down) == Command::FbNext,
        binding(InputMode::FileBrowser, tab, KeyInput::Char('j')) == Command::FbNext,
        binding(InputMode::FileBrowser, tab, KeyInput::Up) == Command::FbPrevious,
        binding(InputMode::FileBrowser, tab, KeyInput::Char('k')) == Command::FbPrevious,
        binding(InputMode::FileBrowser, tab, KeyInput::Enter) == Command::FbSelect,
        binding(InputMode::FileBrowser, tab, KeyInput::Left) == Command::FbParent,
        binding(InputMode::FileBrowser, tab, KeyInput::Backspace) == Command::FbParent,
        binding(InputMode::FileBrowser, tab, KeyInput::Esc) == Command::CancelImport,
        binding(InputMode::FileBrowser, tab, KeyInput::Char('q')) == Command::CancelImport,
        binding(InputMode::ImportAction, tab, KeyInput::Char('m')) == Command::ImportAction('m'),
        binding(InputMode::ImportAction, tab, KeyInput::Char('c')) == Command::ImportAction('c'),
        binding(InputMode::ImportAction, tab, KeyInput::Esc) == Command::CancelImport,
        binding(InputMode::ExportPlatform, tab, KeyInput::Char('g')) == Command::SelectExportPlatform(ExportPlatformChoice::GitHub),
        binding(InputMode::ExportPlatform, tab, KeyInput::Char('1')) == Command::SelectExportPlatform(ExportPlatformChoice::GitHub),
        binding(InputMode::ExportPlatform, tab, KeyInput::Char('l')) == Command::SelectExportPlatform(ExportPlatformChoice::GitLab),
        binding(InputMode::ExportPlatform, tab, KeyInput::Char('2')) == Command::SelectExportPlatform(ExportPlatformChoice::GitLab),
        binding(InputMode::ExportPlatform, tab, KeyInput::Esc) == Command::CancelExport,
{
}

fn down_command(tab: ActiveTab) -> (r: Command)
    ensures
        r == down_in(tab),
{
    match tab {
        ActiveTab::Keys => Command::NextVisible,
        ActiveTab::SshConfig => Command::ConfigNext,
        ActiveTab::KnownHosts => Command::KhNext,
    }
}

fn up_command(tab: ActiveTab) -> (r: Command)
    ensures
        r == up_in(tab),
{
    match tab {
        ActiveTab::Keys => Command::PreviousVisible,
        ActiveTab::SshConfig => Command::ConfigPrevious,
        ActiveTab::KnownHosts => Command::KhPrevious,
    }
}

fn normal_command(tab: ActiveTab, key: KeyInput) -> (r: Command)
    ensures
        r == normal_binding(tab, key),
{
    match key {
        KeyInput::Esc => Command::Quit,
        KeyInput::Down => down_command(tab),
        KeyInput::Up => up_command(tab),
        KeyInput::Char(c) => {
            if c == 'q' {
                Command::Quit
            } else if c == '1' {
                Command::SwitchTab(ActiveTab::Keys)
            } else if c == '2' {
                Command::SwitchTab(ActiveTab::SshConfig)
            } else if c == '3' {
                Command::SwitchTab(ActiveTab::KnownHosts)
            } else if c == 'j' {
                down_command(tab)
            } else if c == 'k' {
                up_command(tab)
            } else {
                match tab {
                    ActiveTab::Keys => {
                        if c == 'c' {
                            Command::CopyPublicKey
                        } else if c == 'n' {
                            Command::StartCreation
                        } else if c == 'i' {
                            Command::StartFileBrowser
                        } else if c == 'e' {
                            Command::StartExport
                        } else if c == '/' {
                            Command::StartSearch
                        } else {
                            Command::Nothing
                        }
                    },
                    ActiveTab::SshConfig => {
                        if c == 'a' {
                            Command::StartAddConfig
                        } else if c == 'e' {
                            Command::StartEditConfig
                        } else if c == 'd' {
                            Command::DeleteConfigEntry
                        } else {
                            Command::Nothing
                        }
                    },
                    ActiveTab::KnownHosts => {
                        if c == 'd' {
                            Command::DeleteKnownHost
                        } else {
                            Command::Nothing
                        }
                    },
                }
            }
        },
        _ => Command::Nothing,
    }
}

/// What a key press does, given the mode and the tab shown (see [`binding`]).
pub fn key_command(mode: InputMode, tab: ActiveTab, key: KeyInput) -> (r: Command)
    ensures
        r == binding(mode, tab, key),
{
    match mode {
        InputMode::Normal => normal_command(tab, key),
        InputMode::Editing => match key {
            KeyInput::Enter => Command::ConfirmCreation,
            KeyInput::Char(c) => Command::HandleInput(c),
            KeyInput::Backspace => Command::HandleBackspace,
            KeyInput::Esc => Command::CancelCreation,
            KeyInput::Tab => Command::SwitchField,
            _ => Command::Nothing,
        },
        InputMode::FileBrowser => match key {
            KeyInput::Down => Command::FbNext,
            KeyInput::Up => Command::FbPrevious,
            KeyInput::Enter => Command::FbSelect,
            KeyInput::Left => Command::FbParent,
            KeyInput::Backspace => Command::FbParent,
            KeyInput::Esc => Command::CancelImport,
            KeyInput::Char(c) => {
                if c == 'j' {
                    Command::FbNext
                } else if c == 'k' {
                    Command::FbPrevious
                } else if c == 'q' {
                    Command::CancelImport
                } else {
                    Command::Nothing
                }
            },
            _ => Command::Nothing,
        },
        InputMode::ImportAction => match key {
            KeyInput::Esc => Command::CancelImport,
            KeyInput::Char(c) => {
                if c == 'm' || c == 'c' {
                    Command::ImportAction(c)
                } else if c == 'q' {
                    Command::CancelImport
                } else {
                    Command::Nothing
                }
            },
            _ => Command::Nothing,
        },
        InputMode::PasswordPrompt => match key {
            KeyInput::Enter => Command::SubmitPassword,
            KeyInput::Char(c) => Command::PasswordInput(c),
            KeyInput::Backspace => Command::PasswordBackspace,
            KeyInput::Esc => Command::CancelImport,
            _ => Command::Nothing,
        },
        InputMode::ConfigEditing => match key {
            KeyInput::Enter => Command::ConfirmConfigEdit,
            KeyInput::Char(c) => Command::ConfigEditInput(c),
            KeyInput::Backspace => Command::ConfigEditBackspace,
            KeyInput::Tab => Command::ConfigEditNextField,
            KeyInput::Esc => Command::CancelConfigEdit,
            _ => Command::Nothing,
        },
        InputMode::ExportPlatform => match key {
            KeyInput::Esc => Command::CancelExport,
            KeyInput::Char(c) => {
                if c == 'g' || c == '1' {
                    Command::SelectExportPlatform(ExportPlatformChoice::GitHub)
                } else if c == 'l' || c == '2' {
                    Command::SelectExportPlatform(ExportPlatformChoice::GitLab)
                } else if c == 'q' {
                    Command::CancelExport
                } else {
                    Command::Nothing
                }
            },
            _ => Command::Nothing,
        },
        InputMode::ExportToken => match key {
            KeyInput::Enter => Command::SubmitExport,
            KeyInput::Char(c) => Command::ExportTokenInput(c),
            KeyInput::Backspace => Command::ExportTokenBackspace,
            KeyInput::Esc => Command::CancelExport,
            _ => Command::Nothing,
        },
        InputMode::Searching => match key {
            KeyInput::Enter => Command::ConfirmSearch,
            KeyInput::Char(c) => Command::SearchInput(c),
            KeyInput::Backspace => Command::SearchBackspace,
            KeyInput::Esc => Command::CancelSearch,
            KeyInput::Down => Command::NextVisible,
            KeyInput::Up => Command::PreviousVisible,
            _ => Command::Nothing,
        },
    }
}

} // verus!
