use vstd::prelude::*;

use crate::replay::Match;

verus! {

/// Pages of the surrounding interface whose state the library models.
#[derive(Clone, Copy, PartialEq, Eq, Structural)]
pub enum Page {
    Home,
    AllWins,
}

/// Kind of identity being entered: a connect code or a nickname.
#[derive(Clone, Copy, PartialEq, Eq, Structural)]
pub enum IdType {
    Code,
    Nickname,
}

/// State of an analysis session as driven by the surrounding interface:
/// the page shown, the identity being entered, the loaded corpus, and the
/// last computed total.
pub struct TemplateApp {
    pub page: Page,
    pub id_type: IdType,
    pub identity_input: String,
    pub games: Vec<Match>,
    pub slippi_path: Option<String>,
    pub show_win_popup: bool,
    pub total_wins: Option<usize>,
}

impl Default for TemplateApp {
    /// A fresh session: home page, nickname entry, empty input, no corpus,
    /// no popup, no total yet.
    fn default() -> (app: Self)
        ensures
            app.page == Page::Home,
            app.id_type == IdType::Nickname,
            app.identity_input@.len() == 0,
            app.games@.len() == 0,
            app.slippi_path is None,
            app.show_win_popup == false,
            app.total_wins is None,
    {
        TemplateApp {
            page: Page::Home,
            id_type: IdType::Nickname,
            identity_input: String::new(),
            games: Vec::new(),
            slippi_path: None,
            show_win_popup: false,
            total_wins: None,
        }
    }
}

} // verus!
