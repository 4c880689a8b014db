//! The service's settings: the questionnaire text, the admin secret, and the
//! switch that says whether the answers are shown to everybody.

use vstd::prelude::*;

verus! {

/// The settings as mathematical values.
pub struct ConfigView {
    pub questionnaire: Seq<char>,
    pub admin_secret: Seq<char>,
    pub show_answers: bool,
}

impl ConfigView {
    /// The settings at startup: the answers are hidden.
    pub open spec fn fresh(questionnaire: Seq<char>, admin_secret: Seq<char>) -> ConfigView {
        ConfigView { questionnaire, admin_secret, show_answers: false }
    }

    /// The settings after somebody presenting `secret` asked for the switch
    /// to be `show`: only the admin secret moves it, anything else changes
    /// nothing.
    pub open spec fn set_show_answers(self, secret: Seq<char>, show: bool) -> ConfigView {
        if secret == self.admin_secret {
            ConfigView { show_answers: show, ..self }
        } else {
            self
        }
    }
}

/// At startup the answers are hidden.
pub proof fn lemma_fresh_hides_answers(questionnaire: Seq<char>, admin_secret: Seq<char>)
    ensures
        !ConfigView::fresh(questionnaire, admin_secret).show_answers,
{
}

/// A request that presents anything but the admin secret changes nothing.
pub proof fn lemma_wrong_secret_is_ignored(config: ConfigView, secret: Seq<char>, show: bool)
    requires
        secret != config.admin_secret,
    ensures
        config.set_show_answers(secret, show) == config,
{
}

/// A request that presents the admin secret sets the switch, and nothing
/// else.
pub proof fn lemma_admin_secret_sets_switch(config: ConfigView, show: bool)
    ensures
        config.set_show_answers(config.admin_secret, show) == (ConfigView {
            show_answers: show,
            ..config
        }),
{
}

/// The settings of a running service.
#[derive(Debug)]
pub struct Config {
    questionnaire: String,
    admin_secret: String,
    show_answers: bool,
}

impl View for Config {
    type V = ConfigView;

    closed spec fn view(&self) -> ConfigView {
        ConfigView {
            questionnaire: self.questionnaire@,
            admin_secret: self.admin_secret@,
            show_answers: self.show_answers,
        }
    }
}

impl Config {
    /// Settings with the given questionnaire and admin secret, the answers
    /// hidden.
    pub fn new(questionnaire: String, admin_secret: String) -> (config: Config)
        ensures
            config@ == ConfigView::fresh(questionnaire@, admin_secret@),
    {
        Config { questionnaire, admin_secret, show_answers: false }
    }

    /// The questionnaire text.
    pub fn get_questionnaire(&self) -> (text: String)
        ensures
            text@ == self@.questionnaire,
    {
        self.questionnaire.clone()
    }

    /// Whether the answers are shown.
    pub fn get_show_answers(&self) -> (show: bool)
        ensures
            show == self@.show_answers,
    {
        self.show_answers
    }

    /// Sets the switch to `show` if `secret` is the admin secret, and does
    /// nothing otherwise; the caller is not told which.
    pub fn set_show_answers(&mut self, secret: String, show: bool)
        ensures
            final(self)@ == old(self)@.set_show_answers(secret@, show),
    {
        if self.admin_secret == secret {
            self.show_answers = show;
        }
    }
}

/// The text that stands for the switch on the wire.
pub open spec fn show_text(show: bool) -> Seq<char> {
    if show {
        "true"@
    } else {
        "false"@
    }
}

/// The switch as text.
pub fn show_to_text(show: bool) -> (text: String)
    ensures
        text@ == show_text(show),
{
    if show {
        "true".to_string()
    } else {
        "false".to_string()
    }
}

/// The switch that a request's text asks for: on for `true`, off for
/// anything else.
pub fn show_from_text(text: &String) -> (show: bool)
    ensures
        show == (text@ == "true"@),
{
    *text == "true".to_string()
}

/// Where the questionnaire text comes from.
#[derive(Debug, PartialEq, Eq)]
pub enum QuestionnaireSource {
    /// The text itself was configured.
    Inline(String),
    /// The text is to be read from the file at this path.
    File(String),
}

/// Picks the source of the questionnaire from what was configured: text
/// given inline wins over a path, and with neither there is no source.
pub fn questionnaire_source(inline: Option<String>, path: Option<String>) -> (source: Option<
    QuestionnaireSource,
>)
    ensures
        source == match (inline, path) {
            (Some(text), _) => Some(QuestionnaireSource::Inline(text)),
            (None, Some(file)) => Some(QuestionnaireSource::File(file)),
            (None, None) => None,
        },
{
    match inline {
        Some(text) => Some(QuestionnaireSource::Inline(text)),
        None => match path {
            Some(file) => Some(QuestionnaireSource::File(file)),
            None => None,
        },
    }
}

} // verus!
