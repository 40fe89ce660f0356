use vstd::prelude::*;

verus! {

/// The editor's settings.
#[derive(Debug, Clone, PartialEq, Eq)]
pub struct Config {
    pub tab_width: usize,
    pub skk_enabled: bool,
    pub skk_system_dictionary_path: Option<String>,
    pub skk_user_dictionary_path: Option<String>,
}

/// The tab width used when the settings give none.
pub fn default_tab_width() -> (n: usize)
    ensures
        n == 4,
{
    4
}

/// Whether kana input is on when the settings do not say.
pub fn default_skk_enabled() -> (b: bool)
    ensures
        !b,
{
    false
}

impl Default for Config {
    fn default() -> (c: Self)
        ensures
            c.tab_width == 4,
            !c.skk_enabled,
            c.skk_system_dictionary_path is None,
            c.skk_user_dictionary_path is None,
    {
        Self {
            tab_width: default_tab_width(),
            skk_enabled: default_skk_enabled(),
            skk_system_dictionary_path: None,
            skk_user_dictionary_path: None,
        }
    }
}

} // verus!
