//! Configuration: what the environment says, and what the database says over it.

use vstd::prelude::*;

use crate::database;
use crate::text;

verus! {

/// The settings that can be changed while the program runs. One that is not there is `None`.
#[derive(Debug, PartialEq)]
pub struct AppSettingsMap {
    pub bot_token: Option<String>,
    pub channel_name: Option<String>,
    pub pass_word: Option<String>,
    pub picgo_api_key: Option<String>,
    pub base_url: Option<String>,
    pub session_token: Option<String>,
}

pub struct AppSettingsView {
    pub bot_token: Option<Seq<char>>,
    pub channel_name: Option<Seq<char>>,
    pub pass_word: Option<Seq<char>>,
    pub picgo_api_key: Option<Seq<char>>,
    pub base_url: Option<Seq<char>>,
    pub session_token: Option<Seq<char>>,
}

impl View for AppSettingsMap {
    type V = AppSettingsView;

    open spec fn view(&self) -> AppSettingsView {
        AppSettingsView {
            bot_token: text::opt_view(self.bot_token),
            channel_name: text::opt_view(self.channel_name),
            pass_word: text::opt_view(self.pass_word),
            picgo_api_key: text::opt_view(self.picgo_api_key),
            base_url: text::opt_view(self.base_url),
            session_token: text::opt_view(self.session_token),
        }
    }
}

/// No setting at all.
pub open spec fn empty_settings() -> AppSettingsView {
    AppSettingsView {
        bot_token: None,
        channel_name: None,
        pass_word: None,
        picgo_api_key: None,
        base_url: None,
        session_token: None,
    }
}

/// A copy of an optional text.
pub fn copy_text(o: &Option<String>) -> (r: Option<String>)
    ensures
        text::opt_view(r) == text::opt_view(*o),
{
    match o {
        Some(s) => Some(s.clone()),
        None => None,
    }
}

/// An optional text, borrowed.
pub fn borrow_text<'a>(o: &'a Option<String>) -> (r: Option<&'a str>)
    ensures
        text::opt_str_view(r) == text::opt_view(*o),
{
    match o {
        Some(s) => Some(s.as_str()),
        None => None,
    }
}

/// An optional text, borrowed; the empty text where there is none.
pub fn borrow_or_empty<'a>(o: &'a Option<String>) -> (r: &'a str)
    ensures
        r@ == text::text_or_empty(text::opt_view(*o)),
{
    match o {
        Some(s) => s.as_str(),
        None => {
            proof {
                reveal_strlit("");
                assert(""@ =~= Seq::<char>::empty());
            }
            ""
        },
    }
}

impl AppSettingsMap {
    /// No setting at all.
    pub fn empty() -> (r: Self)
        ensures
            r@ == empty_settings(),
    {
        AppSettingsMap {
            bot_token: None,
            channel_name: None,
            pass_word: None,
            picgo_api_key: None,
            base_url: None,
            session_token: None,
        }
    }

    /// A copy.
    pub fn copy(&self) -> (r: Self)
        ensures
            r@ == self@,
    {
        AppSettingsMap {
            bot_token: copy_text(&self.bot_token),
            channel_name: copy_text(&self.channel_name),
            pass_word: copy_text(&self.pass_word),
            picgo_api_key: copy_text(&self.picgo_api_key),
            base_url: copy_text(&self.base_url),
            session_token: copy_text(&self.session_token),
        }
    }
}

/// The values of the environment variables that matter here.
#[derive(Debug, PartialEq)]
pub struct EnvVars {
    pub bot_token: Option<String>,
    pub channel_name: Option<String>,
    pub pass_word: Option<String>,
    pub picgo_api_key: Option<String>,
    pub base_url: Option<String>,
    pub mode: Option<String>,
    pub file_route: Option<String>,
    pub data_dir: Option<String>,
}

/// What the environment configures.
#[derive(Debug)]
pub struct Settings {
    pub bot_token: Option<String>,
    pub channel_name: Option<String>,
    pub pass_word: Option<String>,
    pub picgo_api_key: Option<String>,
    pub base_url: String,
    pub _mode: String,
    pub _file_route: String,
    pub data_dir: String,
}

/// A text that counts only where it is not empty.
pub open spec fn nonempty(o: Option<Seq<char>>) -> Option<Seq<char>> {
    match o {
        Some(s) => if s.len() > 0 {
            Some(s)
        } else {
            None
        },
        None => None,
    }
}

/// A text, or another where there is none.
pub open spec fn text_or(o: Option<Seq<char>>, default: Seq<char>) -> Seq<char> {
    match o {
        Some(s) => s,
        None => default,
    }
}

fn keep_nonempty(o: Option<String>) -> (r: Option<String>)
    ensures
        text::opt_view(r) == nonempty(text::opt_view(o)),
{
    match o {
        Some(s) => if s.as_str().unicode_len() > 0 {
            Some(s)
        } else {
            None
        },
        None => None,
    }
}

fn keep_or(o: Option<String>, default: &str) -> (r: String)
    ensures
        r@ == text_or(text::opt_view(o), default@),
{
    match o {
        Some(s) => s,
        None => String::from_str(default),
    }
}

/// These settings are what environment variables configure.
pub open spec fn is_configured(vars: EnvVars, r: Settings) -> bool {
    &&& text::opt_view(r.bot_token) == nonempty(text::opt_view(vars.bot_token))
    &&& text::opt_view(r.channel_name) == nonempty(text::opt_view(vars.channel_name))
    &&& text::opt_view(r.pass_word) == nonempty(text::opt_view(vars.pass_word))
    &&& text::opt_view(r.picgo_api_key) == nonempty(text::opt_view(vars.picgo_api_key))
    &&& r.base_url@ == text_or(text::opt_view(vars.base_url), "http://127.0.0.1:8000"@)
    &&& r._mode@ == text_or(text::opt_view(vars.mode), "p"@)
    &&& r._file_route@ == text_or(text::opt_view(vars.file_route), "/d/"@)
    &&& r.data_dir@ == text_or(text::opt_view(vars.data_dir), "app/data"@)
}

impl Settings {
    /// The settings that environment variables give.
    pub fn from_env(vars: EnvVars) -> (r: Self)
        ensures
            is_configured(vars, r),
    {
        Settings {
            bot_token: keep_nonempty(vars.bot_token),
            channel_name: keep_nonempty(vars.channel_name),
            pass_word: keep_nonempty(vars.pass_word),
            picgo_api_key: keep_nonempty(vars.picgo_api_key),
            base_url: keep_or(vars.base_url, "http://127.0.0.1:8000"),
            _mode: keep_or(vars.mode, "p"),
            _file_route: keep_or(vars.file_route, "/d/"),
            data_dir: keep_or(vars.data_dir, "app/data"),
        }
    }
}

/// The settings that the environment gives.
pub open spec fn env_settings(settings: Settings) -> AppSettingsView {
    AppSettingsView {
        bot_token: text::opt_view(settings.bot_token),
        channel_name: text::opt_view(settings.channel_name),
        pass_word: text::opt_view(settings.pass_word),
        picgo_api_key: text::opt_view(settings.picgo_api_key),
        base_url: Some(settings.base_url@),
        session_token: None,
    }
}

/// A setting of the database where it says something, else another.
pub open spec fn stored_or(stored: Option<Seq<char>>, other: Option<Seq<char>>) -> Option<Seq<char>> {
    match database::normed(stored) {
        Some(s) => Some(s),
        None => other,
    }
}

/// The settings of the database over others.
pub open spec fn merged(stored: AppSettingsView, other: AppSettingsView) -> AppSettingsView {
    AppSettingsView {
        bot_token: stored_or(stored.bot_token, other.bot_token),
        channel_name: stored_or(stored.channel_name, other.channel_name),
        pass_word: stored_or(stored.pass_word, other.pass_word),
        picgo_api_key: stored_or(stored.picgo_api_key, other.picgo_api_key),
        base_url: stored_or(stored.base_url, other.base_url),
        session_token: stored_or(stored.session_token, other.session_token),
    }
}

/// The settings in force, where the database could be read and where it could not.
pub open spec fn app_settings(settings: Settings, stored: Option<AppSettingsView>) -> AppSettingsView {
    match stored {
        Some(d) => merged(d, env_settings(settings)),
        None => env_settings(settings),
    }
}

/// The password in force.
pub open spec fn active_password(settings: Settings, stored: Option<AppSettingsView>) -> Option<Seq<char>> {
    match stored {
        Some(d) => stored_or(d.pass_word, text::opt_view(settings.pass_word)),
        None => text::opt_view(settings.pass_word),
    }
}

/// What was read of the settings in the database.
pub open spec fn read_view(stored: Option<&AppSettingsMap>) -> Option<AppSettingsView> {
    match stored {
        Some(d) => Some(d@),
        None => None,
    }
}

fn prefer_stored(stored: &Option<String>, other: Option<String>) -> (r: Option<String>)
    ensures
        text::opt_view(r) == stored_or(text::opt_view(*stored), text::opt_view(other)),
{
    match database::norm(borrow_text(stored)) {
        Some(s) => Some(s),
        None => other,
    }
}

/// The password in force: that of the database, else that of the environment.
pub fn get_active_password(settings: &Settings, stored: Option<&AppSettingsMap>) -> (r: Option<String>)
    ensures
        text::opt_view(r) == active_password(*settings, read_view(stored)),
{
    let own = copy_text(&settings.pass_word);
    match stored {
        Some(d) => prefer_stored(&d.pass_word, own),
        None => own,
    }
}

/// The settings in force: those of the database over those of the environment.
pub fn get_app_settings(settings: &Settings, stored: Option<&AppSettingsMap>) -> (r: AppSettingsMap)
    ensures
        r@ == app_settings(*settings, read_view(stored)),
{
    let own = AppSettingsMap {
        bot_token: copy_text(&settings.bot_token),
        channel_name: copy_text(&settings.channel_name),
        pass_word: copy_text(&settings.pass_word),
        picgo_api_key: copy_text(&settings.picgo_api_key),
        base_url: Some(settings.base_url.clone()),
        session_token: None,
    };
    match stored {
        Some(d) => AppSettingsMap {
            bot_token: prefer_stored(&d.bot_token, own.bot_token),
            channel_name: prefer_stored(&d.channel_name, own.channel_name),
            pass_word: prefer_stored(&d.pass_word, own.pass_word),
            picgo_api_key: prefer_stored(&d.picgo_api_key, own.picgo_api_key),
            base_url: prefer_stored(&d.base_url, own.base_url),
            session_token: prefer_stored(&d.session_token, own.session_token),
        },
        None => own,
    }
}

/// A bot can run: there is a token and a channel, and neither is blank.
pub open spec fn bot_ready(settings: AppSettingsView) -> bool {
    &&& text::trimmed(text::text_or_empty(settings.bot_token)).len() > 0
    &&& text::trimmed(text::text_or_empty(settings.channel_name)).len() > 0
}

/// Tells whether a bot can run.
pub fn is_bot_ready(app_settings: &AppSettingsMap) -> (r: bool)
    ensures
        r == bot_ready(app_settings@),
{
    let token = text::trim(borrow_or_empty(&app_settings.bot_token));
    let channel = text::trim(borrow_or_empty(&app_settings.channel_name));
    token.unicode_len() > 0 && channel.unicode_len() > 0
}

/// The password in force is the one among the settings in force.
pub proof fn law_active_password_is_the_setting(settings: Settings, stored: Option<AppSettingsView>)
    ensures
        active_password(settings, stored) == app_settings(settings, stored).pass_word,
{
}

/// Once the settings of the database are reset, those of the environment are in force.
pub proof fn law_reset_brings_back_the_environment(settings: Settings)
    ensures
        app_settings(settings, Some(empty_settings())) == env_settings(settings),
        active_password(settings, Some(empty_settings())) == text::opt_view(settings.pass_word),
{
}

/// A variable that is set and not empty is the setting; an empty one counts as not set.
pub open spec fn is_taken(variable: Option<String>, setting: Option<String>) -> bool {
    match variable {
        Some(v) => if v@.len() > 0 {
            setting matches Some(s) && s@ == v@
        } else {
            setting is None
        },
        None => setting is None,
    }
}

/// What the environment sets is what is configured, and what it does not set has its default.
pub proof fn law_environment_configures(vars: EnvVars, r: Settings)
    requires
        is_configured(vars, r),
    ensures
        is_taken(vars.bot_token, r.bot_token),
        is_taken(vars.channel_name, r.channel_name),
        is_taken(vars.pass_word, r.pass_word),
        is_taken(vars.picgo_api_key, r.picgo_api_key),
        r.base_url@ == match vars.base_url {
            Some(u) => u@,
            None => "http://127.0.0.1:8000"@,
        },
        r.data_dir@ == match vars.data_dir {
            Some(d) => d@,
            None => "app/data"@,
        },
        r._mode@ == match vars.mode {
            Some(m) => m@,
            None => "p"@,
        },
        r._file_route@ == match vars.file_route {
            Some(p) => p@,
            None => "/d/"@,
        },
{
}

/// A setting in force is the one of the database, without the white space round it, where it is not
/// blank; else it is the other.
pub open spec fn is_in_force(stored: Option<Seq<char>>, other: Option<Seq<char>>, r: Option<Seq<char>>) -> bool {
    if stored is Some && text::trimmed(stored->Some_0).len() > 0 {
        r == Some(text::trimmed(stored->Some_0))
    } else {
        r == other
    }
}

/// Each setting of the database stands over the one of the environment, where it says something.
pub proof fn law_database_stands_over_environment(settings: Settings, stored: AppSettingsView)
    ensures
        ({
            let r = app_settings(settings, Some(stored));
            &&& is_in_force(stored.bot_token, text::opt_view(settings.bot_token), r.bot_token)
            &&& is_in_force(stored.channel_name, text::opt_view(settings.channel_name), r.channel_name)
            &&& is_in_force(stored.pass_word, text::opt_view(settings.pass_word), r.pass_word)
            &&& is_in_force(stored.picgo_api_key, text::opt_view(settings.picgo_api_key), r.picgo_api_key)
            &&& is_in_force(stored.base_url, Some(settings.base_url@), r.base_url)
            &&& is_in_force(stored.session_token, None, r.session_token)
        }),
        is_in_force(
            stored.pass_word,
            text::opt_view(settings.pass_word),
            active_password(settings, Some(stored)),
        ),
{
}

/// Where the database cannot be read, the environment alone counts.
pub proof fn law_environment_alone(settings: Settings)
    ensures
        ({
            let r = app_settings(settings, None);
            &&& r.bot_token == text::opt_view(settings.bot_token)
            &&& r.channel_name == text::opt_view(settings.channel_name)
            &&& r.pass_word == text::opt_view(settings.pass_word)
            &&& r.picgo_api_key == text::opt_view(settings.picgo_api_key)
            &&& r.base_url == Some(settings.base_url@)
            &&& r.session_token is None
        }),
        active_password(settings, None) == text::opt_view(settings.pass_word),
{
}

/// A bot can run exactly where there is a token and a channel that hold more than white space.
pub proof fn law_bots_need_token_and_channel(s: AppSettingsView)
    ensures
        bot_ready(s) <==> s.bot_token is Some && text::trimmed(s.bot_token->Some_0).len() > 0
            && s.channel_name is Some && text::trimmed(s.channel_name->Some_0).len() > 0,
        empty_settings().bot_token is None,
        empty_settings().channel_name is None,
        empty_settings().pass_word is None,
        empty_settings().picgo_api_key is None,
        empty_settings().base_url is None,
        empty_settings().session_token is None,
{
    let e = Seq::<char>::empty();
    text::lemma_trimmed_same(e);
}

/// What settings hold is what they are made of.
pub proof fn law_settings_hold_what_they_are_made_of(s: AppSettingsMap)
    ensures
        s@.bot_token == text::opt_view(s.bot_token),
        s@.channel_name == text::opt_view(s.channel_name),
        s@.pass_word == text::opt_view(s.pass_word),
        s@.picgo_api_key == text::opt_view(s.picgo_api_key),
        s@.base_url == text::opt_view(s.base_url),
        s@.session_token == text::opt_view(s.session_token),
        s.bot_token matches Some(t) ==> s@.bot_token == Some(t@),
        s.bot_token is None ==> s@.bot_token is None,
{
}

} // verus!
