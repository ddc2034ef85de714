use vstd::prelude::*;

use crate::rsvp::{Focal, PauseLevel};
use crate::text::{
    ascii_lower, ascii_lower_idempotent, chars_eq_str, chars_of, push_char, push_chars, push_str,
    to_ascii_lowercase,
};
use crate::theme::{parse_theme, result_view, spec_parse_theme, ThemeName};

verus! {

/// The reader's settings.
#[derive(Debug, Clone)]
pub struct Config {
    pub wpm: u32,
    pub start_paused: bool,
    pub narrate: bool,
    pub pauses: PauseLevel,
    pub focal: Focal,
    pub theme: ThemeName,
}

/// The settings in force when a config file sets nothing.
pub open spec fn default_config() -> Config {
    Config {
        wpm: 300,
        start_paused: true,
        narrate: false,
        pauses: PauseLevel::Medium,
        focal: Focal::Middle,
        theme: ThemeName::Auto,
    }
}

impl Default for Config {
    fn default() -> (c: Self)
        ensures
            c == default_config(),
    {
        Config {
            wpm: 300,
            start_paused: true,
            narrate: false,
            pauses: PauseLevel::Medium,
            focal: Focal::Middle,
            theme: ThemeName::Auto,
        }
    }
}

/// The settings a config file gives, each one optional.
#[derive(Debug)]
pub struct RawConfig {
    pub wpm: Option<u32>,
    pub start_paused: Option<bool>,
    pub narrate: Option<bool>,
    pub pauses: Option<String>,
    pub focal: Option<String>,
    pub theme: Option<String>,
}

impl Default for RawConfig {
    fn default() -> (r: Self)
        ensures
            r.wpm is None,
            r.start_paused is None,
            r.narrate is None,
            r.pauses is None,
            r.focal is None,
            r.theme is None,
    {
        RawConfig { wpm: None, start_paused: None, narrate: None, pauses: None, focal: None, theme: None }
    }
}

/// The message for a focal value that is not known.
pub open spec fn unknown_focal_message(lower: Seq<char>) -> Seq<char> {
    "unknown focal value `"@ + lower + "` (expected left, middle, or right)"@
}

/// The focal position a name asks for, ignoring ASCII case, or the error.
pub open spec fn spec_parse_focal(s: Seq<char>) -> Result<Focal, Seq<char>> {
    let l = ascii_lower(s);
    if l == "left"@ || l == "l"@ {
        Ok(Focal::Left)
    } else if l == "middle"@ || l == "center"@ || l == "m"@ {
        Ok(Focal::Middle)
    } else if l == "right"@ || l == "r"@ {
        Ok(Focal::Right)
    } else {
        Err(unknown_focal_message(l))
    }
}

/// The message for a pause level that is not known.
pub open spec fn unknown_pauses_message(lower: Seq<char>) -> Seq<char> {
    "unknown pauses value `"@ + lower + "` (expected off, low, medium, or high)"@
}

/// The pause level a name asks for, ignoring ASCII case, or the error.
pub open spec fn spec_parse_pause_level(s: Seq<char>) -> Result<PauseLevel, Seq<char>> {
    let l = ascii_lower(s);
    if l == "off"@ || l == "none"@ || l == "0"@ {
        Ok(PauseLevel::Off)
    } else if l == "low"@ || l == "small"@ {
        Ok(PauseLevel::Low)
    } else if l == "medium"@ || l == "med"@ || l == "normal"@ {
        Ok(PauseLevel::Medium)
    } else if l == "high"@ || l == "big"@ || l == "long"@ {
        Ok(PauseLevel::High)
    } else {
        Err(unknown_pauses_message(l))
    }
}

/// Reads a focal position: left/l, middle/center/m or right/r, in any
/// ASCII case.
pub fn parse_focal(s: &str) -> (r: Result<Focal, String>)
    ensures
        result_view(r) == spec_parse_focal(s@),
{
    let l = to_ascii_lowercase(s);
    let l = l.as_slice();
    if chars_eq_str(l, "left") || chars_eq_str(l, "l") {
        Ok(Focal::Left)
    } else if chars_eq_str(l, "middle") || chars_eq_str(l, "center") || chars_eq_str(l, "m") {
        Ok(Focal::Middle)
    } else if chars_eq_str(l, "right") || chars_eq_str(l, "r") {
        Ok(Focal::Right)
    } else {
        let mut m = String::new();
        push_str(&mut m, "unknown focal value `");
        push_chars(&mut m, l);
        push_str(&mut m, "` (expected left, middle, or right)");
        Err(m)
    }
}

/// Reads a pause level: off/none/0, low/small, medium/med/normal or
/// high/big/long, in any ASCII case.
pub fn parse_pause_level(s: &str) -> (r: Result<PauseLevel, String>)
    ensures
        result_view(r) == spec_parse_pause_level(s@),
{
    let l = to_ascii_lowercase(s);
    let l = l.as_slice();
    if chars_eq_str(l, "off") || chars_eq_str(l, "none") || chars_eq_str(l, "0") {
        Ok(PauseLevel::Off)
    } else if chars_eq_str(l, "low") || chars_eq_str(l, "small") {
        Ok(PauseLevel::Low)
    } else if chars_eq_str(l, "medium") || chars_eq_str(l, "med") || chars_eq_str(l, "normal") {
        Ok(PauseLevel::Medium)
    } else if chars_eq_str(l, "high") || chars_eq_str(l, "big") || chars_eq_str(l, "long") {
        Ok(PauseLevel::High)
    } else {
        let mut m = String::new();
        push_str(&mut m, "unknown pauses value `");
        push_chars(&mut m, l);
        push_str(&mut m, "` (expected off, low, medium, or high)");
        Err(m)
    }
}

/// `o`'s value, or `d` when it is `None`.
pub open spec fn or_else<T>(o: Option<T>, d: T) -> T {
    match o {
        Some(v) => v,
        None => d,
    }
}

/// The settings `raw` gives on top of `base`, or the first error among
/// the pause level, the focal position and the theme, in that order.
pub open spec fn spec_merge(base: Config, raw: RawConfig) -> Result<Config, Seq<char>> {
    let pauses = match raw.pauses {
        None => Ok(base.pauses),
        Some(s) => spec_parse_pause_level(s@),
    };
    let focal = match raw.focal {
        None => Ok(base.focal),
        Some(s) => spec_parse_focal(s@),
    };
    let theme = match raw.theme {
        None => Ok(base.theme),
        Some(s) => spec_parse_theme(s@),
    };
    match pauses {
        Err(e) => Err(e),
        Ok(p) => match focal {
            Err(e) => Err(e),
            Ok(f) => match theme {
                Err(e) => Err(e),
                Ok(t) => Ok(Config {
                    wpm: or_else(raw.wpm, base.wpm),
                    start_paused: or_else(raw.start_paused, base.start_paused),
                    narrate: or_else(raw.narrate, base.narrate),
                    pauses: p,
                    focal: f,
                    theme: t,
                }),
            },
        },
    }
}

/// Lays the settings of a config file over `base`.
pub fn merge(base: Config, raw: RawConfig) -> (r: Result<Config, String>)
    ensures
        result_view(r) == spec_merge(base, raw),
{
    let pauses = match &raw.pauses {
        None => base.pauses,
        Some(s) => match parse_pause_level(s.as_str()) {
            Ok(p) => p,
            Err(e) => return Err(e),
        },
    };
    let focal = match &raw.focal {
        None => base.focal,
        Some(s) => match parse_focal(s.as_str()) {
            Ok(f) => f,
            Err(e) => return Err(e),
        },
    };
    let theme = match &raw.theme {
        None => base.theme,
        Some(s) => match parse_theme(s.as_str()) {
            Ok(t) => t,
            Err(e) => return Err(e),
        },
    };
    Ok(Config {
        wpm: match raw.wpm { Some(v) => v, None => base.wpm },
        start_paused: match raw.start_paused { Some(v) => v, None => base.start_paused },
        narrate: match raw.narrate { Some(v) => v, None => base.narrate },
        pauses,
        focal,
        theme,
    })
}


/// Setting names are read without regard to ASCII case.
pub proof fn parsing_ignores_case(s: Seq<char>)
    ensures
        spec_parse_focal(s) == spec_parse_focal(ascii_lower(s)),
        spec_parse_pause_level(s) == spec_parse_pause_level(ascii_lower(s)),
        spec_parse_theme(s) == spec_parse_theme(ascii_lower(s)),
{
    ascii_lower_idempotent(s);
}

/// A config file that sets nothing leaves the settings as they were.
pub proof fn merge_nothing_keeps_base(base: Config, raw: RawConfig)
    requires
        raw.wpm is None,
        raw.start_paused is None,
        raw.narrate is None,
        raw.pauses is None,
        raw.focal is None,
        raw.theme is None,
    ensures
        spec_merge(base, raw) == Ok::<Config, Seq<char>>(base),
{
}

/// A setting the file gives wins over the base; the rest are kept.
pub proof fn merge_file_wins(base: Config, raw: RawConfig)
    requires
        spec_merge(base, raw) is Ok,
    ensures
        ({
            let c = spec_merge(base, raw)->Ok_0;
            &&& c.wpm == or_else(raw.wpm, base.wpm)
            &&& c.start_paused == or_else(raw.start_paused, base.start_paused)
            &&& c.narrate == or_else(raw.narrate, base.narrate)
            &&& raw.pauses is None ==> c.pauses == base.pauses
            &&& raw.focal is None ==> c.focal == base.focal
            &&& raw.theme is None ==> c.theme == base.theme
        }),
{
}


/// `base` joined with the relative path `rel` as `PathBuf::join` does on
/// Unix: a `/` goes between them unless `base` is empty or already ends
/// in one.
pub open spec fn joined_path(base: Seq<char>, rel: Seq<char>) -> Seq<char> {
    if base.len() == 0 {
        rel
    } else if base.last() == '/' {
        base + rel
    } else {
        base.push('/') + rel
    }
}

/// Joins the relative path `rel` onto `base` (see [`joined_path`]).
pub fn join_path(base: &str, rel: &str) -> (r: String)
    ensures
        r@ == joined_path(base@, rel@),
{
    let b = chars_of(base);
    let mut r = String::new();
    push_str(&mut r, base);
    if b.len() > 0 && b[b.len() - 1] != '/' {
        push_char(&mut r, '/');
    }
    push_str(&mut r, rel);
    proof {
        if base@.len() == 0 {
            assert(r@ =~= rel@);
        }
    }
    r
}

/// Where the config file is: `$ECHO_CONFIG` as it is, else
/// `$XDG_CONFIG_HOME/echo/config.toml`, else `$HOME/.config/echo/config.toml`;
/// nowhere when none of the three is set.
pub open spec fn spec_config_path(
    echo_config: Option<Seq<char>>,
    xdg_config_home: Option<Seq<char>>,
    home: Option<Seq<char>>,
) -> Option<Seq<char>> {
    match echo_config {
        Some(p) => Some(p),
        None => match xdg_config_home {
            Some(x) => Some(joined_path(x, "echo/config.toml"@)),
            None => match home {
                Some(h) => Some(joined_path(h, ".config/echo/config.toml"@)),
                None => None,
            },
        },
    }
}

/// A string option taken by view.
pub open spec fn opt_view(o: Option<&str>) -> Option<Seq<char>> {
    match o {
        Some(s) => Some(s@),
        None => None,
    }
}

/// The config file's path, from the values of `ECHO_CONFIG`,
/// `XDG_CONFIG_HOME` and `HOME` (each `None` when unset).
pub fn config_path_from(echo_config: Option<&str>, xdg_config_home: Option<&str>, home: Option<&str>) -> (r: Option<String>)
    ensures
        r is Some <==> (echo_config is Some || xdg_config_home is Some || home is Some),
        match r {
            Some(p) => spec_config_path(opt_view(echo_config), opt_view(xdg_config_home), opt_view(home)) == Some(p@),
            None => spec_config_path(opt_view(echo_config), opt_view(xdg_config_home), opt_view(home)) is None,
        },
{
    match echo_config {
        Some(p) => {
            let mut r = String::new();
            push_str(&mut r, p);
            Some(r)
        },
        None => match xdg_config_home {
            Some(x) => Some(join_path(x, "echo/config.toml")),
            None => match home {
                Some(h) => Some(join_path(h, ".config/echo/config.toml")),
                None => None,
            },
        },
    }
}


/// The focal names: `left`/`l`, `middle`/`center`/`m` and `right`/`r`, in
/// any ASCII case, each give their position; they are distinct names.
pub proof fn focal_names(s: Seq<char>)
    ensures
        ascii_lower(s) == "left"@ || ascii_lower(s) == "l"@ ==> spec_parse_focal(s) == Ok::<Focal, Seq<char>>(Focal::Left),
        ascii_lower(s) == "middle"@ || ascii_lower(s) == "center"@ || ascii_lower(s) == "m"@
            ==> spec_parse_focal(s) == Ok::<Focal, Seq<char>>(Focal::Middle),
        ascii_lower(s) == "right"@ || ascii_lower(s) == "r"@ ==> spec_parse_focal(s) == Ok::<Focal, Seq<char>>(Focal::Right),
{
    reveal_strlit("left");
    assert("left"@.len() == 4 && "left"@[0] == 'l');
    reveal_strlit("l");
    assert("l"@.len() == 1 && "l"@[0] == 'l');
    reveal_strlit("middle");
    assert("middle"@.len() == 6 && "middle"@[0] == 'm');
    reveal_strlit("center");
    assert("center"@.len() == 6 && "center"@[0] == 'c');
    reveal_strlit("m");
    assert("m"@.len() == 1 && "m"@[0] == 'm');
    reveal_strlit("right");
    assert("right"@.len() == 5 && "right"@[0] == 'r');
    reveal_strlit("r");
    assert("r"@.len() == 1 && "r"@[0] == 'r');
}

/// The pause names: `off`/`none`/`0`, `low`/`small`, `medium`/`med`/`normal`
/// and `high`/`big`/`long`, in any ASCII case, each give their level.
pub proof fn pause_level_names(s: Seq<char>)
    ensures
        ascii_lower(s) == "off"@ || ascii_lower(s) == "none"@ || ascii_lower(s) == "0"@
            ==> spec_parse_pause_level(s) == Ok::<PauseLevel, Seq<char>>(PauseLevel::Off),
        ascii_lower(s) == "low"@ || ascii_lower(s) == "small"@
            ==> spec_parse_pause_level(s) == Ok::<PauseLevel, Seq<char>>(PauseLevel::Low),
        ascii_lower(s) == "medium"@ || ascii_lower(s) == "med"@ || ascii_lower(s) == "normal"@
            ==> spec_parse_pause_level(s) == Ok::<PauseLevel, Seq<char>>(PauseLevel::Medium),
        ascii_lower(s) == "high"@ || ascii_lower(s) == "big"@ || ascii_lower(s) == "long"@
            ==> spec_parse_pause_level(s) == Ok::<PauseLevel, Seq<char>>(PauseLevel::High),
{
    reveal_strlit("off");
    assert("off"@.len() == 3 && "off"@[0] == 'o');
    reveal_strlit("none");
    assert("none"@.len() == 4 && "none"@[0] == 'n');
    reveal_strlit("0");
    assert("0"@.len() == 1 && "0"@[0] == '0');
    reveal_strlit("low");
    assert("low"@.len() == 3 && "low"@[0] == 'l');
    reveal_strlit("small");
    assert("small"@.len() == 5 && "small"@[0] == 's');
    reveal_strlit("medium");
    assert("medium"@.len() == 6 && "medium"@[0] == 'm');
    reveal_strlit("med");
    assert("med"@.len() == 3 && "med"@[0] == 'm');
    reveal_strlit("normal");
    assert("normal"@.len() == 6 && "normal"@[0] == 'n');
    reveal_strlit("high");
    assert("high"@.len() == 4 && "high"@[0] == 'h');
    reveal_strlit("big");
    assert("big"@.len() == 3 && "big"@[0] == 'b');
    reveal_strlit("long");
    assert("long"@.len() == 4 && "long"@[0] == 'l');
}

/// The theme names: `auto`, `dark`, `light`, `solarized`/`solar` and
/// `dracula`, in any ASCII case, each give their theme.
pub proof fn theme_names(s: Seq<char>)
    ensures
        ascii_lower(s) == "auto"@ ==> spec_parse_theme(s) == Ok::<ThemeName, Seq<char>>(ThemeName::Auto),
        ascii_lower(s) == "dark"@ ==> spec_parse_theme(s) == Ok::<ThemeName, Seq<char>>(ThemeName::Dark),
        ascii_lower(s) == "light"@ ==> spec_parse_theme(s) == Ok::<ThemeName, Seq<char>>(ThemeName::Light),
        ascii_lower(s) == "solarized"@ || ascii_lower(s) == "solar"@
            ==> spec_parse_theme(s) == Ok::<ThemeName, Seq<char>>(ThemeName::Solarized),
        ascii_lower(s) == "dracula"@ ==> spec_parse_theme(s) == Ok::<ThemeName, Seq<char>>(ThemeName::Dracula),
{
    reveal_strlit("auto");
    assert("auto"@.len() == 4 && "auto"@[0] == 'a');
    reveal_strlit("dark");
    assert("dark"@.len() == 4 && "dark"@[0] == 'd');
    reveal_strlit("light");
    assert("light"@.len() == 5 && "light"@[0] == 'l');
    reveal_strlit("solarized");
    assert("solarized"@.len() == 9 && "solarized"@[0] == 's');
    reveal_strlit("solar");
    assert("solar"@.len() == 5 && "solar"@[0] == 's');
    reveal_strlit("dracula");
    assert("dracula"@.len() == 7 && "dracula"@[0] == 'd');
}

} // verus!
