//! The resolved configuration: command-line flags over environment over
//! defaults.
use vstd::prelude::*;
use vstd::string::*;

use crate::text::{
    ascii_lower, ascii_lowercase, ascii_upper, ascii_uppercase, is_whitespace, trim, trim_end,
    trim_start, trimmed_lowercase_is,
};

verus! {

/// The X display used when neither a flag nor `DISPLAY` names one.
pub const DEFAULT_DISPLAY: &'static str = ":0";

/// Whether clears are mirrored when neither a flag nor `MIRROR_CLEARS`
/// says.
pub const DEFAULT_MIRROR_CLEARS: bool = true;

/// What the daemon runs with.
#[derive(Debug, Clone, PartialEq, Eq)]
pub struct Config {
    pub display: String,
    pub mirror_clears: bool,
}

/// The environment variables that the configuration reads.
#[derive(Debug, Clone, Default, PartialEq, Eq)]
pub struct Env {
    /// `DISPLAY`, when set.
    pub display: Option<String>,
    /// `MIRROR_CLEARS`, when set.
    pub mirror_clears: Option<String>,
}

/// The mathematical value of a [`Config`].
pub struct ConfigView {
    pub display: Seq<char>,
    pub mirror_clears: bool,
}

/// The mathematical value of an [`Env`].
pub struct EnvView {
    pub display: Option<Seq<char>>,
    pub mirror_clears: Option<Seq<char>>,
}

/// The characters of an optional string.
pub open spec fn opt_view(value: Option<String>) -> Option<Seq<char>> {
    match value {
        Some(s) => Some(s@),
        None => None,
    }
}

impl View for Config {
    type V = ConfigView;

    open spec fn view(&self) -> ConfigView {
        ConfigView { display: self.display@, mirror_clears: self.mirror_clears }
    }
}

impl View for Env {
    type V = EnvView;

    open spec fn view(&self) -> EnvView {
        EnvView { display: opt_view(self.display), mirror_clears: opt_view(self.mirror_clears) }
    }
}

/// The spellings that mean "off", after trimming and lowercasing ASCII.
pub open spec fn is_false_word(word: Seq<char>) -> bool {
    word == "0"@ || word == "false"@ || word == "no"@ || word == "off"@
}

/// A boolean setting: false for "0", "false", "no" and "off", with
/// surrounding whitespace and ASCII case ignored; true for anything else.
pub open spec fn parse_bool_spec(value: Seq<char>) -> bool {
    !is_false_word(ascii_lowercase(trim(value)))
}

/// The display that the configuration ends with.
pub open spec fn resolve_display(
    display_override: Option<Seq<char>>,
    env_display: Option<Seq<char>>,
) -> Seq<char> {
    let chosen = match display_override {
        Some(display) => Some(display),
        None => env_display,
    };
    match chosen {
        Some(display) => if display.len() > 0 {
            display
        } else {
            DEFAULT_DISPLAY@
        },
        None => DEFAULT_DISPLAY@,
    }
}

/// Whether the configuration ends up mirroring clears.
pub open spec fn resolve_mirror_clears(
    mirror_clears_override: Option<bool>,
    env_mirror_clears: Option<Seq<char>>,
) -> bool {
    match mirror_clears_override {
        Some(flag) => flag,
        None => match env_mirror_clears {
            Some(value) => parse_bool_spec(value),
            None => DEFAULT_MIRROR_CLEARS,
        },
    }
}

/// The configuration resolved from the flags and the environment.
pub open spec fn resolve_spec(
    display_override: Option<Seq<char>>,
    mirror_clears_override: Option<bool>,
    env: EnvView,
) -> ConfigView {
    ConfigView {
        display: resolve_display(display_override, env.display),
        mirror_clears: resolve_mirror_clears(mirror_clears_override, env.mirror_clears),
    }
}

/// The text that `--print-config` shows for a configuration.
pub open spec fn render_spec(config: ConfigView) -> Seq<char> {
    "display="@ + config.display + "\nmirror_clears="@ + (if config.mirror_clears {
        "true"@
    } else {
        "false"@
    }) + "\n"@
}

impl Config {
    /// The configuration as `key=value` lines.
    pub fn render(&self) -> (text: String)
        ensures
            text@ == render_spec(self@),
    {
        let mut text = String::from_str("display=");
        text.append(self.display.as_str());
        text.append("\nmirror_clears=");
        if self.mirror_clears {
            text.append("true");
        } else {
            text.append("false");
        }
        text.append("\n");
        text
    }
}

/// Reads a boolean setting: "0", "false", "no" and "off" are false, in
/// any ASCII case and with surrounding whitespace; anything else is true.
pub fn parse_bool(value: &str) -> (flag: bool)
    ensures
        flag == parse_bool_spec(value@),
{
    !(trimmed_lowercase_is(value, "0") || trimmed_lowercase_is(value, "false")
        || trimmed_lowercase_is(value, "no") || trimmed_lowercase_is(value, "off"))
}

/// The configuration: a flag wins over the environment, which wins over
/// the default. An empty display, from a flag or from `DISPLAY`, falls
/// back to the default display.
pub fn resolve(display_override: Option<&str>, mirror_clears_override: Option<bool>, env: &Env) -> (config: Config)
    ensures
        config@ == resolve_spec(
            match display_override {
                Some(display) => Some(display@),
                None => None,
            },
            mirror_clears_override,
            env@,
        ),
{
    let chosen: Option<String> = match display_override {
        Some(display) => Some(display.to_owned()),
        None => match &env.display {
            Some(display) => Some(display.clone()),
            None => None,
        },
    };
    let display = match chosen {
        Some(display) => {
            if display.as_str().is_empty() {
                DEFAULT_DISPLAY.to_owned()
            } else {
                display
            }
        },
        None => DEFAULT_DISPLAY.to_owned(),
    };
    let mirror_clears = match mirror_clears_override {
        Some(flag) => flag,
        None => match &env.mirror_clears {
            Some(value) => parse_bool(value.as_str()),
            None => DEFAULT_MIRROR_CLEARS,
        },
    };
    Config { display, mirror_clears }
}

/// A flag wins over the environment, for each setting on its own.
pub proof fn lemma_flags_win_over_environment(
    display_override: Option<Seq<char>>,
    mirror_clears_override: Option<bool>,
    env: EnvView,
)
    ensures
        display_override matches Some(display) ==> (display.len() > 0 ==> resolve_spec(
            display_override,
            mirror_clears_override,
            env,
        ).display == display),
        mirror_clears_override matches Some(flag) ==> resolve_spec(
            display_override,
            mirror_clears_override,
            env,
        ).mirror_clears == flag,
        display_override is None ==> resolve_spec(
            display_override,
            mirror_clears_override,
            env,
        ).display == resolve_spec(None, None, env).display,
        mirror_clears_override is None ==> resolve_spec(
            display_override,
            mirror_clears_override,
            env,
        ).mirror_clears == resolve_spec(None, None, env).mirror_clears,
{
}

/// The resolved display is never empty.
pub proof fn lemma_display_never_empty(
    display_override: Option<Seq<char>>,
    mirror_clears_override: Option<bool>,
    env: EnvView,
)
    ensures
        resolve_spec(display_override, mirror_clears_override, env).display.len() > 0,
{
    reveal_strlit(":0");
}

/// Reading a boolean setting ignores surrounding whitespace.
pub proof fn lemma_parse_bool_ignores_whitespace(value: Seq<char>)
    ensures
        parse_bool_spec(trim(value)) == parse_bool_spec(value),
{
    lemma_trim_idempotent(value);
}

/// Reading a boolean setting ignores ASCII case.
pub proof fn lemma_parse_bool_ignores_ascii_case(value: Seq<char>)
    ensures
        parse_bool_spec(ascii_lowercase(value)) == parse_bool_spec(value),
{
    lemma_trim_lowercase_commute(value);
    let t = trim(value);
    assert(ascii_lowercase(ascii_lowercase(t)) =~= ascii_lowercase(t));
}

/// Reading a boolean setting ignores ASCII case in the other direction
/// too: capitalising the value changes nothing.
pub proof fn lemma_parse_bool_ignores_uppercasing(value: Seq<char>)
    ensures
        parse_bool_spec(ascii_uppercase(value)) == parse_bool_spec(value),
{
    lemma_trim_start_uppercase(value);
    lemma_trim_end_uppercase(trim_start(value));
    let t = trim(value);
    assert(ascii_lowercase(ascii_uppercase(t)) =~= ascii_lowercase(t));
}

/// Reading a boolean setting ignores a space added on either side.
pub proof fn lemma_parse_bool_ignores_added_spaces(value: Seq<char>)
    ensures
        parse_bool_spec(seq![' '] + value + seq![' ']) == parse_bool_spec(value),
{
    let padded = seq![' '] + value + seq![' '];
    assert(padded[0] == ' ');
    assert(is_whitespace(' '));
    assert(padded.drop_first() =~= value.push(' '));
    assert(trim_start(padded) == trim_start(value.push(' ')));
    lemma_trim_start_push_whitespace(value, ' ');
    let t = trim_start(value);
    if t.len() > 0 {
        assert(t.push(' ').last() == ' ');
        assert(t.push(' ').drop_last() =~= t);
        assert(trim_end(t.push(' ')) == trim_end(t));
    } else {
        assert(trim_end(t) == t);
        assert(trim_end(Seq::<char>::empty()) == Seq::<char>::empty());
    }
    assert(trim(padded) == trim(value));
}

/// "0", "false", "no" and "off" read as false, and so does every spelling
/// of them in capitals or padded with spaces (by
/// [`lemma_parse_bool_ignores_uppercasing`] and
/// [`lemma_parse_bool_ignores_added_spaces`]); every other value, once
/// trimmed and lowercased, reads as true.
pub proof fn lemma_false_spellings(value: Seq<char>)
    ensures
        !parse_bool_spec("0"@),
        !parse_bool_spec("false"@),
        !parse_bool_spec("no"@),
        !parse_bool_spec("off"@),
        parse_bool_spec(value) == !(ascii_lowercase(trim(value)) == "0"@ || ascii_lowercase(
            trim(value),
        ) == "false"@ || ascii_lowercase(trim(value)) == "no"@ || ascii_lowercase(trim(value))
            == "off"@),
{
    lemma_plain_word_reads_as_itself("0"@);
    lemma_plain_word_reads_as_itself("false"@);
    lemma_plain_word_reads_as_itself("no"@);
    lemma_plain_word_reads_as_itself("off"@);
}

/// A word of small letters and digits, without whitespace, is its own
/// trimmed, lowercased form.
proof fn lemma_plain_word_reads_as_itself(word: Seq<char>)
    ensures
        word == "0"@ || word == "false"@ || word == "no"@ || word == "off"@ ==> ascii_lowercase(
            trim(word),
        ) == word,
{
    reveal_strlit("0");
    reveal_strlit("false");
    reveal_strlit("no");
    reveal_strlit("off");
    if word == "0"@ || word == "false"@ || word == "no"@ || word == "off"@ {
        assert(word.len() > 0);
        assert(forall|i: int| 0 <= i < word.len() ==> !is_whitespace(#[trigger] word[i]) && !(
        'A' <= word[i] <= 'Z'));
        assert(trim_start(word) == word);
        assert(trim_end(word) == word);
        assert(ascii_lowercase(word) =~= word);
    }
}

/// `MIRROR_CLEARS` is read exactly as a `--mirror-clears=` value is: with
/// no flag, a set variable decides through [`parse_bool_spec`], so "0",
/// "false", "no" and "off" turn clears off; an unset one leaves the
/// default, on.
pub proof fn lemma_environment_read_as_boolean(
    display_override: Option<Seq<char>>,
    value: Seq<char>,
    env: EnvView,
)
    ensures
        resolve_spec(
            display_override,
            None,
            (EnvView { mirror_clears: Some(value), ..env }),
        ).mirror_clears == parse_bool_spec(value),
        resolve_spec(
            display_override,
            None,
            (EnvView { mirror_clears: Some(value), ..env }),
        ).mirror_clears == resolve_spec(
            display_override,
            Some(parse_bool_spec(value)),
            env,
        ).mirror_clears,
        resolve_spec(
            display_override,
            None,
            (EnvView { mirror_clears: None, ..env }),
        ).mirror_clears,
{
}

proof fn lemma_trim_start_push_whitespace(s: Seq<char>, c: char)
    requires
        is_whitespace(c),
    ensures
        trim_start(s.push(c)) == (if trim_start(s).len() == 0 {
            Seq::<char>::empty()
        } else {
            trim_start(s).push(c)
        }),
    decreases s.len(),
{
    if s.len() == 0 {
        assert(s.push(c).drop_first() =~= Seq::<char>::empty());
        assert(trim_start(s.push(c)) == trim_start(Seq::<char>::empty()));
    } else {
        assert(s.push(c)[0] == s[0]);
        if is_whitespace(s[0]) {
            assert(s.push(c).drop_first() =~= s.drop_first().push(c));
            lemma_trim_start_push_whitespace(s.drop_first(), c);
        }
    }
}

proof fn lemma_trim_start_uppercase(s: Seq<char>)
    ensures
        trim_start(ascii_uppercase(s)) == ascii_uppercase(trim_start(s)),
    decreases s.len(),
{
    if s.len() > 0 {
        assert(ascii_uppercase(s)[0] == ascii_upper(s[0]));
        assert(ascii_uppercase(s).drop_first() =~= ascii_uppercase(s.drop_first()));
        lemma_trim_start_uppercase(s.drop_first());
    } else {
        assert(ascii_uppercase(s) =~= s);
    }
}

proof fn lemma_trim_end_uppercase(s: Seq<char>)
    ensures
        trim_end(ascii_uppercase(s)) == ascii_uppercase(trim_end(s)),
    decreases s.len(),
{
    if s.len() > 0 {
        assert(ascii_uppercase(s).last() == ascii_upper(s.last()));
        assert(ascii_uppercase(s).drop_last() =~= ascii_uppercase(s.drop_last()));
        lemma_trim_end_uppercase(s.drop_last());
    } else {
        assert(ascii_uppercase(s) =~= s);
    }
}

proof fn lemma_trim_start_lowercase(s: Seq<char>)
    ensures
        trim_start(ascii_lowercase(s)) == ascii_lowercase(trim_start(s)),
    decreases s.len(),
{
    if s.len() > 0 {
        assert(ascii_lowercase(s)[0] == ascii_lower(s[0]));
        assert(ascii_lowercase(s).drop_first() =~= ascii_lowercase(s.drop_first()));
        lemma_trim_start_lowercase(s.drop_first());
    } else {
        assert(ascii_lowercase(s) =~= s);
    }
}

proof fn lemma_trim_end_lowercase(s: Seq<char>)
    ensures
        trim_end(ascii_lowercase(s)) == ascii_lowercase(trim_end(s)),
    decreases s.len(),
{
    if s.len() > 0 {
        assert(ascii_lowercase(s).last() == ascii_lower(s.last()));
        assert(ascii_lowercase(s).drop_last() =~= ascii_lowercase(s.drop_last()));
        lemma_trim_end_lowercase(s.drop_last());
    } else {
        assert(ascii_lowercase(s) =~= s);
    }
}

proof fn lemma_trim_lowercase_commute(s: Seq<char>)
    ensures
        trim(ascii_lowercase(s)) == ascii_lowercase(trim(s)),
{
    lemma_trim_start_lowercase(s);
    lemma_trim_end_lowercase(trim_start(s));
}

proof fn lemma_trim_start_idempotent(s: Seq<char>)
    ensures
        trim_start(trim_start(s)) == trim_start(s),
    decreases s.len(),
{
    if s.len() > 0 && is_whitespace(s[0]) {
        lemma_trim_start_idempotent(s.drop_first());
    }
}

proof fn lemma_trim_end_idempotent(s: Seq<char>)
    ensures
        trim_end(trim_end(s)) == trim_end(s),
    decreases s.len(),
{
    if s.len() > 0 && is_whitespace(s.last()) {
        lemma_trim_end_idempotent(s.drop_last());
    }
}

proof fn lemma_trim_end_keeps_start(s: Seq<char>)
    requires
        s.len() == 0 || !is_whitespace(s[0]),
    ensures
        trim_start(trim_end(s)) == trim_end(s),
    decreases s.len(),
{
    if s.len() > 0 && is_whitespace(s.last()) {
        if s.len() > 1 {
            assert(s.drop_last()[0] == s[0]);
        }
        lemma_trim_end_keeps_start(s.drop_last());
    }
}

proof fn lemma_trim_start_no_leading(s: Seq<char>)
    ensures
        trim_start(s).len() == 0 || !is_whitespace(
            trim_start(s)[0],
        ),
    decreases s.len(),
{
    if s.len() > 0 && is_whitespace(s[0]) {
        lemma_trim_start_no_leading(s.drop_first());
    }
}

proof fn lemma_trim_idempotent(s: Seq<char>)
    ensures
        trim(trim(s)) == trim(s),
{
    let t = trim_start(s);
    lemma_trim_start_no_leading(s);
    lemma_trim_end_keeps_start(t);
    lemma_trim_end_idempotent(t);
}

} // verus!
