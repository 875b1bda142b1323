//! The command line: where to listen and which database file to open.

use vstd::prelude::*;
use vstd::string::*;

use crate::text;

verus! {

/// Where the server listens unless told otherwise: on the local machine only.
pub const DEFAULT_BIND: &'static str = "127.0.0.1:8080";

/// The database file that is opened unless told otherwise.
pub const DEFAULT_DB: &'static str = "./pennywise.db";

/// The settings of a run.
#[derive(Debug)]
pub struct Config {
    pub bind: String,
    pub db: String,
}

/// What is wrong with a command line.
#[derive(Debug)]
pub enum ArgumentError {
    /// The flag that stands last and lacks its value.
    MissingValue(String),
    /// An argument that is no known flag.
    Unknown(String),
}

/// The model of a `Config`.
pub struct ConfigView {
    pub bind: Seq<char>,
    pub db: Seq<char>,
}

/// The model of an `ArgumentError`.
pub enum ArgumentErrorView {
    MissingValue(Seq<char>),
    Unknown(Seq<char>),
}

impl View for Config {
    type V = ConfigView;

    open spec fn view(&self) -> ConfigView {
        ConfigView { bind: self.bind@, db: self.db@ }
    }
}

impl View for ArgumentError {
    type V = ArgumentErrorView;

    open spec fn view(&self) -> ArgumentErrorView {
        match self {
            ArgumentError::MissingValue(flag) => ArgumentErrorView::MissingValue(flag@),
            ArgumentError::Unknown(argument) => ArgumentErrorView::Unknown(argument@),
        }
    }
}

/// The settings without any argument.
pub open spec fn default_settings() -> ConfigView {
    ConfigView { bind: DEFAULT_BIND@, db: DEFAULT_DB@ }
}

/// The settings that `arguments`, read from left to right, make of `settings`.
pub open spec fn configured(settings: ConfigView, arguments: Seq<Seq<char>>) -> Result<
    ConfigView,
    ArgumentErrorView,
>
    decreases arguments.len(),
{
    if arguments.len() == 0 {
        Ok(settings)
    } else if arguments[0] != "--bind"@ && arguments[0] != "--db"@ {
        Err(ArgumentErrorView::Unknown(arguments[0]))
    } else if arguments.len() == 1 {
        Err(ArgumentErrorView::MissingValue(arguments[0]))
    } else if arguments[0] == "--bind"@ {
        configured(ConfigView { bind: arguments[1], ..settings }, arguments.skip(2))
    } else {
        configured(ConfigView { db: arguments[1], ..settings }, arguments.skip(2))
    }
}

/// The characters of each argument.
pub open spec fn argument_texts(arguments: Seq<String>) -> Seq<Seq<char>> {
    arguments.map_values(|argument: String| argument@)
}

impl Config {
    /// Reads the arguments that follow the program's name.
    pub fn from_args(arguments: &Vec<String>) -> (config: Result<Config, ArgumentError>)
        ensures
            match config {
                Ok(config) => configured(default_settings(), argument_texts(arguments@)) == Ok::<
                    ConfigView,
                    ArgumentErrorView,
                >(config@),
                Err(error) => configured(default_settings(), argument_texts(arguments@)) == Err::<
                    ConfigView,
                    ArgumentErrorView,
                >(error@),
            },
    {
        let mut config: Config = Config {
            bind: DEFAULT_BIND.to_owned(),
            db: DEFAULT_DB.to_owned(),
        };
        let ghost all = argument_texts(arguments@);
        let mut i: usize = 0;
        assert(all.skip(0) =~= all);
        while i < arguments.len()
            invariant
                i <= arguments@.len(),
                all == argument_texts(arguments@),
                configured(default_settings(), all) == configured(config@, all.skip(i as int)),
            decreases arguments@.len() - i,
        {
            let flag: &str = arguments[i].as_str();
            assert(all.skip(i as int)[0] == flag@);
            let is_bind: bool = text::same_text(flag, "--bind");
            if !is_bind && !text::same_text(flag, "--db") {
                return Err(ArgumentError::Unknown(arguments[i].clone()));
            }
            if arguments.len() - i == 1 {
                return Err(ArgumentError::MissingValue(arguments[i].clone()));
            }
            assert(all.skip(i as int)[1] == arguments@[i + 1]@);
            assert(all.skip(i as int).skip(2) =~= all.skip(i + 2));
            if is_bind {
                config.bind = arguments[i + 1].clone();
            } else {
                config.db = arguments[i + 1].clone();
            }
            i = i + 2;
        }
        Ok(config)
    }
}

/// An error in words.
pub open spec fn error_message(error: ArgumentErrorView) -> Seq<char> {
    match error {
        ArgumentErrorView::MissingValue(flag) => flag + " requires a value"@,
        ArgumentErrorView::Unknown(argument) => "unknown argument: "@ + argument,
    }
}

impl ArgumentError {
    /// The error in words.
    pub fn message(&self) -> (message: String)
        ensures
            message@ == error_message(self@),
    {
        match self {
            ArgumentError::MissingValue(flag) => flag.clone().concat(" requires a value"),
            ArgumentError::Unknown(argument) => "unknown argument: ".to_owned().concat(
                argument.as_str(),
            ),
        }
    }
}

/// A flag at the end of a command line that is in order wins over what stands before it, and leaves
/// the other setting as it was.
pub proof fn law_last_flag_wins(settings: ConfigView, arguments: Seq<Seq<char>>, value: Seq<char>)
    requires
        configured(settings, arguments) is Ok,
    ensures
        configured(settings, arguments + seq!["--bind"@, value]) == Ok::<ConfigView, ArgumentErrorView>(
            ConfigView { bind: value, ..configured(settings, arguments)->Ok_0 },
        ),
        configured(settings, arguments + seq!["--db"@, value]) == Ok::<ConfigView, ArgumentErrorView>(
            ConfigView { db: value, ..configured(settings, arguments)->Ok_0 },
        ),
    decreases arguments.len(),
{
    reveal_strlit("--bind");
    reveal_strlit("--db");
    let bind = seq!["--bind"@, value];
    let db = seq!["--db"@, value];
    if arguments.len() == 0 {
        assert(arguments + bind =~= bind);
        assert(arguments + db =~= db);
        assert(bind.skip(2) =~= Seq::<Seq<char>>::empty());
        assert(db.skip(2) =~= Seq::<Seq<char>>::empty());
        assert("--bind"@.len() != "--db"@.len());
        reveal_with_fuel(configured, 2);
    } else {
        let next = if arguments[0] == "--bind"@ {
            ConfigView { bind: arguments[1], ..settings }
        } else {
            ConfigView { db: arguments[1], ..settings }
        };
        law_last_flag_wins(next, arguments.skip(2), value);
        assert((arguments + bind).skip(2) =~= arguments.skip(2) + bind);
        assert((arguments + db).skip(2) =~= arguments.skip(2) + db);
    }
}

/// Whether the arguments before `end` are flags, each with its value.
spec fn is_in_order(arguments: Seq<Seq<char>>, end: int) -> bool {
    forall|i: int|
        0 <= i < end && i % 2 == 0 ==> #[trigger] arguments[i] == "--bind"@ || arguments[i]
            == "--db"@
}

/// What a command line comes to, for settings `settings` to begin with.
spec fn comes_to(
    settings: ConfigView,
    arguments: Seq<Seq<char>>,
    result: Result<ConfigView, ArgumentErrorView>,
) -> bool {
    match result {
        Ok(config) => {
            &&& arguments.len() % 2 == 0
            &&& is_in_order(arguments, arguments.len() as int)
            &&& is_set(arguments, "--bind"@, settings.bind, config.bind)
            &&& is_set(arguments, "--db"@, settings.db, config.db)
        },
        Err(ArgumentErrorView::MissingValue(flag)) => {
            &&& arguments.len() % 2 == 1
            &&& is_in_order(arguments, arguments.len() as int)
            &&& flag == arguments.last()
        },
        Err(ArgumentErrorView::Unknown(argument)) => exists|i: int|
            0 <= i < arguments.len() && i % 2 == 0 && is_in_order(arguments, i) && argument
                == #[trigger] arguments[i] && argument != "--bind"@ && argument != "--db"@,
    }
}

/// Whether `value` is what the last `flag` says, or, where there is none, `default`.
spec fn is_set(
    arguments: Seq<Seq<char>>,
    flag: Seq<char>,
    default: Seq<char>,
    value: Seq<char>,
) -> bool {
    if exists|i: int| 0 <= i < arguments.len() && i % 2 == 0 && #[trigger] arguments[i] == flag {
        exists|i: int|
            0 <= i < arguments.len() && i % 2 == 0 && #[trigger] arguments[i] == flag
                && arguments[i + 1] == value && forall|j: int|
                i < j < arguments.len() && j % 2 == 0 ==> #[trigger] arguments[j] != flag
    } else {
        value == default
    }
}

proof fn lemma_is_set(
    arguments: Seq<Seq<char>>,
    flag: Seq<char>,
    default: Seq<char>,
    value: Seq<char>,
)
    requires
        arguments.len() >= 2,
        arguments.len() % 2 == 0,
        is_set(
            arguments.skip(2),
            flag,
            if arguments[0] == flag { arguments[1] } else { default },
            value,
        ),
    ensures
        is_set(arguments, flag, default, value),
{
    let rest = arguments.skip(2);
    assert forall|i: int| 0 <= i < rest.len() implies #[trigger] rest[i] == arguments[i + 2] by {}
    if exists|i: int| 0 <= i < rest.len() && i % 2 == 0 && #[trigger] rest[i] == flag {
        let i = choose|i: int|
            0 <= i < rest.len() && i % 2 == 0 && #[trigger] rest[i] == flag && rest[i + 1] == value
                && forall|j: int|
                i < j < rest.len() && j % 2 == 0 ==> #[trigger] rest[j] != flag;
        assert(arguments[i + 2] == flag);
        assert(rest[i + 1] == arguments[i + 2 + 1]);
        assert forall|j: int| i + 2 < j < arguments.len() && j % 2 == 0 implies #[trigger]
            arguments[j] != flag by {
            assert(rest[j - 2] != flag);
        }
    } else {
        assert forall|j: int| 0 < j < arguments.len() && j % 2 == 0 implies #[trigger] arguments[j]
            != flag by {
            assert(rest[j - 2] != flag);
        }
        if arguments[0] == flag {
            let first: int = 0;
            assert(arguments[first] == flag && arguments[first + 1] == value);
        }
    }
}

proof fn lemma_comes_to(settings: ConfigView, arguments: Seq<Seq<char>>)
    ensures
        comes_to(settings, arguments, configured(settings, arguments)),
    decreases arguments.len(),
{
    reveal_strlit("--bind");
    reveal_strlit("--db");
    assert("--bind"@.len() != "--db"@.len());
    if arguments.len() >= 2 && (arguments[0] == "--bind"@ || arguments[0] == "--db"@) {
        let rest = arguments.skip(2);
        let next = if arguments[0] == "--bind"@ {
            ConfigView { bind: arguments[1], ..settings }
        } else {
            ConfigView { db: arguments[1], ..settings }
        };
        lemma_comes_to(next, rest);
        assert forall|i: int| 0 <= i < rest.len() implies #[trigger] rest[i] == arguments[i
            + 2] by {}
        match configured(next, rest) {
            Ok(config) => {
                lemma_is_set(arguments, "--bind"@, settings.bind, config.bind);
                lemma_is_set(arguments, "--db"@, settings.db, config.db);
                assert forall|i: int| 0 <= i < arguments.len() && i % 2 == 0 implies #[trigger]
                    arguments[i] == "--bind"@ || arguments[i] == "--db"@ by {
                    if i > 0 {
                        assert(rest[i - 2] == arguments[i]);
                    }
                }
            },
            Err(ArgumentErrorView::MissingValue(_)) => {
                assert forall|i: int| 0 <= i < arguments.len() && i % 2 == 0 implies #[trigger]
                    arguments[i] == "--bind"@ || arguments[i] == "--db"@ by {
                    if i > 0 {
                        assert(rest[i - 2] == arguments[i]);
                    }
                }
            },
            Err(ArgumentErrorView::Unknown(argument)) => {
                let i = choose|i: int|
                    0 <= i < rest.len() && i % 2 == 0 && is_in_order(rest, i) && argument
                        == #[trigger] rest[i] && argument != "--bind"@ && argument != "--db"@;
                assert(arguments[i + 2] == argument);
                assert forall|j: int| 0 <= j < i + 2 && j % 2 == 0 implies #[trigger] arguments[j]
                    == "--bind"@ || arguments[j] == "--db"@ by {
                    if j > 0 {
                        assert(rest[j - 2] == arguments[j]);
                    }
                }
            },
        }
    }
}

/// A command line is in order exactly where it is made of pairs, each a `--bind` or a `--db` and its
/// value; the last value of each flag counts, and without one the server listens on port 8080 of the
/// local machine and opens `pennywise.db` in the current directory. An argument that stands where a
/// flag has to, and is none, is named as unknown, the first of them; else a flag at the end without a
/// value is named as lacking it.
pub proof fn law_command_line(arguments: Seq<Seq<char>>)
    ensures
        ({
            let flags = |end: int|
                forall|i: int|
                    0 <= i < end && i % 2 == 0 ==> #[trigger] arguments[i] == "--bind"@
                        || arguments[i] == "--db"@;
            let says = |flag: Seq<char>, default: Seq<char>, value: Seq<char>|
                if exists|i: int|
                    0 <= i < arguments.len() && i % 2 == 0 && #[trigger] arguments[i] == flag {
                    exists|i: int|
                        0 <= i < arguments.len() && i % 2 == 0 && #[trigger] arguments[i] == flag
                            && arguments[i + 1] == value && forall|j: int|
                            i < j < arguments.len() && j % 2 == 0 ==> #[trigger] arguments[j]
                                != flag
                } else {
                    value == default
                };
            match configured(default_settings(), arguments) {
                Ok(config) => {
                    &&& arguments.len() % 2 == 0
                    &&& flags(arguments.len() as int)
                    &&& says("--bind"@, "127.0.0.1:8080"@, config.bind)
                    &&& says("--db"@, "./pennywise.db"@, config.db)
                },
                Err(ArgumentErrorView::MissingValue(flag)) => {
                    &&& arguments.len() % 2 == 1
                    &&& flags(arguments.len() as int)
                    &&& flag == arguments.last()
                    &&& error_message(ArgumentErrorView::MissingValue(flag)) == flag
                        + " requires a value"@
                },
                Err(ArgumentErrorView::Unknown(argument)) => {
                    &&& exists|i: int|
                        0 <= i < arguments.len() && i % 2 == 0 && flags(i) && argument
                            == #[trigger] arguments[i] && argument != "--bind"@ && argument
                            != "--db"@
                    &&& error_message(ArgumentErrorView::Unknown(argument))
                        == "unknown argument: "@ + argument
                },
            }
        }),
{
    lemma_comes_to(default_settings(), arguments);
    if let Err(ArgumentErrorView::Unknown(argument)) = configured(default_settings(), arguments) {
        let i = choose|i: int|
            0 <= i < arguments.len() && i % 2 == 0 && is_in_order(arguments, i) && argument
                == #[trigger] arguments[i] && argument != "--bind"@ && argument != "--db"@;
        assert(argument == arguments[i] && is_in_order(arguments, i));
    }
}

/// Arguments, settings and errors are seen as the characters that they are made of.
pub proof fn law_settings_are_seen_as_they_are(
    arguments: Seq<String>,
    i: int,
    config: Config,
    error: ArgumentError,
)
    requires
        0 <= i < arguments.len(),
    ensures
        argument_texts(arguments).len() == arguments.len(),
        argument_texts(arguments)[i] == arguments[i]@,
        config@.bind == config.bind@,
        config@.db == config.db@,
        match error {
            ArgumentError::MissingValue(flag) => error@ == ArgumentErrorView::MissingValue(flag@),
            ArgumentError::Unknown(argument) => error@ == ArgumentErrorView::Unknown(argument@),
        },
{
}

} // verus!
