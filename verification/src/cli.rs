//! Command line of the daemon.

use vstd::prelude::*;
use crate::text::{chars_of, same_text, views};

verus! {

/// Where the configuration lies unless the command line says otherwise.
pub const DEFAULT_CONFIG_PATH: &'static str = "/etc/tlapix/tlapix.toml";

/// What the command line asks for.
#[derive(Clone, Debug)]
pub struct CliArgs {
    /// Path of the configuration file.
    pub config_path: String,
    /// Whether to print the version and stop.
    pub version: bool,
}

/// What can be wrong with a command line.
#[derive(Clone, Debug)]
pub enum CliError {
    /// `--config` is the last word.
    MissingConfigPath,
    /// A word with a leading dash that means nothing.
    UnknownArgument { argument: String },
}

/// What a command line means.
pub enum Meaning {
    Run { config_path: Seq<char>, version: bool },
    MissingConfigPath,
    UnknownArgument { argument: Seq<char> },
}

/// The meaning of a parse result.
pub open spec fn meaning_of(r: Result<CliArgs, CliError>) -> Meaning {
    match r {
        Ok(args) => Meaning::Run { config_path: args.config_path@, version: args.version },
        Err(CliError::MissingConfigPath) => Meaning::MissingConfigPath,
        Err(CliError::UnknownArgument { argument }) => Meaning::UnknownArgument {
            argument: argument@,
        },
    }
}

/// The word asks for the version.
pub open spec fn is_version_word(word: Seq<char>) -> bool {
    word == "--version"@ || word == "-V"@
}

/// The word announces the path of the configuration.
pub open spec fn is_config_word(word: Seq<char>) -> bool {
    word == "--config"@ || word == "-c"@
}

/// The meaning of the words from `i` on, where the words before have set the path and the
/// version flag. Of several paths the last one counts.
pub open spec fn meaning(args: Seq<Seq<char>>, i: int, path: Seq<char>, version: bool) -> Meaning
    decreases args.len() - i,
{
    if i >= args.len() {
        Meaning::Run { config_path: path, version }
    } else if is_version_word(args[i]) {
        meaning(args, i + 1, path, true)
    } else if is_config_word(args[i]) {
        if i + 1 < args.len() {
            meaning(args, i + 2, args[i + 1], version)
        } else {
            Meaning::MissingConfigPath
        }
    } else if args[i].len() > 0 && args[i][0] == '-' {
        Meaning::UnknownArgument { argument: args[i] }
    } else {
        meaning(args, i + 1, args[i], version)
    }
}

/// Reads the command line, whose first word is the program's own name.
pub fn parse_args(args: &Vec<String>) -> (r: Result<CliArgs, CliError>)
    ensures
        meaning_of(r) == meaning(views(args@), 1, DEFAULT_CONFIG_PATH@, false),
{
    let ghost words = views(args@);
    let mut config_path = String::from_str(DEFAULT_CONFIG_PATH);
    let mut version = false;
    let mut i: usize = 1;
    while i < args.len()
        invariant
            words == views(args@),
            1 <= i,
            meaning(words, i as int, config_path@, version) == meaning(
                words,
                1,
                DEFAULT_CONFIG_PATH@,
                false,
            ),
        decreases args.len() - i,
    {
        let word = args[i].as_str();
        assert(word@ == words[i as int]);
        if same_text(word, "--version") || same_text(word, "-V") {
            version = true;
        } else if same_text(word, "--config") || same_text(word, "-c") {
            i += 1;
            if i < args.len() {
                config_path = args[i].clone();
                assert(config_path@ == words[i as int]);
            } else {
                return Err(CliError::MissingConfigPath);
            }
        } else {
            let chars = chars_of(word);
            if chars.len() > 0 && chars[0] == '-' {
                return Err(CliError::UnknownArgument { argument: args[i].clone() });
            }
            config_path = args[i].clone();
        }
        i += 1;
    }
    Ok(CliArgs { config_path, version })
}

/// A command line is read word by word from the left. To a line that can be run, one more word
/// adds its own meaning: the version, a missing path, an unknown argument, or a path that takes
/// the place of any before.
pub proof fn one_more_word(
    args: Seq<Seq<char>>,
    word: Seq<char>,
    i: int,
    path: Seq<char>,
    version: bool,
)
    requires
        0 <= i <= args.len(),
    ensures
        ({
            let longer = meaning(args.push(word), i, path, version);
            match meaning(args, i, path, version) {
                Meaning::Run { config_path, version } => {
                    &&& word == "--version"@ || word == "-V"@ ==> longer == (Meaning::Run {
                        config_path,
                        version: true,
                    })
                    &&& word == "--config"@ || word == "-c"@ ==> longer is MissingConfigPath
                    &&& word != "--version"@ && word != "-V"@ && word != "--config"@ && word != "-c"@
                        ==> {
                        &&& word.len() > 0 && word[0] == '-' ==> longer
                            == (Meaning::UnknownArgument { argument: word })
                        &&& word.len() == 0 || word[0] != '-' ==> longer == (Meaning::Run {
                            config_path: word,
                            version,
                        })
                    }
                },
                Meaning::MissingConfigPath => longer matches Meaning::Run { config_path, version: v }
                    && config_path == word,
                Meaning::UnknownArgument { argument } => longer == (Meaning::UnknownArgument {
                    argument,
                }),
            }
        }),
    decreases args.len() - i,
{
    lemma_words_differ();
    let longer = args.push(word);
    if i < args.len() {
        assert(longer[i] == args[i]);
        if is_version_word(args[i]) {
            one_more_word(args, word, i + 1, path, true);
        } else if is_config_word(args[i]) {
            if i + 1 < args.len() {
                assert(longer[i + 1] == args[i + 1]);
                one_more_word(args, word, i + 2, args[i + 1], version);
            } else {
                assert(longer[i + 1] == word);
                assert(meaning(longer, i + 2, word, version) == (Meaning::Run {
                    config_path: word,
                    version,
                }));
            }
        } else if args[i].len() > 0 && args[i][0] == '-' {
        } else {
            one_more_word(args, word, i + 1, args[i], version);
        }
    } else {
        assert(longer[i] == word);
        reveal_with_fuel(meaning, 2);
    }
}

proof fn lemma_words_differ()
    ensures
        "--version"@ != "--config"@,
        "--version"@ != "-c"@,
        "-V"@ != "--config"@,
        "-V"@ != "-c"@,
{
    reveal_strlit("--version");
    reveal_strlit("-V");
    reveal_strlit("--config");
    reveal_strlit("-c");
    assert("--version"@.len() == 9 && "--config"@.len() == 8);
    assert("-V"@.len() == 2 && "-c"@.len() == 2);
    assert("-V"@[1] == 'V' && "-c"@[1] == 'c');
}

/// Without any word the daemon is run with the usual path, or with that set before; the path
/// that `--config` announces is the next word, whatever it is, and the version asked for before
/// is still asked for.
pub proof fn announced_path_is_the_next_word(
    args: Seq<Seq<char>>,
    option: Seq<char>,
    word: Seq<char>,
    i: int,
    path: Seq<char>,
    version: bool,
)
    requires
        0 <= i <= args.len(),
        option == "--config"@ || option == "-c"@,
    ensures
        i == args.len() ==> meaning(args, i, path, version) == (Meaning::Run {
            config_path: path,
            version,
        }),
        meaning(args, i, path, version) matches Meaning::Run { config_path, version: v } ==> meaning(
            args.push(option).push(word),
            i,
            path,
            version,
        ) == (Meaning::Run { config_path: word, version: v }),
    decreases args.len() - i,
{
    lemma_words_differ();
    let longer = args.push(option).push(word);
    if i < args.len() {
        assert(longer[i] == args[i]);
        if is_version_word(args[i]) {
            announced_path_is_the_next_word(args, option, word, i + 1, path, true);
        } else if is_config_word(args[i]) {
            if i + 1 < args.len() {
                assert(longer[i + 1] == args[i + 1]);
                announced_path_is_the_next_word(args, option, word, i + 2, args[i + 1], version);
            }
        } else if args[i].len() > 0 && args[i][0] == '-' {
        } else {
            announced_path_is_the_next_word(args, option, word, i + 1, args[i], version);
        }
    } else {
        assert(longer[i] == option && longer[i + 1] == word);
        reveal_with_fuel(meaning, 3);
    }
}

} // verus!
