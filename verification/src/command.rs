//! Reading a chat message as a command of the bot.

use crate::text::{parse_i64, parsed_i64, same_text, split_words, texts, words};
use vstd::prelude::*;
use vstd::string::*;

verus! {

/// What a message asks the bot to do.
#[derive(Debug, PartialEq, Eq)]
pub enum Command {
    /// The message is no command.
    Ignore,
    /// `!cs`: show the country leaderboard of a beatmap.
    CountryScores { beatmap_id: String },
    /// `!cs` without anything to take as a beatmap.
    CountryScoresUsage,
    /// `!rsc`: show the country leaderboard of the beatmap that a user played
    /// last. An empty `user` stands for the sender's connected account.
    RecentScore { user: String },
    /// `!connect`: connect the sender to an osu! account.
    Connect { osu_id: i64 },
    /// `!connect` with something that is no account number.
    ConnectInvalid,
    /// `!connect` without anything to take as an account number.
    ConnectUsage,
}

/// What a command holds.
pub enum CommandView {
    Ignore,
    CountryScores { beatmap_id: Seq<char> },
    CountryScoresUsage,
    RecentScore { user: Seq<char> },
    Connect { osu_id: i64 },
    ConnectInvalid,
    ConnectUsage,
}

impl View for Command {
    type V = CommandView;

    open spec fn view(&self) -> CommandView {
        match *self {
            Command::Ignore => CommandView::Ignore,
            Command::CountryScores { beatmap_id } => CommandView::CountryScores {
                beatmap_id: beatmap_id@,
            },
            Command::CountryScoresUsage => CommandView::CountryScoresUsage,
            Command::RecentScore { user } => CommandView::RecentScore { user: user@ },
            Command::Connect { osu_id } => CommandView::Connect { osu_id },
            Command::ConnectInvalid => CommandView::ConnectInvalid,
            Command::ConnectUsage => CommandView::ConnectUsage,
        }
    }
}

/// Whether `s` begins with `prefix`.
pub open spec fn starts_with(s: Seq<char>, prefix: Seq<char>) -> bool {
    s.len() >= prefix.len() && s.take(prefix.len() as int) == prefix
}

/// The user that the words of a `!rsc` message name: the last word, unless it
/// is the argument of `-m`, a flag, or the command itself.
pub open spec fn recent_user(args: Seq<Seq<char>>) -> Seq<char> {
    if args.len() == 0 {
        Seq::empty()
    } else if args.len() >= 2 && args[args.len() - 2] == seq!['-', 'm'] {
        Seq::empty()
    } else if starts_with(args.last(), seq!['-']) || args.last() == seq!['!', 'r', 's', 'c'] {
        Seq::empty()
    } else {
        args.last()
    }
}

/// The command that a message with the given words is. A command is known
/// by how the message begins; its argument is the last word.
pub open spec fn command_from(content: Seq<char>, args: Seq<Seq<char>>) -> CommandView {
    if starts_with(content, seq!['!', 'c', 's']) {
        if args.len() == 0 {
            CommandView::CountryScoresUsage
        } else {
            CommandView::CountryScores { beatmap_id: args.last() }
        }
    } else if starts_with(content, seq!['!', 'r', 's', 'c']) {
        CommandView::RecentScore { user: recent_user(args) }
    } else if starts_with(content, seq!['!', 'c', 'o', 'n', 'n', 'e', 'c', 't']) {
        if args.len() == 0 {
            CommandView::ConnectUsage
        } else {
            match parsed_i64(args.last()) {
                Some(osu_id) => CommandView::Connect { osu_id },
                None => CommandView::ConnectInvalid,
            }
        }
    } else {
        CommandView::Ignore
    }
}

/// The command that a message is: the one that its words make.
pub open spec fn command_of(content: Seq<char>) -> CommandView {
    command_from(content, words(content))
}

/// Whether `s` begins with `prefix`.
pub fn has_prefix(s: &str, prefix: &str) -> (r: bool)
    ensures
        r == starts_with(s@, prefix@),
{
    let n: usize = prefix.unicode_len();
    if s.unicode_len() < n {
        return false;
    }
    let mut i: usize = 0;
    while i < n
        invariant
            i <= n,
            n == prefix@.len(),
            n <= s@.len(),
            forall|j: int| 0 <= j < i ==> s@[j] == prefix@[j],
        decreases n - i,
    {
        if s.get_char(i) != prefix.get_char(i) {
            assert(s@.take(n as int)[i as int] != prefix@[i as int]);
            return false;
        }
        i = i + 1;
    }
    assert(s@.take(n as int) =~= prefix@);
    true
}

/// Picks the user that the words of a `!rsc` message name, or the empty
/// text where they name none.
pub fn recent_user_argument(args: &Vec<String>) -> (user: String)
    ensures
        user@ == recent_user(texts(args@)),
{
    proof {
        reveal_strlit("-m");
        reveal_strlit("-");
        reveal_strlit("!rsc");
        assert("-m"@ =~= seq!['-', 'm']);
        assert("-"@ =~= seq!['-']);
        assert("!rsc"@ =~= seq!['!', 'r', 's', 'c']);
        assert(texts(args@).len() == args@.len());
    }
    let n: usize = args.len();
    if n == 0 {
        return String::new();
    }
    assert(texts(args@).last() == args@[n - 1]@);
    if n >= 2 {
        assert(texts(args@)[n - 2] == args@[n - 2]@);
        if same_text(args[n - 2].as_str(), "-m") {
            return String::new();
        }
    }
    let last = args[n - 1].as_str();
    if has_prefix(last, "-") || same_text(last, "!rsc") {
        String::new()
    } else {
        String::from_str(last)
    }
}

/// Reads the command out of a message and its words.
pub fn command_from_words(content: &str, args: &Vec<String>) -> (command: Command)
    ensures
        command@ == command_from(content@, texts(args@)),
{
    proof {
        reveal_strlit("!cs");
        reveal_strlit("!rsc");
        reveal_strlit("!connect");
        assert("!cs"@ =~= seq!['!', 'c', 's']);
        assert("!rsc"@ =~= seq!['!', 'r', 's', 'c']);
        assert("!connect"@ =~= seq!['!', 'c', 'o', 'n', 'n', 'e', 'c', 't']);
    }
    let n: usize = args.len();
    proof {
        assert(texts(args@).len() == args@.len());
        if n > 0 {
            assert(texts(args@).last() == args@[n - 1]@);
        }
    }
    if has_prefix(content, "!cs") {
        if n == 0 {
            Command::CountryScoresUsage
        } else {
            Command::CountryScores { beatmap_id: String::from_str(args[n - 1].as_str()) }
        }
    } else if has_prefix(content, "!rsc") {
        Command::RecentScore { user: recent_user_argument(args) }
    } else if has_prefix(content, "!connect") {
        if n == 0 {
            Command::ConnectUsage
        } else {
            match parse_i64(args[n - 1].as_str()) {
                Some(osu_id) => Command::Connect { osu_id },
                None => Command::ConnectInvalid,
            }
        }
    } else {
        Command::Ignore
    }
}

/// Reads a chat message as a command.
pub fn parse_command(content: &str) -> (command: Command)
    ensures
        command@ == command_of(content@),
{
    let args = split_words(content);
    command_from_words(content, &args)
}

} // verus!
