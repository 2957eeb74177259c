//! Parsing of operator input lines into commands.

use crate::codec::{digits_val, is_digit, lemma_digits_val_prefix_le};
use crate::text::{chars_eq, chars_start_with, chars_suffix, starts_with, str_chars, trim,
    trim_chars};
use vstd::prelude::*;

verus! {

/// One operator command, as dispatched by the coordinator.
pub enum Command {
    ListPeers,
    Chat,
    ListLocal,
    ListAll,
    ListOne(String),
    CreateSong,
    DeleteSong(usize),
    PublishSong(usize),
    PrivateSong(usize),
}

/// The mathematical value of a command.
pub ghost enum CommandView {
    ListPeers,
    Chat,
    ListLocal,
    ListAll,
    ListOne(Seq<char>),
    CreateSong,
    DeleteSong(int),
    PublishSong(int),
    PrivateSong(int),
}

impl View for Command {
    type V = CommandView;

    open spec fn view(&self) -> CommandView {
        match self {
            Command::ListPeers => CommandView::ListPeers,
            Command::Chat => CommandView::Chat,
            Command::ListLocal => CommandView::ListLocal,
            Command::ListAll => CommandView::ListAll,
            Command::ListOne(t) => CommandView::ListOne(t@),
            Command::CreateSong => CommandView::CreateSong,
            Command::DeleteSong(id) => CommandView::DeleteSong(*id as int),
            Command::PublishSong(id) => CommandView::PublishSong(*id as int),
            Command::PrivateSong(id) => CommandView::PrivateSong(*id as int),
        }
    }
}

/// A rejected input line: a non-numeric id, an empty creation field, or
/// an unknown command word.
#[derive(Clone, Copy, Debug, PartialEq, Eq, Structural)]
pub enum CommandInputError {
    InvalidId,
    TooFewFields,
    UnknownCommand,
}

/// The value of an id argument: the whole trimmed token must be decimal
/// digits, and the value must fit in a `usize`.
pub open spec fn parse_id_spec(t: Seq<char>) -> Option<int> {
    if t.len() > 0 && (forall|i: int| 0 <= i < t.len() ==> is_digit(#[trigger] t[i]))
        && digits_val(t) <= usize::MAX as int {
        Some(digits_val(t))
    } else {
        None
    }
}

/// What each trimmed input line means.  Fixed command words are matched
/// first; a `list songs` line with an argument asks the network, without
/// one it lists the local catalog.
pub open spec fn parse_command_spec(line: Seq<char>) -> Result<CommandView, CommandInputError> {
    let t = trim(line);
    if t == "list peers"@ {
        Ok(CommandView::ListPeers)
    } else if t == "chat"@ {
        Ok(CommandView::Chat)
    } else if starts_with(t, "list songs"@) {
        if starts_with(t, "list songs "@) {
            if t.skip(11) == "all"@ {
                Ok(CommandView::ListAll)
            } else {
                Ok(CommandView::ListOne(t.skip(11)))
            }
        } else {
            Ok(CommandView::ListLocal)
        }
    } else if starts_with(t, "create song"@) {
        Ok(CommandView::CreateSong)
    } else if starts_with(t, "delete song"@) {
        match parse_id_spec(trim(t.skip(11))) {
            Some(n) => Ok(CommandView::DeleteSong(n)),
            None => Err(CommandInputError::InvalidId),
        }
    } else if starts_with(t, "publish song"@) {
        match parse_id_spec(trim(t.skip(12))) {
            Some(n) => Ok(CommandView::PublishSong(n)),
            None => Err(CommandInputError::InvalidId),
        }
    } else if starts_with(t, "private song"@) {
        match parse_id_spec(trim(t.skip(12))) {
            Some(n) => Ok(CommandView::PrivateSong(n)),
            None => Err(CommandInputError::InvalidId),
        }
    } else {
        Err(CommandInputError::UnknownCommand)
    }
}

fn eq_lit(cs: &Vec<char>, lit: &str) -> (r: bool)
    ensures
        r == (cs@ == lit@),
{
    let lc = str_chars(lit);
    chars_eq(cs, &lc)
}

/// Reads an id argument.
#[verifier::loop_isolation(false)]
fn parse_id_exec(t: &Vec<char>) -> (r: Option<usize>)
    ensures
        match r {
            Some(n) => parse_id_spec(t@) == Some(n as int),
            None => parse_id_spec(t@) is None,
        },
{
    if t.len() == 0 {
        return None;
    }
    let mut acc: usize = 0;
    let mut i: usize = 0;
    while i < t.len()
        invariant
            i <= t@.len(),
            forall|k: int| 0 <= k < i ==> is_digit(#[trigger] t@[k]),
            acc == digits_val(t@.take(i as int)),
        decreases t@.len() - i,
    {
        let c = t[i];
        if !crate::parse::is_digit_exec(c) {
            return None;
        }
        let d: usize = ((c as u32) - 48) as usize;
        proof {
            assert(t@.take(i as int + 1).drop_last() =~= t@.take(i as int));
            assert(t@.take(i as int + 1).last() == t@[i as int]);
        }
        if acc <= (usize::MAX - d) / 10 {
            proof {
                vstd::arithmetic::div_mod::lemma_fundamental_div_mod((usize::MAX - d) as int, 10);
            }
            acc = acc * 10 + d;
        } else {
            proof {
                vstd::arithmetic::div_mod::lemma_fundamental_div_mod((usize::MAX - d) as int, 10);
                assert(acc * 10 + d > usize::MAX as int);
                assert(digits_val(t@.take(i as int + 1)) > usize::MAX as int);
                if forall|k: int| 0 <= k < t@.len() ==> is_digit(#[trigger] t@[k]) {
                    lemma_digits_val_prefix_le(t@, i as int + 1);
                }
            }
            return None;
        }
        i = i + 1;
    }
    proof {
        assert(t@.take(t@.len() as int) =~= t@);
    }
    Some(acc)
}

/// Reads one operator input line.
pub fn parse_command(line: &str) -> (r: Result<Command, CommandInputError>)
    ensures
        r matches Ok(cmd) ==> parse_command_spec(line@) == Ok::<CommandView, CommandInputError>(
            cmd@,
        ),
        r matches Err(e) ==> parse_command_spec(line@) == Err::<CommandView, CommandInputError>(e),
{
    let lc = str_chars(line);
    let t = trim_chars(&lc);
    if eq_lit(&t, "list peers") {
        Ok(Command::ListPeers)
    } else if eq_lit(&t, "chat") {
        Ok(Command::Chat)
    } else if chars_start_with(&t, "list songs") {
        if chars_start_with(&t, "list songs ") {
            proof {
                reveal_strlit("list songs ");
            }
            let rest = chars_suffix(&t, 11);
            if eq_lit(&rest, "all") {
                Ok(Command::ListAll)
            } else {
                let s = crate::text::chars_to_string(&rest);
                Ok(Command::ListOne(s))
            }
        } else {
            Ok(Command::ListLocal)
        }
    } else if chars_start_with(&t, "create song") {
        Ok(Command::CreateSong)
    } else if chars_start_with(&t, "delete song") {
        proof {
            reveal_strlit("delete song");
        }
        let rest = trim_chars(&chars_suffix(&t, 11));
        match parse_id_exec(&rest) {
            Some(n) => Ok(Command::DeleteSong(n)),
            None => Err(CommandInputError::InvalidId),
        }
    } else if chars_start_with(&t, "publish song") {
        proof {
            reveal_strlit("publish song");
        }
        let rest = trim_chars(&chars_suffix(&t, 12));
        match parse_id_exec(&rest) {
            Some(n) => Ok(Command::PublishSong(n)),
            None => Err(CommandInputError::InvalidId),
        }
    } else if chars_start_with(&t, "private song") {
        proof {
            reveal_strlit("private song");
        }
        let rest = trim_chars(&chars_suffix(&t, 12));
        match parse_id_exec(&rest) {
            Some(n) => Ok(Command::PrivateSong(n)),
            None => Err(CommandInputError::InvalidId),
        }
    } else {
        Err(CommandInputError::UnknownCommand)
    }
}

/// Accepts a song's creation fields only when the three text fields are
/// all non-empty.
pub fn validate_create_fields(title: &String, artist: &String, lyrics: &String) -> (r: Result<
    (),
    CommandInputError,
>)
    ensures
        r is Ok <==> (title@.len() > 0 && artist@.len() > 0 && lyrics@.len() > 0),
        r matches Err(e) ==> e == CommandInputError::TooFewFields,
{
    if title.as_str().is_empty() || artist.as_str().is_empty() || lyrics.as_str().is_empty() {
        Err(CommandInputError::TooFewFields)
    } else {
        Ok(())
    }
}

} // verus!
