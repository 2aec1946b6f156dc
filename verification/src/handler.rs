//! Command dispatch: maps each recognized command to its reply, isolates
//! repository failures, and fans announcements out to the configured
//! channels. All storage and transport I/O stays with the caller: query
//! results come in as arguments, outbound lines go out as return values.

use vstd::prelude::*;
use vstd::string::*;

use crate::codefall::{code_line, Code, LookupError, QueryError};
use crate::command::{parse_spec, Command};
use crate::config::ConfigError;
use crate::currency::{cents_str, format_cents};
use crate::trigger::{trigger_end, trigger_pattern_ok, TriggerExtractor};

verus! {

/// The largest cents value that still earns a `Multiple` reply: $1000.00.
/// Anything greater is silently rejected as out-of-range input.
pub const MULTIPLE_CENTS_LIMIT: u64 = 100000;

/// The static help reply around the configured help URL.
pub open spec fn help_reply(help_url: Seq<char>) -> Seq<char> {
    "Pump19 is run by Twisted Pear. Check "@ + help_url
        + " for a list of supported commands."@
}

/// The static bingo reply around the configured bingo URL.
pub open spec fn bingo_reply(bingo_url: Seq<char>) -> Seq<char> {
    "Check out "@ + bingo_url + " for our interactive Trope Bingo cards."@
}

/// The reply when no unclaimed code is available.
pub open spec fn no_codes_reply(codefall_url: Seq<char>) -> Seq<char> {
    "Could not find any unclaimed codes. Visit "@ + codefall_url + " to add new entries"@
}

/// The pipe-separated renderings of the entries from `i` on, each preceded
/// by a separator.
pub open spec fn codefall_tail(codes: Seq<Code>, url: Seq<char>, i: int) -> Seq<char>
    decreases codes.len() - i,
{
    if i < 0 || i >= codes.len() {
        Seq::empty()
    } else {
        " | "@ + code_line(codes[i], url) + codefall_tail(codes, url, i + 1)
    }
}

/// The codefall reply: a fixed prefix and every returned entry, rendered in
/// the repository's order, joined by pipes.
pub open spec fn codefall_reply(codes: Seq<Code>, url: Seq<char>) -> Seq<char>
    recommends
        codes.len() > 0,
{
    "Codefall | "@ + code_line(codes[0], url) + codefall_tail(codes, url, 1)
}

/// The announcement line for a freshly inserted entry.
pub open spec fn announce_line(c: Code, url: Seq<char>) -> Seq<char> {
    "Codefall | "@ + code_line(c, url)
}

/// The fixed multiplier set, in reply order.
pub open spec fn multiplier(i: int) -> nat {
    if i == 0 {
        2
    } else if i == 1 {
        3
    } else if i == 2 {
        4
    } else if i == 3 {
        5
    } else if i == 4 {
        6
    } else if i == 5 {
        7
    } else if i == 6 {
        8
    } else if i == 7 {
        9
    } else if i == 8 {
        10
    } else if i == 9 {
        25
    } else if i == 10 {
        50
    } else {
        100
    }
}

/// The products from multiplier `i` on, each rendered as currency and
/// preceded by a separator.
pub open spec fn multiples_tail(v: nat, i: int) -> Seq<char>
    decreases 12 - i,
{
    if i < 0 || i >= 12 {
        Seq::empty()
    } else {
        " | $"@ + cents_str(multiplier(i) * v) + multiples_tail(v, i + 1)
    }
}

/// The multiple reply: the base value and its product with every member of
/// the multiplier set, in order, each as currency with two fractional
/// digits.
pub open spec fn multiples_reply(v: nat) -> Seq<char> {
    "Multiples of $"@ + cents_str(v) + multiples_tail(v, 0)
}

/// What the dispatcher asks of its caller for one inbound message: nothing,
/// one reply line for the originating channel, or a repository query whose
/// result feeds `handle_codefall`.
#[derive(Debug, PartialEq, Eq)]
pub enum Dispatch {
    NoReply,
    Reply(String),
    QueryCodefall { user: String, limit: u32 },
}

/// Maps recognized commands to replies. Holds the compiled trigger, the
/// configured reference URLs, and the announcement target set; all
/// immutable after construction.
pub struct CommandHandler {
    pub triggers: TriggerExtractor,
    pub help_url: String,
    pub bingo_url: String,
    pub codefall_url: String,
    pub announce: Vec<String>,
}

impl CommandHandler {
    /// Compiles the trigger pattern and assembles the handler. Succeeds
    /// exactly when the pattern compiles; an invalid pattern is a
    /// startup-fatal configuration error, and no partially constructed
    /// handler is ever returned.
    pub fn new(
        trigger_pattern: &str,
        help_url: String,
        bingo_url: String,
        codefall_url: String,
        announce: Vec<String>,
    ) -> (r: Result<CommandHandler, ConfigError>)
        ensures
            r is Ok <==> trigger_pattern_ok(trigger_pattern.spec_bytes()),
            r matches Ok(h) ==> h.triggers.pattern() == trigger_pattern.spec_bytes()
                && h.help_url == help_url
                && h.bingo_url == bingo_url
                && h.codefall_url == codefall_url
                && h.announce == announce,
            r matches Err(e) ==> e == ConfigError::InvalidTriggerPattern,
    {
        match TriggerExtractor::new(trigger_pattern) {
            Some(triggers) => Ok(
                CommandHandler { triggers, help_url, bingo_url, codefall_url, announce },
            ),
            None => Err(ConfigError::InvalidTriggerPattern),
        }
    }

    /// The help reply. Always succeeds, no I/O.
    pub fn handle_help(&self) -> (r: String)
        ensures
            r@ == help_reply(self.help_url@),
    {
        let mut s = String::new();
        s.append("Pump19 is run by Twisted Pear. Check ");
        s.append(self.help_url.as_str());
        s.append(" for a list of supported commands.");
        proof {
            assert(s@ =~= help_reply(self.help_url@));
        }
        s
    }

    /// The bingo reply. Always succeeds, no I/O.
    pub fn handle_bingo(&self) -> (r: String)
        ensures
            r@ == bingo_reply(self.bingo_url@),
    {
        let mut s = String::new();
        s.append("Check out ");
        s.append(self.bingo_url.as_str());
        s.append(" for our interactive Trope Bingo cards.");
        proof {
            assert(s@ =~= bingo_reply(self.bingo_url@));
        }
        s
    }

    /// The codefall reply, from the result of the repository query the
    /// caller ran. A failed query is swallowed: no reply. An empty result
    /// is not an error: the static no-codes reply. Otherwise one line with
    /// every returned entry, in the repository's order.
    pub fn handle_codefall(&self, codes: &Result<Vec<Code>, QueryError>) -> (r: Option<String>)
        ensures
            codes is Err ==> r is None,
            codes matches Ok(cs) ==> (if cs@.len() == 0 {
                r matches Some(t) && t@ == no_codes_reply(self.codefall_url@)
            } else {
                r matches Some(t) && t@ == codefall_reply(cs@, self.codefall_url@)
            }),
    {
        match codes {
            Err(_) => None,
            Ok(cs) => {
                if cs.len() == 0 {
                    let mut s = String::new();
                    s.append("Could not find any unclaimed codes. Visit ");
                    s.append(self.codefall_url.as_str());
                    s.append(" to add new entries");
                    proof {
                        assert(s@ =~= no_codes_reply(self.codefall_url@));
                    }
                    Some(s)
                } else {
                    let mut s = String::new();
                    s.append("Codefall | ");
                    let line = cs[0].render(self.codefall_url.as_str());
                    s.append(line.as_str());
                    let mut i: usize = 1;
                    while i < cs.len()
                        invariant
                            1 <= i <= cs@.len(),
                            codefall_reply(cs@, self.codefall_url@) =~= s@ + codefall_tail(
                                cs@,
                                self.codefall_url@,
                                i as int,
                            ),
                        decreases cs@.len() - i,
                    {
                        s.append(" | ");
                        let line_i = cs[i].render(self.codefall_url.as_str());
                        s.append(line_i.as_str());
                        i = i + 1;
                    }
                    proof {
                        assert(s@ =~= codefall_reply(cs@, self.codefall_url@));
                    }
                    Some(s)
                }
            },
        }
    }

    /// The multiple reply. A base value over $1000.00 earns no reply at
    /// all; otherwise the value and its twelve fixed multiples, each as
    /// currency.
    pub fn handle_multiple(&self, cents: u64) -> (r: Option<String>)
        ensures
            cents > MULTIPLE_CENTS_LIMIT ==> r is None,
            cents <= MULTIPLE_CENTS_LIMIT ==> (r matches Some(t) && t@ == multiples_reply(
                cents as nat,
            )),
    {
        if cents > MULTIPLE_CENTS_LIMIT {
            return None;
        }
        let mut s = String::new();
        s.append("Multiples of $");
        let base = format_cents(cents);
        s.append(base.as_str());
        let mut i: usize = 0;
        while i < 12
            invariant
                i <= 12,
                cents <= MULTIPLE_CENTS_LIMIT,
                multiples_reply(cents as nat) =~= s@ + multiples_tail(cents as nat, i as int),
            decreases 12 - i,
        {
            let m = multiplier_exec(i);
            let p = m * cents;
            s.append(" | $");
            let pc = format_cents(p);
            s.append(pc.as_str());
            i = i + 1;
        }
        proof {
            assert(s@ =~= multiples_reply(cents as nat));
        }
        Some(s)
    }

    /// One inbound chat message, start to finish: trigger extraction, the
    /// grammar, and the per-command replies. A message without the trigger,
    /// an unknown command, and an out-of-range multiple yield nothing; a
    /// codefall command yields the query the caller must run.
    pub fn process_privmsg(&self, nickname: &str, message: &str) -> (r: Dispatch)
        ensures
            trigger_end(self.triggers.pattern(), message.spec_bytes()) is None ==> r
                == Dispatch::NoReply,
            trigger_end(self.triggers.pattern(), message.spec_bytes()) matches Some(e) ==> {
                let cmd = parse_spec(
                    message.spec_bytes().subrange(e, message.spec_bytes().len() as int),
                );
                match cmd {
                    Command::Help => r matches Dispatch::Reply(t) && t@ == help_reply(
                        self.help_url@,
                    ),
                    Command::Bingo => r matches Dispatch::Reply(t) && t@ == bingo_reply(
                        self.bingo_url@,
                    ),
                    Command::Codefall(limit) => r matches Dispatch::QueryCodefall {
                        user,
                        limit: l,
                    } && user@ == nickname@ && l == limit,
                    Command::Multiple(v) => if v > MULTIPLE_CENTS_LIMIT {
                        r == Dispatch::NoReply
                    } else {
                        r matches Dispatch::Reply(t) && t@ == multiples_reply(v as nat)
                    },
                    Command::Unknown => r == Dispatch::NoReply,
                }
            },
    {
        let rest = match self.triggers.extract(message) {
            None => {
                return Dispatch::NoReply;
            },
            Some(rest) => rest,
        };
        match Command::parse(rest) {
            Command::Help => Dispatch::Reply(self.handle_help()),
            Command::Bingo => Dispatch::Reply(self.handle_bingo()),
            Command::Codefall(limit) => Dispatch::QueryCodefall {
                user: rest_to_user(nickname),
                limit,
            },
            Command::Multiple(v) => match self.handle_multiple(v) {
                Some(t) => Dispatch::Reply(t),
                None => Dispatch::NoReply,
            },
            Command::Unknown => Dispatch::NoReply,
        }
    }

    /// The announcement fanout for one inserted entry: the lookup's result
    /// comes in, the outbound lines come out. A key that resolved to no
    /// entry, or a failed lookup, is dropped silently: no sends. Otherwise
    /// one identical line per configured channel, in configured order.
    pub fn announce_codefall(&self, entry: &Result<Code, LookupError>) -> (r: Vec<(String, String)>)
        ensures
            entry is Err ==> r@.len() == 0,
            entry matches Ok(code) ==> r@.len() == self.announce@.len() && (forall|i: int|
                0 <= i < r@.len() ==> r@[i].0@ == self.announce@[i]@ && r@[i].1@ == announce_line(
                    *code,
                    self.codefall_url@,
                )),
    {
        let mut out: Vec<(String, String)> = Vec::new();
        match entry {
            Err(_) => out,
            Ok(code) => {
                let mut line = String::new();
                line.append("Codefall | ");
                let rendered = code.render(self.codefall_url.as_str());
                line.append(rendered.as_str());
                proof {
                    assert(line@ =~= announce_line(*code, self.codefall_url@));
                }
                let mut i: usize = 0;
                while i < self.announce.len()
                    invariant
                        i <= self.announce@.len(),
                        fanout_prefix(
                            out@,
                            self.announce@,
                            announce_line(*code, self.codefall_url@),
                            i as int,
                        ),
                        line@ == announce_line(*code, self.codefall_url@),
                    decreases self.announce@.len() - i,
                {
                    let channel = clone_string(&self.announce[i]);
                    let text = clone_string(&line);
                    out.push((channel, text));
                    i = i + 1;
                }
                out
            },
        }
    }
}

/// The first `i` fanout lines stand, channel for channel, over the
/// announcement list, all with the text `line`.
pub open spec fn fanout_prefix(
    out: Seq<(String, String)>,
    announce: Seq<String>,
    line: Seq<char>,
    i: int,
) -> bool {
    out.len() == i && (forall|j: int| 0 <= j < i ==> out[j].0@ == announce[j]@ && out[j].1@ == line)
}

/// Clones a string, keeping its characters.
fn clone_string(s: &String) -> (r: String)
    ensures
        r@ == s@,
{
    let r = String::from_str(s.as_str());
    r
}

/// Copies `nickname` into the owned user field of a codefall query.
fn rest_to_user(nickname: &str) -> (r: String)
    ensures
        r@ == nickname@,
{
    String::from_str(nickname)
}

/// Picks the multiplier with index `i` from the fixed set.
fn multiplier_exec(i: usize) -> (m: u64)
    requires
        i < 12,
    ensures
        m as nat == multiplier(i as int),
        m <= 100,
{
    if i == 0 {
        2
    } else if i == 1 {
        3
    } else if i == 2 {
        4
    } else if i == 3 {
        5
    } else if i == 4 {
        6
    } else if i == 5 {
        7
    } else if i == 6 {
        8
    } else if i == 7 {
        9
    } else if i == 8 {
        10
    } else if i == 9 {
        25
    } else if i == 10 {
        50
    } else {
        100
    }
}

} // verus!
