//! The command dispatcher: parses chat messages, routes them, and renders
//! replies, including the paginated clip listing.

use vstd::prelude::*;
use crate::catalog::SoundCatalog;
use crate::orchestrator::Outcome;
use crate::util::str_eq;

verus! {

/// A parsed user request.
#[derive(Debug, PartialEq, Eq)]
pub enum Command {
    /// Play the clip with this name.
    PlayNamed(String),
    /// Play a clip picked at random from the catalog.
    PlayRandom,
    /// List every clip name the catalog holds.
    ListSounds,
}

/// What the dispatcher decided to do with a command.
#[derive(Debug, PartialEq, Eq)]
pub enum Plan {
    /// Send this reply and do nothing else.
    Reply(String),
    /// Ask the orchestrator to play a clip: target voice channel, clip
    /// name, and whether the name was picked at random.
    StartPlay(u64, String, bool),
    /// Render the catalog listing and send it.
    ShowList,
}

/// Dispatches inbound chat messages: only messages that start with the
/// configured prefix character are commands; everything else is ignored.
pub struct Handler {
    /// The command prefix character.
    pub prefix: char,
}

impl Handler {
    /// A dispatcher for the given command prefix character.
    pub fn new(prefix: char) -> (h: Handler)
        ensures
            h.prefix == prefix,
    {
        Handler { prefix }
    }

    /// Parses a raw chat message. Messages without the prefix, and
    /// messages of the prefix alone, are no commands and are ignored.
    /// After the prefix, `list` and `help` ask for the listing, `random`
    /// for a random clip, and anything else names a clip.
    pub fn parse(&self, content: &str) -> (r: Option<Command>)
        ensures
            ({
                let s = content@;
                let rest = s.subrange(1, s.len() as int);
                &&& (s.len() < 2 || s[0] != self.prefix) ==> r is None
                &&& s.len() >= 2 && s[0] == self.prefix ==> {
                    if rest == "list"@ || rest == "help"@ {
                        r == Some(Command::ListSounds)
                    } else if rest == "random"@ {
                        r == Some(Command::PlayRandom)
                    } else {
                        r matches Some(c) && c matches Command::PlayNamed(n) && n@ == rest
                    }
                }
            }),
    {
        let n = content.unicode_len();
        if n < 2 {
            return None;
        }
        if content.get_char(0) != self.prefix {
            return None;
        }
        let rest = content.substring_char(1, n);
        if str_eq(rest, "list") || str_eq(rest, "help") {
            Some(Command::ListSounds)
        } else if str_eq(rest, "random") {
            Some(Command::PlayRandom)
        } else {
            Some(Command::PlayNamed(String::from_str(rest)))
        }
    }

    /// Handles one inbound chat message end to end: parse, then route.
    /// A message that is no command yields no plan and is ignored.
    pub fn handle(&self, content: &str, voice_channel: Option<u64>, catalog: &SoundCatalog) -> (r:
        Option<Plan>)
        ensures
            ({
                let s = content@;
                let rest = s.subrange(1, s.len() as int);
                &&& (s.len() < 2 || s[0] != self.prefix) ==> r is None
                &&& s.len() >= 2 && s[0] == self.prefix ==> {
                    if rest == "list"@ || rest == "help"@ {
                        r == Some(Plan::ShowList)
                    } else if voice_channel is None {
                        r matches Some(p) && p matches Plan::Reply(t) && t@
                            == "You're not in a voice channel!"@
                    } else if rest == "random"@ && catalog@.len() == 0 {
                        r matches Some(p) && p matches Plan::Reply(t) && t@
                            == "There are no sound files to choose from! Please add some to the sounds directory."@
                    } else if rest == "random"@ {
                        r matches Some(p) && p matches Plan::StartPlay(ch, name, random) && ch
                            == voice_channel->0 && catalog.has(name@) && random
                    } else {
                        r matches Some(p) && p matches Plan::StartPlay(ch, name, random) && ch
                            == voice_channel->0 && name@ == rest && !random
                    }
                }
            }),
    {
        match self.parse(content) {
            None => None,
            Some(cmd) => Some(self.plan(&cmd, voice_channel, catalog)),
        }
    }

    /// Routes a parsed command. A play request needs the caller's current
    /// voice channel; without one the dispatcher replies instead of
    /// invoking the orchestrator. A random pick over an empty catalog is
    /// likewise answered with a reply and nothing is played.
    pub fn plan(&self, cmd: &Command, voice_channel: Option<u64>, catalog: &SoundCatalog) -> (p:
        Plan)
        ensures
            cmd == Command::ListSounds ==> p == Plan::ShowList,
            (cmd is PlayNamed || cmd is PlayRandom) && voice_channel is None ==> (p matches
                Plan::Reply(s) && s@ == "You're not in a voice channel!"@),
            cmd matches Command::PlayNamed(n) ==> (voice_channel is Some ==> (p matches
                Plan::StartPlay(ch, name, random) && ch == voice_channel->0 && name@ == n@
                && !random)),
            cmd is PlayRandom && voice_channel is Some && catalog@.len() == 0 ==> (p matches
                Plan::Reply(s) && s@
                == "There are no sound files to choose from! Please add some to the sounds directory."@),
            cmd is PlayRandom && voice_channel is Some && catalog@.len() > 0 ==> (p matches
                Plan::StartPlay(ch, name, random) && ch == voice_channel->0 && catalog.has(name@)
                && random),
    {
        match cmd {
            Command::ListSounds => Plan::ShowList,
            Command::PlayNamed(n) => {
                match voice_channel {
                    None => Plan::Reply(String::from_str("You're not in a voice channel!")),
                    Some(ch) => Plan::StartPlay(ch, n.clone(), false),
                }
            },
            Command::PlayRandom => {
                match voice_channel {
                    None => Plan::Reply(String::from_str("You're not in a voice channel!")),
                    Some(ch) => {
                        match catalog.pick_random() {
                            Err(_) => Plan::Reply(
                                String::from_str(
                                    "There are no sound files to choose from! Please add some to the sounds directory.",
                                ),
                            ),
                            Ok(name) => Plan::StartPlay(ch, name, true),
                        }
                    },
                }
            },
        }
    }
}

/// The user-facing reply for a playback outcome. Success is silent: a
/// started playback sends nothing; every failure sends exactly one reply.
pub fn reply_for(outcome: &Outcome) -> (r: Option<String>)
    ensures
        outcome == Outcome::Started ==> r is None,
        outcome == Outcome::AlreadyPlaying ==> (r matches Some(s) && s@
            == "Already playing in this server"@),
        outcome matches Outcome::NotFound(n) ==> (r matches Some(s) && s@
            == "Unknown sound: "@ + n@),
        outcome matches Outcome::StreamOpenFailed(e) ==> (r matches Some(s) && s@
            == "Unexpected error occurred: "@ + e@),
        outcome matches Outcome::JoinFailed(e) ==> (r matches Some(s) && s@
            == "Error joining the channel, error: "@ + e@),
{
    match outcome {
        Outcome::Started => None,
        Outcome::AlreadyPlaying => Some(String::from_str("Already playing in this server")),
        Outcome::NotFound(n) => {
            let mut s = String::from_str("Unknown sound: ");
            s.append(n.as_str());
            Some(s)
        },
        Outcome::StreamOpenFailed(e) => {
            let mut s = String::from_str("Unexpected error occurred: ");
            s.append(e.as_str());
            Some(s)
        },
        Outcome::JoinFailed(e) => {
            let mut s = String::from_str("Error joining the channel, error: ");
            s.append(e.as_str());
            Some(s)
        },
    }
}

/// The rendered listing text: every name in order, each followed by a
/// newline.
pub open spec fn rendered(names: Seq<Seq<char>>) -> Seq<char>
    decreases names.len(),
{
    if names.len() == 0 {
        Seq::empty()
    } else {
        rendered(names.drop_last()) + names.last() + seq!['\n']
    }
}

/// The concatenation of a batch of messages.
pub open spec fn joined(msgs: Seq<Seq<char>>) -> Seq<char>
    decreases msgs.len(),
{
    if msgs.len() == 0 {
        Seq::empty()
    } else {
        joined(msgs.drop_last()) + msgs.last()
    }
}

/// Renders the clip listing as chat messages, each within the host
/// platform's size limit (counted in characters). Names are packed
/// greedily in order; together the messages spell out exactly the
/// rendered listing, so every name appears exactly once. A listing whose
/// rendering exceeds one message's limit is split into several.
pub fn render_listing(names: &Vec<String>, limit: usize) -> (msgs: Vec<String>)
    requires
        forall|i: int| 0 <= i < names@.len() ==> (#[trigger] names@[i])@.len() + 1 <= limit,
        limit + limit <= usize::MAX,
    ensures
        joined(msgs.deep_view()) == rendered(names.deep_view()),
        forall|i: int| 0 <= i < msgs@.len() ==> (#[trigger] msgs@[i])@.len() <= limit,
        forall|i: int| 0 <= i < msgs@.len() ==> (#[trigger] msgs@[i])@.len() > 0,
        forall|i: int| 0 <= i < msgs@.len() ==> (#[trigger] msgs@[i])@.last() == '\n',
        msgs@.len() == 0 <==> names@.len() == 0,
        rendered(names.deep_view()).len() > limit ==> msgs@.len() >= 2,
{
    let ghost nv = names.deep_view();
    let mut msgs: Vec<String> = Vec::new();
    let mut cur = String::new();
    let mut cur_len: usize = 0;
    let mut i: usize = 0;
    while i < names.len()
        invariant
            i <= names@.len(),
            nv == names.deep_view(),
            forall|k: int| 0 <= k < names@.len() ==> (#[trigger] names@[k])@.len() + 1 <= limit,
            limit + limit <= usize::MAX,
            cur_len == cur@.len(),
            cur_len <= limit,
            i == 0 ==> cur_len == 0 && msgs@.len() == 0,
            i > 0 ==> cur_len > 0,
            cur_len > 0 ==> cur@.last() == '\n',
            joined(msgs.deep_view()) + cur@ == rendered(nv.take(i as int)),
            forall|k: int| 0 <= k < msgs@.len() ==> (#[trigger] msgs@[k])@.len() <= limit,
            forall|k: int| 0 <= k < msgs@.len() ==> (#[trigger] msgs@[k])@.len() > 0,
            forall|k: int| 0 <= k < msgs@.len() ==> (#[trigger] msgs@[k])@.last() == '\n',
        decreases names@.len() - i,
    {
        let name = names[i].as_str();
        let name_len = name.unicode_len();
        if cur_len > 0 && cur_len + name_len + 1 > limit {
            let ghost mprev = msgs.deep_view();
            let full = cur;
            msgs.push(full);
            cur = String::new();
            cur_len = 0;
            proof {
                assert(msgs.deep_view() =~= mprev.push(full@));
                assert(msgs.deep_view().drop_last() =~= mprev);
                assert(joined(msgs.deep_view()) == joined(mprev) + full@);
            }
        }
        let ghost cprev = cur@;
        cur.append(name);
        cur.append("\n");
        proof {
            reveal_strlit("\n");
            assert("\n"@ =~= seq!['\n']);
            assert(cur@ == cprev + name@ + seq!['\n']);
            assert(nv.take(i + 1).drop_last() =~= nv.take(i as int));
            assert(nv.take(i + 1).last() == nv[i as int]);
            assert(rendered(nv.take(i + 1)) == rendered(nv.take(i as int)) + nv[i as int]
                + seq!['\n']);
            assert(joined(msgs.deep_view()) + cur@ == rendered(nv.take(i + 1)));
        }
        cur_len = cur_len + name_len + 1;
        i += 1;
    }
    proof {
        assert(nv.take(nv.len() as int) =~= nv);
    }
    if cur_len > 0 {
        let ghost mprev = msgs.deep_view();
        let full = cur;
        msgs.push(full);
        proof {
            assert(msgs.deep_view() =~= mprev.push(full@));
            assert(msgs.deep_view().drop_last() =~= mprev);
            assert(joined(msgs.deep_view()) == joined(mprev) + full@);
        }
    }
    proof {
        let mv = msgs.deep_view();
        if rendered(nv).len() > limit {
            assert(mv.len() >= 2) by {
                if mv.len() == 0 {
                    assert(rendered(nv).len() == 0);
                } else if mv.len() == 1 {
                    assert(joined(mv) == joined(mv.drop_last()) + mv.last());
                    assert(mv.drop_last().len() == 0);
                    assert(joined(mv.drop_last()).len() == 0);
                    assert(rendered(nv).len() == mv.last().len());
                }
            }
        }
    }
    msgs
}

} // verus!
