//! Command dispatch: a ping always answers with a pong; a command invocation
//! is looked up by exact name among the registered commands and answered with
//! one entry of that command's word list, drawn at random.

use vstd::prelude::*;
use rand::Rng;
use crate::envelope::Interaction;
use crate::encode::InteractionResponse;

verus! {

/// One registered command: its name and the word list it draws from.
pub struct CommandEntry {
    pub name: Vec<u8>,
    pub words: Vec<Vec<u8>>,
}

/// The registered set of commands, fixed before requests are served.
pub struct CommandRegistry {
    pub entries: Vec<CommandEntry>,
}

/// Dispatch failure: the invocation names no registered command.
#[derive(Debug, PartialEq, Eq)]
pub enum DispatchError {
    UnknownCommand(Vec<u8>),
}

/// Index of the first registered command with the given name.
pub open spec fn s_lookup(entries: Seq<CommandEntry>, name: Seq<u8>) -> Option<int>
    decreases entries.len(),
{
    if entries.len() == 0 {
        None
    } else if entries[0].name@ == name {
        Some(0)
    } else {
        match s_lookup(entries.drop_first(), name) {
            None => None,
            Some(k) => Some(k + 1),
        }
    }
}

/// The word list of the first registered command with the given name.
pub open spec fn s_words_of(entries: Seq<CommandEntry>, name: Seq<u8>) -> Seq<Vec<u8>>
    recommends
        s_lookup(entries, name) is Some,
{
    entries[s_lookup(entries, name).unwrap()].words@
}

/// `content` is one of the words of the first registered command with the
/// given name.
pub open spec fn s_is_word(entries: Seq<CommandEntry>, name: Seq<u8>, content: Seq<u8>) -> bool {
    exists|k: int|
        0 <= k < s_words_of(entries, name).len() && content == s_words_of(entries, name)[k]@
}

impl CommandRegistry {
    /// Every registered command has at least one word to draw from.
    pub open spec fn wf(&self) -> bool {
        forall|k: int| 0 <= k < self.entries@.len() ==> self.entries@[k].words@.len() > 0
    }

    /// An empty registry.
    pub fn new() -> (r: CommandRegistry)
        ensures
            r.wf(),
            r.entries@.len() == 0,
    {
        CommandRegistry { entries: Vec::new() }
    }

    /// Register a command.  A word list is never empty: a registered command
    /// must always have an answer to draw.
    pub fn add_command(&mut self, name: Vec<u8>, words: Vec<Vec<u8>>)
        requires
            old(self).wf(),
            words@.len() > 0,
        ensures
            final(self).wf(),
            final(self).entries@ == old(self).entries@.push(
                CommandEntry { name: name, words: words },
            ),
    {
        self.entries.push(CommandEntry { name, words });
    }
}

/// `a` and `b` hold the same bytes.
pub fn bytes_eq(a: &Vec<u8>, b: &Vec<u8>) -> (r: bool)
    ensures
        r == (a@ == b@),
{
    if a.len() != b.len() {
        proof {
            if a@ == b@ {
                assert(a@.len() == b@.len());
            }
        }
        return false;
    }
    let mut k: usize = 0;
    while k < a.len()
        invariant
            k <= a@.len(),
            a@.len() == b@.len(),
            forall|p: int| 0 <= p < k ==> a@[p] == b@[p],
        decreases a@.len() - k,
    {
        if a[k] != b[k] {
            proof {
                if a@ == b@ {
                    assert(a@[k as int] == b@[k as int]);
                }
            }
            return false;
        }
        k = k + 1;
    }
    proof {
        assert(a@ =~= b@);
    }
    true
}

/// Relies on `rand::thread_rng` and `rand::Rng::gen_range`: one draw from a
/// freshly seeded task-local generator.  Nothing is promised of which index
/// comes back, only that it is in range; the draw is stateless per call.
#[verifier::external_body]
fn random_index(len: usize) -> (r: usize)
    requires
        len > 0,
    ensures
        r < len,
{
    rand::thread_rng().gen_range(0..len)
}

/// Answer a command invocation: the first registered command bearing `name`
/// answers with one of its words; an unregistered name is a dispatch
/// failure carrying the name.
#[verifier::loop_isolation(false)]
pub fn run_command(name: &Vec<u8>, registry: &CommandRegistry) -> (r: Result<
    InteractionResponse,
    DispatchError,
>)
    requires
        registry.wf(),
    ensures
        s_lookup(registry.entries@, name@) is None ==> (r matches Err(
            DispatchError::UnknownCommand(n),
        ) && n@ == name@),
        s_lookup(registry.entries@, name@) is Some ==> (r matches Ok(
            InteractionResponse::ChannelMessageWithSource { content },
        ) && s_is_word(registry.entries@, name@, content@)),
{
    let mut idx: usize = 0;
    proof {
        assert(registry.entries@.skip(0) =~= registry.entries@);
    }
    while idx < registry.entries.len()
        invariant
            idx <= registry.entries@.len(),
            forall|p: int| 0 <= p < idx ==> registry.entries@[p].name@ != name@,
            s_lookup(registry.entries@, name@) == (match s_lookup(
                registry.entries@.skip(idx as int),
                name@,
            ) {
                None => None::<int>,
                Some(k) => Some(k + idx),
            }),
        decreases registry.entries@.len() - idx,
    {
        proof {
            assert(registry.entries@.skip(idx as int).len() > 0);
            assert(registry.entries@.skip(idx as int)[0] == registry.entries@[idx as int]);
            assert(registry.entries@.skip(idx as int).drop_first() =~= registry.entries@.skip(
                idx as int + 1,
            ));
        }
        if bytes_eq(&registry.entries[idx].name, name) {
            let words = &registry.entries[idx].words;
            proof {
                assert(registry.entries@[idx as int].words@.len() > 0);
            }
            let w = random_index(words.len());
            let mut content: Vec<u8> = Vec::new();
            let picked = &words[w];
            let mut k: usize = 0;
            while k < picked.len()
                invariant
                    k <= picked@.len(),
                    content@ == picked@.take(k as int),
                decreases picked@.len() - k,
            {
                content.push(picked[k]);
                proof {
                    assert(content@ =~= picked@.take(k + 1 as int));
                }
                k = k + 1;
            }
            proof {
                assert(picked@.take(picked@.len() as int) =~= picked@);
                assert(s_lookup(registry.entries@.skip(idx as int), name@) == Some(0int));
                assert(s_lookup(registry.entries@, name@) == Some(idx as int));
                assert(content@ == registry.entries@[idx as int].words@[w as int]@);
                assert(s_words_of(registry.entries@, name@) == registry.entries@[idx as int].words@);
                assert((w as int) < s_words_of(registry.entries@, name@).len() && content@
                    == s_words_of(registry.entries@, name@)[w as int]@);
                assert(s_is_word(registry.entries@, name@, content@));
            }
            return Ok(InteractionResponse::ChannelMessageWithSource { content });
        }
        idx = idx + 1;
    }
    proof {
        assert(registry.entries@.skip(idx as int).len() == 0);
    }
    let mut n: Vec<u8> = Vec::new();
    let mut k: usize = 0;
    while k < name.len()
        invariant
            k <= name@.len(),
            n@ == name@.take(k as int),
        decreases name@.len() - k,
    {
        n.push(name[k]);
        proof {
            assert(n@ =~= name@.take(k + 1 as int));
        }
        k = k + 1;
    }
    proof {
        assert(name@.take(name@.len() as int) =~= name@);
    }
    Err(DispatchError::UnknownCommand(n))
}

/// Dispatch one decoded interaction against the registered commands.  A ping
/// always yields a pong; a command invocation yields a channel message whose
/// content is one of the named command's words, or an unknown-command failure
/// when no registered command bears the name.
pub fn dispatch(interaction: &Interaction, registry: &CommandRegistry) -> (r: Result<
    InteractionResponse,
    DispatchError,
>)
    requires
        registry.wf(),
    ensures
        *interaction is Ping ==> r == Ok::<InteractionResponse, DispatchError>(
            InteractionResponse::Pong,
        ),
        *interaction matches Interaction::ApplicationCommand { name } ==> (s_lookup(
            registry.entries@,
            name@,
        ) is None ==> (r matches Err(DispatchError::UnknownCommand(n)) && n@ == name@)),
        *interaction matches Interaction::ApplicationCommand { name } ==> (s_lookup(
            registry.entries@,
            name@,
        ) is Some ==> (r matches Ok(
            InteractionResponse::ChannelMessageWithSource { content },
        ) && s_is_word(registry.entries@, name@, content@))),
{
    match interaction {
        Interaction::Ping => Ok(InteractionResponse::Pong),
        Interaction::ApplicationCommand { name } => run_command(name, registry),
    }
}

} // verus!
