//! Podcast clients, told from the user agent that a request carries.

use vstd::prelude::*;
use crate::text::{chars_of, contains, contains_chars};
use crate::user_agents::{USER_AGENTS, USER_AGENT_COUNT};

verus! {

/// The name given to a client whose user agent is missing or not known.
pub const UNKNOWN_CLIENT: &'static str = "Unknown Podcast Client";

/// What is known of a client: its name, and whether it is a bot.
pub struct Identity {
    pub name: Seq<char>,
    pub bot: bool,
}

/// The letters `b`, `o`, `t`, each in either case, stand in `name` at
/// position `at`.
pub open spec fn bot_at(name: Seq<char>, at: int) -> bool {
    &&& 0 <= at
    &&& at + 3 <= name.len()
    &&& (name[at] == 'b' || name[at] == 'B')
    &&& (name[at + 1] == 'o' || name[at + 1] == 'O')
    &&& (name[at + 2] == 't' || name[at + 2] == 'T')
}

/// `name` holds the word "bot", whatever the case of its letters.
pub open spec fn mentions_bot(name: Seq<char>) -> bool {
    exists|at: int| bot_at(name, at)
}

/// The identity of the client called `name`.
pub open spec fn identity(name: Seq<char>) -> Identity {
    Identity { name, bot: mentions_bot(name) }
}

/// The first entry of `table`, from index `from` on, whose pattern stands
/// somewhere in `user_agent`.
pub open spec fn matching_entry(
    table: Seq<(&'static str, &'static str)>,
    user_agent: Seq<char>,
    from: int,
) -> Option<int>
    decreases table.len() - from,
{
    if from < 0 || from >= table.len() {
        None
    } else if contains(user_agent, table[from].0@) {
        Some(from)
    } else {
        matching_entry(table, user_agent, from + 1)
    }
}

/// The name of the client that sends `user_agent`: that of the first entry
/// of the table whose pattern stands in it, if there is one.
pub open spec fn classify(user_agent: Seq<char>) -> Option<Seq<char>> {
    match matching_entry(USER_AGENTS@, user_agent, 0) {
        Some(i) => Some(USER_AGENTS@[i].1@),
        None => None,
    }
}

/// The identity under which a request is counted: that of the client its
/// user agent names, or that of [`UNKNOWN_CLIENT`] where the user agent is
/// missing or names none.
pub open spec fn attributed(user_agent: Option<Seq<char>>) -> Identity {
    match user_agent {
        Some(ua) => match classify(ua) {
            Some(name) => identity(name),
            None => identity(UNKNOWN_CLIENT@),
        },
        None => identity(UNKNOWN_CLIENT@),
    }
}

/// `found` is what a lookup of `user_agent` gives.
pub open spec fn is_lookup_of(found: Option<Client>, user_agent: Seq<char>) -> bool {
    match classify(user_agent) {
        Some(name) => found is Some && found->0@ == identity(name),
        None => found is None,
    }
}

/// The entry that decides is the first, in the order of the table, whose
/// pattern stands in the user agent; where there is none, no pattern does.
pub proof fn lemma_first_match_decides(
    table: Seq<(&'static str, &'static str)>,
    user_agent: Seq<char>,
    from: int,
)
    requires
        0 <= from,
    ensures
        match matching_entry(table, user_agent, from) {
            Some(i) => {
                &&& from <= i < table.len()
                &&& contains(user_agent, table[i].0@)
                &&& forall|j: int| from <= j < i ==> !contains(user_agent, (#[trigger] table[j]).0@)
            },
            None => forall|j: int|
                from <= j < table.len() ==> !contains(user_agent, (#[trigger] table[j]).0@),
        },
    decreases table.len() - from,
{
    if from < table.len() && !contains(user_agent, table[from].0@) {
        lemma_first_match_decides(table, user_agent, from + 1);
    }
}

/// A user agent is always given the same name: two lookups of the same
/// text agree, whenever and in whatever order they are made.
pub proof fn lemma_lookup_deterministic(
    first: Option<Client>,
    second: Option<Client>,
    user_agent: Seq<char>,
)
    requires
        is_lookup_of(first, user_agent),
        is_lookup_of(second, user_agent),
    ensures
        first is Some <==> second is Some,
        first is Some ==> first->0@ == second->0@,
{
}

/// Why a request could not be attributed to a known client.
#[derive(Debug, PartialEq, Eq, Clone, Copy)]
pub enum ClientError {
    /// The request carries no user agent.
    MissingUserAgent,
    /// No pattern of the table stands in the user agent.
    UnknownUserAgent,
}

impl ClientError {
    /// A sentence that says what went wrong.
    pub fn message(&self) -> (text: &'static str)
        ensures
            text@ == match *self {
                ClientError::MissingUserAgent => "Cannot read user agent from request"@,
                ClientError::UnknownUserAgent => "Cannot read user agent"@,
            },
    {
        match self {
            ClientError::MissingUserAgent => "Cannot read user agent from request",
            ClientError::UnknownUserAgent => "Cannot read user agent",
        }
    }
}

/// A podcast client: its name, and whether it is a bot.
#[derive(Debug, PartialEq, Eq, PartialOrd, Ord)]
pub struct Client {
    name: String,
    bot: bool,
}

impl View for Client {
    type V = Identity;

    closed spec fn view(&self) -> Identity {
        Identity { name: self.name@, bot: self.bot }
    }
}

/// Whether `name` holds the word "bot", whatever the case of its letters.
fn names_bot(name: &[char]) -> (found: bool)
    ensures
        found == mentions_bot(name@),
{
    if name.len() < 3 {
        return false;
    }
    let last: usize = name.len() - 3;
    let mut at: usize = 0;
    loop
        invariant
            at <= last,
            last == name@.len() - 3,
            forall|k: int| 0 <= k < at ==> !bot_at(name@, k),
        decreases last - at,
    {
        let b = name[at] == 'b' || name[at] == 'B';
        let o = name[at + 1] == 'o' || name[at + 1] == 'O';
        let t = name[at + 2] == 't' || name[at + 2] == 'T';
        if b && o && t {
            assert(bot_at(name@, at as int));
            return true;
        }
        if at == last {
            return false;
        }
        at += 1;
    }
}

impl Client {
    /// A client is a bot exactly if its name says so.
    #[verifier::type_invariant]
    spec fn consistent(self) -> bool {
        self.bot == mentions_bot(self.name@)
    }

    /// The client called `name`.  It counts as a bot if its name holds the
    /// word "bot", in whatever case.
    pub fn new(name: &str) -> (client: Client)
        ensures
            client@ == identity(name@),
    {
        let chars = chars_of(name);
        let bot = names_bot(chars.as_slice());
        Client { name: name.to_owned(), bot }
    }

    /// The name of the client.
    pub fn name(&self) -> (name: &str)
        ensures
            name@ == self@.name,
    {
        self.name.as_str()
    }

    /// Whether the client is a bot.
    pub fn is_bot(&self) -> (bot: bool)
        ensures
            bot == self@.bot,
            bot == mentions_bot(self@.name),
    {
        proof {
            use_type_invariant(self);
        }
        self.bot
    }
}

/// The client that sends `user_agent`, if the table knows it.
///
/// The patterns are tried in the order of the table, and the first that
/// stands somewhere in `user_agent` decides.
pub fn lookup(user_agent: &str) -> (found: Option<Client>)
    ensures
        is_lookup_of(found, user_agent@),
{
    let agent = chars_of(user_agent);
    let mut i: usize = 0;
    while i < USER_AGENT_COUNT
        invariant
            i <= USER_AGENTS@.len(),
            USER_AGENTS@.len() == USER_AGENT_COUNT,
            agent@ == user_agent@,
            matching_entry(USER_AGENTS@, user_agent@, 0) == matching_entry(
                USER_AGENTS@,
                user_agent@,
                i as int,
            ),
        decreases USER_AGENT_COUNT - i,
    {
        let entry = USER_AGENTS[i];
        let pattern = chars_of(entry.0);
        if contains_chars(agent.as_slice(), pattern.as_slice()) {
            return Some(Client::new(entry.1));
        }
        i += 1;
    }
    None
}

/// The client that sends `user_agent`, or the reason why none can be told.
pub fn from(user_agent: Option<&str>) -> (found: Result<Client, ClientError>)
    ensures
        match user_agent {
            None => found == Err::<Client, ClientError>(ClientError::MissingUserAgent),
            Some(ua) => match classify(ua@) {
                Some(name) => found is Ok && found.unwrap()@ == identity(name),
                None => found == Err::<Client, ClientError>(ClientError::UnknownUserAgent),
            },
        },
{
    match user_agent {
        None => Err(ClientError::MissingUserAgent),
        Some(ua) => match lookup(ua) {
            Some(client) => Ok(client),
            None => Err(ClientError::UnknownUserAgent),
        },
    }
}

/// The client to which a request is attributed.  A request without a user
/// agent, or with one that the table does not know, is attributed to
/// [`UNKNOWN_CLIENT`].
pub fn client(user_agent: Option<&str>) -> (client: Client)
    ensures
        client@ == attributed(
            match user_agent {
                Some(ua) => Some(ua@),
                None => None,
            },
        ),
{
    match from(user_agent) {
        Ok(client) => client,
        Err(_) => Client::new(UNKNOWN_CLIENT),
    }
}

} // verus!
