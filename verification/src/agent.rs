//! The persona registry: a name-to-prompt lookup with aliases.
//!
//! A lookup matches the canonical names first and the alias sets second,
//! each scanned in registry order; the first match wins. A name that
//! matches nothing yields an error carrying the display list of all
//! personas, canonical names first-listed with their aliases.

use vstd::prelude::*;
use vstd::string::StringExecFns;

use crate::error::AgentError;
use crate::error::AppError;
use crate::sse::strings_view;
use crate::text::chars_to_string;
use crate::text::push_str_chars;

verus! {

/// The mathematical value of an [`Agent`]: its canonical name and its
/// system prompt.
pub struct AgentView {
    pub name: Seq<char>,
    pub system_prompt: Seq<char>,
}

/// A selected persona: a canonical name and the system prompt it stands
/// for. Immutable once constructed.
#[derive(Debug, Clone)]
pub struct Agent {
    name: String,
    system_prompt: String,
}

impl View for Agent {
    type V = AgentView;

    closed spec fn view(&self) -> AgentView {
        AgentView { name: self.name@, system_prompt: self.system_prompt@ }
    }
}

impl Agent {
    /// Builds a persona from its name and prompt.
    pub fn new(name: String, system_prompt: String) -> (a: Agent)
        ensures
            a@.name == name@,
            a@.system_prompt == system_prompt@,
    {
        Agent { name, system_prompt }
    }

    /// The canonical name.
    pub fn name(&self) -> (r: &str)
        ensures
            r@ == self@.name,
    {
        self.name.as_str()
    }

    /// The system prompt.
    pub fn system_prompt(&self) -> (r: &str)
        ensures
            r@ == self@.system_prompt,
    {
        self.system_prompt.as_str()
    }
}

/// The mathematical value of one registry entry: a canonical name, a
/// prompt, and the aliases that also select it.
#[verifier::ext_equal]
pub struct EntryView {
    pub name: Seq<char>,
    pub prompt: Seq<char>,
    pub aliases: Seq<Seq<char>>,
}

/// One entry of the registry.
#[derive(Debug)]
pub struct AgentEntry {
    name: String,
    prompt: String,
    aliases: Vec<String>,
}

impl View for AgentEntry {
    type V = EntryView;

    closed spec fn view(&self) -> EntryView {
        EntryView {
            name: self.name@,
            prompt: self.prompt@,
            aliases: self.aliases@.map_values(|a: String| a@),
        }
    }
}

/// The first entry whose canonical name is `name`, scanned in order.
pub open spec fn first_canonical(entries: Seq<EntryView>, name: Seq<char>) -> Option<EntryView>
    decreases entries.len(),
{
    if entries.len() == 0 {
        None
    } else if entries[0].name == name {
        Some(entries[0])
    } else {
        first_canonical(entries.drop_first(), name)
    }
}

/// Whether `name` is among the aliases of `e`.
pub open spec fn has_alias(e: EntryView, name: Seq<char>) -> bool {
    exists|i: int| 0 <= i < e.aliases.len() && e.aliases[i] == name
}

/// The first entry whose alias set holds `name`, scanned in order.
pub open spec fn first_aliased(entries: Seq<EntryView>, name: Seq<char>) -> Option<EntryView>
    decreases entries.len(),
{
    if entries.len() == 0 {
        None
    } else if has_alias(entries[0], name) {
        Some(entries[0])
    } else {
        first_aliased(entries.drop_first(), name)
    }
}

/// What a lookup of `name` resolves to: the first canonical match, then
/// the first alias match, then nothing.
pub open spec fn resolve_entry(entries: Seq<EntryView>, name: Seq<char>) -> Option<EntryView> {
    match first_canonical(entries, name) {
        Some(e) => Some(e),
        None => first_aliased(entries, name),
    }
}

/// The display text of one entry: the canonical name, with the aliases in
/// parentheses when there are any.
pub open spec fn entry_display(e: EntryView) -> Seq<char> {
    if e.aliases.len() == 0 {
        e.name
    } else {
        e.name + " (or "@ + joined_texts(e.aliases) + ")"@
    }
}

/// Texts joined with a comma and a space.
pub open spec fn joined_texts(texts: Seq<Seq<char>>) -> Seq<char>
    decreases texts.len(),
{
    if texts.len() == 0 {
        Seq::empty()
    } else if texts.len() == 1 {
        texts[0]
    } else {
        joined_texts(texts.drop_last()) + ", "@ + texts.last()
    }
}

/// The entries named `default`, in order.
pub open spec fn default_entries(entries: Seq<EntryView>) -> Seq<EntryView>
    decreases entries.len(),
{
    if entries.len() == 0 {
        Seq::empty()
    } else if entries.last().name == "default"@ {
        default_entries(entries.drop_last()).push(entries.last())
    } else {
        default_entries(entries.drop_last())
    }
}

/// The entries not named `default`, in order.
pub open spec fn other_entries(entries: Seq<EntryView>) -> Seq<EntryView>
    decreases entries.len(),
{
    if entries.len() == 0 {
        Seq::empty()
    } else if entries.last().name == "default"@ {
        other_entries(entries.drop_last())
    } else {
        other_entries(entries.drop_last()).push(entries.last())
    }
}

/// The display texts of the entries, in order.
pub open spec fn displays(entries: Seq<EntryView>) -> Seq<Seq<char>>
    decreases entries.len(),
{
    if entries.len() == 0 {
        Seq::empty()
    } else {
        displays(entries.drop_last()).push(entry_display(entries.last()))
    }
}

/// What listing the registry yields: every entry's display text, the ones
/// named `default` first, the others after, each group in registry order.
pub open spec fn listed_displays(entries: Seq<EntryView>) -> Seq<Seq<char>> {
    displays(default_entries(entries)) + displays(other_entries(entries))
}

/// The built-in default persona's prompt.
pub const DEFAULT_PROMPT: &'static str = "You are a helpful AI assistant. Provide clear, accurate, and helpful responses to user questions.";

/// The built-in solution-architect persona's prompt.
pub const ARCHITECT_PROMPT: &'static str = "You are an expert Solution Architect with deep expertise in software architecture, system design, and enterprise solutions. You provide comprehensive technical guidance on:\n\n- Software Architecture Patterns (microservices, monoliths, serverless, event-driven, etc.)\n- System Design and Scalability (load balancing, caching, database design, distributed systems)\n- Cloud Architecture (AWS, Azure, GCP) and containerization (Docker, Kubernetes)\n- API Design (REST, GraphQL, gRPC) and integration patterns\n- Security Architecture and best practices\n- Performance optimization and monitoring strategies\n- Technology stack recommendations and trade-offs\n- Enterprise architecture frameworks (TOGAF, Zachman)\n- DevOps and CI/CD pipeline design\n- Data architecture and analytics solutions\n\nProvide detailed technical explanations, architectural diagrams descriptions, pros/cons analysis, and practical implementation guidance. Include specific technologies, tools, and best practices in your responses.";

/// The built-in pirate persona's prompt.
pub const PIRATE_PROMPT: &'static str = "Ahoy there, nakama! I'm a spirited pirate inspired by the world of One Piece! ðŸ´â€â˜ ï¸\n\nI embody the true spirit of adventure and freedom that drives every great pirate:\n\nðŸŒŠ **Adventure & Exploration**: I'm always ready to set sail for new horizons! Whether it's discovering uncharted territories, seeking legendary treasures, or embarking on grand adventures, I'll help you explore any topic with boundless enthusiasm and curiosity.\n\nâš“ **Freedom & Dreams**: Like the Straw Hat Pirates, I believe everyone should chase their dreams without limits! I'll encourage you to pursue your goals with unwavering determination and remind you that the impossible is just another word for 'adventure waiting to happen.'\n\nâš”ï¸ **Standing Against Oppression**: I have zero tolerance for injustice! Whether it's unfair systems, bullying, or any form of oppression, I'll always stand with those who fight for what's right. Justice and protecting your nakama (friends) comes first!\n\nðŸ– **Fun & Friendship**: Life's too short to be serious all the time! I bring energy, humor, and the power of friendship to every conversation. We're all crew members on this ship called life!\n\nðŸ’ª **Never Give Up**: Like Luffy always says, I never back down from a challenge! No matter how tough things get, there's always a way forward if you believe in yourself and your crew.\n\nSo, what adventure shall we embark on today, nakama? Let's make it legendary! ðŸŒŸ";

/// The built-in registry: the default persona, the solution architect,
/// and the pirate, with their aliases.
pub open spec fn builtin_entries() -> Seq<EntryView> {
    seq![
        EntryView { name: "default"@, prompt: DEFAULT_PROMPT@, aliases: Seq::empty() },
        EntryView {
            name: "solution-architect"@,
            prompt: ARCHITECT_PROMPT@,
            aliases: seq!["architect"@],
        },
        EntryView {
            name: "pirate-explorer"@,
            prompt: PIRATE_PROMPT@,
            aliases: seq!["pirate"@, "one-piece"@, "straw-hat"@],
        },
    ]
}

/// The registry of personas, an immutable value built once at startup.
#[derive(Debug)]
pub struct AgentManager {
    entries: Vec<AgentEntry>,
}

impl View for AgentManager {
    type V = Seq<EntryView>;

    closed spec fn view(&self) -> Seq<EntryView> {
        self.entries@.map_values(|e: AgentEntry| e@)
    }
}

impl AgentManager {
    /// Builds the registry of built-in personas.
    pub fn new() -> (m: AgentManager)
        ensures
            m@ == builtin_entries(),
    {
        let mut entries: Vec<AgentEntry> = Vec::new();
        entries.push(
            AgentEntry {
                name: String::from_str("default"),
                prompt: String::from_str(DEFAULT_PROMPT),
                aliases: Vec::new(),
            },
        );
        let mut architect_aliases: Vec<String> = Vec::new();
        architect_aliases.push(String::from_str("architect"));
        entries.push(
            AgentEntry {
                name: String::from_str("solution-architect"),
                prompt: String::from_str(ARCHITECT_PROMPT),
                aliases: architect_aliases,
            },
        );
        let mut pirate_aliases: Vec<String> = Vec::new();
        pirate_aliases.push(String::from_str("pirate"));
        pirate_aliases.push(String::from_str("one-piece"));
        pirate_aliases.push(String::from_str("straw-hat"));
        entries.push(
            AgentEntry {
                name: String::from_str("pirate-explorer"),
                prompt: String::from_str(PIRATE_PROMPT),
                aliases: pirate_aliases,
            },
        );
        let m = AgentManager { entries };
        proof {
            assert(m@.len() == 3);
            assert(m@[0].aliases =~= builtin_entries()[0].aliases);
            assert(m@[1].aliases =~= builtin_entries()[1].aliases);
            assert(m@[2].aliases =~= builtin_entries()[2].aliases);
            assert(m@ =~~= builtin_entries());
        }
        m
    }

    /// Resolves a persona name: the first canonical match wins, then the
    /// first alias match; an unknown name yields the not-found error
    /// carrying the display list of every persona.
    pub fn get_agent(&self, agent_name: &str) -> (r: Result<Agent, AppError>)
        ensures
            resolve_entry(self@, agent_name@) matches Some(e) ==> (r matches Ok(a) && a@.name
                == e.name && a@.system_prompt == e.prompt),
            resolve_entry(self@, agent_name@) is None ==> (r matches Err(err) && err matches
                AppError::Agent(AgentError::NotFound { name, available }) && name@ == agent_name@
                && available@ == joined_texts(listed_displays(self@))),
    {
        let ghost nm: Seq<char> = agent_name@;
        let n = self.entries.len();
        let mut i: usize = 0;
        proof {
            assert(self@.skip(0) =~= self@);
        }
        while i < n
            invariant
                n == self@.len(),
                i <= n,
                first_canonical(self@, nm) == first_canonical(self@.skip(i as int), nm),
                nm == agent_name@,
            decreases n - i,
        {
            proof {
                assert(self@.skip(i as int)[0] == self@[i as int]);
                assert(self@.skip(i as int).drop_first() =~= self@.skip(i + 1));
            }
            let e = &self.entries[i];
            if str_eq(e.name.as_str(), agent_name) {
                return Ok(Agent::new(e.name.clone(), e.prompt.clone()));
            }
            i = i + 1;
        }
        proof {
            assert(self@.skip(n as int) =~= Seq::<EntryView>::empty());
        }
        let mut j: usize = 0;
        proof {
            assert(self@.skip(0) =~= self@);
        }
        while j < n
            invariant
                n == self@.len(),
                j <= n,
                first_canonical(self@, nm) is None,
                first_aliased(self@, nm) == first_aliased(self@.skip(j as int), nm),
                nm == agent_name@,
            decreases n - j,
        {
            proof {
                assert(self@.skip(j as int)[0] == self@[j as int]);
                assert(self@.skip(j as int).drop_first() =~= self@.skip(j + 1));
            }
            let e = &self.entries[j];
            if entry_has_alias(e, agent_name) {
                return Ok(Agent::new(e.name.clone(), e.prompt.clone()));
            }
            j = j + 1;
        }
        proof {
            assert(self@.skip(n as int) =~= Seq::<EntryView>::empty());
        }
        let list = self.list_agents();
        let mut joined: Vec<char> = Vec::new();
        let k_max = list.len();
        let mut k: usize = 0;
        proof {
            assert(joined@ =~= joined_texts(strings_view(list@).take(0)));
        }
        while k < k_max
            invariant
                k_max == list@.len(),
                k <= k_max,
                joined@ == joined_texts(strings_view(list@).take(k as int)),
                strings_view(list@) == listed_displays(self@),
            decreases k_max - k,
        {
            let ghost texts = strings_view(list@);
            if k > 0 {
                push_str_chars(&mut joined, ", ");
            }
            push_str_chars(&mut joined, list[k].as_str());
            proof {
                assert(texts.take(k + 1).drop_last() =~= texts.take(k as int));
                assert(texts.take(k + 1).last() == texts[k as int]);
                assert(joined@ =~= joined_texts(texts.take(k + 1)));
            }
            k = k + 1;
        }
        proof {
            assert(strings_view(list@).take(k_max as int) =~= strings_view(list@));
        }
        let available = chars_to_string(&joined);
        Err(AppError::agent_not_found(String::from_str(agent_name), available))
    }

    /// The default persona, as built into the registry.
    pub fn get_default_agent(&self) -> (a: Agent)
        ensures
            a@.name == "default"@,
            a@.system_prompt == DEFAULT_PROMPT@,
    {
        Agent::new(String::from_str("default"), String::from_str(DEFAULT_PROMPT))
    }

    /// The display list of every persona, the ones named `default` first.
    pub fn list_agents(&self) -> (r: Vec<String>)
        ensures
            strings_view(r@) == listed_displays(self@),
    {
        let mut out: Vec<String> = Vec::new();
        let n = self.entries.len();
        let mut i: usize = 0;
        proof {
            assert(self@.take(0) =~= Seq::<EntryView>::empty());
            assert(strings_view(out@) =~= displays(default_entries(self@.take(0))));
        }
        while i < n
            invariant
                n == self@.len(),
                i <= n,
                strings_view(out@) == displays(default_entries(self@.take(i as int))),
            decreases n - i,
        {
            let ghost prev = default_entries(self@.take(i as int));
            proof {
                assert(self@.take(i + 1).drop_last() =~= self@.take(i as int));
                assert(self@.take(i + 1).last() == self@[i as int]);
            }
            let e = &self.entries[i];
            if str_eq(e.name.as_str(), "default") {
                let d = display_entry(e);
                let ghost dv = d@;
                out.push(d);
                proof {
                    assert(default_entries(self@.take(i + 1)) == prev.push(self@[i as int]));
                    assert(displays(prev.push(self@[i as int])) == displays(prev).push(
                        entry_display(self@[i as int]),
                    )) by {
                        assert(prev.push(self@[i as int]).drop_last() =~= prev);
                    }
                    assert(strings_view(out@) =~= displays(prev).push(dv));
                }
            }
            i = i + 1;
        }
        proof {
            assert(self@.take(n as int) =~= self@);
        }
        let mut j: usize = 0;
        proof {
            assert(displays(other_entries(self@.take(0))) =~= Seq::<Seq<char>>::empty());
            assert(strings_view(out@) =~= displays(default_entries(self@)) + displays(
                other_entries(self@.take(0)),
            ));
        }
        while j < n
            invariant
                n == self@.len(),
                j <= n,
                strings_view(out@) == displays(default_entries(self@)) + displays(
                    other_entries(self@.take(j as int)),
                ),
            decreases n - j,
        {
            let ghost prev = other_entries(self@.take(j as int));
            proof {
                assert(self@.take(j + 1).drop_last() =~= self@.take(j as int));
                assert(self@.take(j + 1).last() == self@[j as int]);
            }
            let e = &self.entries[j];
            if !str_eq(e.name.as_str(), "default") {
                let d = display_entry(e);
                let ghost dv = d@;
                out.push(d);
                proof {
                    assert(other_entries(self@.take(j + 1)) == prev.push(self@[j as int]));
                    assert(displays(prev.push(self@[j as int])) == displays(prev).push(
                        entry_display(self@[j as int]),
                    )) by {
                        assert(prev.push(self@[j as int]).drop_last() =~= prev);
                    }
                    assert(dv == entry_display(self@[j as int]));
                    assert(strings_view(out@) =~= (displays(default_entries(self@)) + displays(
                        prev,
                    )).push(dv));
                    assert((displays(default_entries(self@)) + displays(prev)).push(dv)
                        =~= displays(default_entries(self@)) + displays(prev).push(dv));
                }
            }
            j = j + 1;
        }
        proof {
            assert(self@.take(n as int) =~= self@);
        }
        out
    }
}

impl Default for AgentManager {
    /// The built-in registry.
    fn default() -> (m: AgentManager)
        ensures
            m@ == builtin_entries(),
    {
        AgentManager::new()
    }
}

/// Whether `name` is among the aliases of `e`.
fn entry_has_alias(e: &AgentEntry, name: &str) -> (r: bool)
    ensures
        r == has_alias(e@, name@),
{
    let n = e.aliases.len();
    let mut i: usize = 0;
    while i < n
        invariant
            n == e@.aliases.len(),
            i <= n,
            forall|k: int| 0 <= k < i ==> e@.aliases[k] != name@,
        decreases n - i,
    {
        if str_eq(e.aliases[i].as_str(), name) {
            proof {
                assert(e@.aliases[i as int] == name@);
            }
            return true;
        }
        i = i + 1;
    }
    false
}

/// The display text of one entry.
fn display_entry(e: &AgentEntry) -> (r: String)
    ensures
        r@ == entry_display(e@),
{
    let mut out: Vec<char> = Vec::new();
    push_str_chars(&mut out, e.name.as_str());
    let n = e.aliases.len();
    if n > 0 {
        push_str_chars(&mut out, " (or ");
        let mut j: usize = 0;
        proof {
            assert(joined_texts(e@.aliases.take(0)) =~= Seq::<char>::empty());
            assert(out@ =~= e@.name + " (or "@ + joined_texts(e@.aliases.take(0)));
        }
        while j < n
            invariant
                n == e@.aliases.len(),
                j <= n,
                out@ == e@.name + " (or "@ + joined_texts(e@.aliases.take(j as int)),
            decreases n - j,
        {
            proof {
                assert(e@.aliases.take(j + 1).drop_last() =~= e@.aliases.take(j as int));
                assert(e@.aliases.take(j + 1).last() == e@.aliases[j as int]);
            }
            if j > 0 {
                push_str_chars(&mut out, ", ");
            }
            push_str_chars(&mut out, e.aliases[j].as_str());
            proof {
                assert(out@ =~= e@.name + " (or "@ + joined_texts(e@.aliases.take(j + 1)));
            }
            j = j + 1;
        }
        push_str_chars(&mut out, ")");
        proof {
            assert(e@.aliases.take(n as int) =~= e@.aliases);
            assert(out@ =~= entry_display(e@));
        }
    }
    chars_to_string(&out)
}

/// The first canonical match of a name is the entry at the first position
/// that carries it.
proof fn lemma_first_canonical_at(entries: Seq<EntryView>, name: Seq<char>, i: int)
    requires
        0 <= i < entries.len(),
        entries[i].name == name,
        forall|j: int| 0 <= j < i ==> entries[j].name != name,
    ensures
        first_canonical(entries, name) == Some(entries[i]),
    decreases entries.len(),
{
    if i == 0 {
    } else {
        assert(entries[0].name != name);
        assert(forall|j: int|
            0 <= j < i - 1 ==> entries.drop_first()[j] == entries[j + 1]);
        lemma_first_canonical_at(entries.drop_first(), name, i - 1);
        assert(entries.drop_first()[i - 1] == entries[i]);
    }
}

/// A name that some entry carries canonically — with no earlier entry of
/// the same canonical name — always resolves to exactly that entry,
/// whatever aliases this or any other entry carries.
pub proof fn lemma_resolve_canonical(entries: Seq<EntryView>, name: Seq<char>, i: int)
    requires
        0 <= i < entries.len(),
        entries[i].name == name,
        forall|j: int| 0 <= j < i ==> entries[j].name != name,
    ensures
        resolve_entry(entries, name) == Some(entries[i]),
{
    lemma_first_canonical_at(entries, name, i);
}

/// Compares two texts character by character.
fn str_eq(a: &str, b: &str) -> (r: bool)
    ensures
        r == (a@ == b@),
{
    let n = vstd::string::StrSliceExecFns::unicode_len(a);
    let m = vstd::string::StrSliceExecFns::unicode_len(b);
    if n != m {
        proof {
            assert(a@ != b@);
        }
        return false;
    }
    let mut i: usize = 0;
    while i < n
        invariant
            n == a@.len(),
            n == b@.len(),
            i <= n,
            forall|k: int| 0 <= k < i ==> a@[k] == b@[k],
        decreases n - i,
    {
        let ca = vstd::string::StrSliceExecFns::get_char(a, i);
        let cb = vstd::string::StrSliceExecFns::get_char(b, i);
        if ca != cb {
            proof {
                assert(a@[i as int] != b@[i as int]);
            }
            return false;
        }
        i = i + 1;
    }
    proof {
        assert(a@ =~= b@);
    }
    true
}

} // verus!
