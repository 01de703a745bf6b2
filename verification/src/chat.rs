//! One chat session: a transport configuration, the persona registry,
//! and the pure decisions of the interactive loop.
//!
//! The terminal loop itself runs outside the library: it reads input,
//! asks [`ChatSession::is_exit_command`] whether to stop, opens the
//! conversation through [`ChatSession::begin_conversation`], and drives
//! each turn with [`crate::turn::Turn`].

use vstd::prelude::*;
use vstd::string::StringExecFns;

use crate::agent::Agent;
use crate::agent::EntryView;
use crate::agent::AgentManager;
use crate::agent::builtin_entries;
use crate::agent::listed_displays;
use crate::agent::joined_texts;
use crate::agent::resolve_entry;
use crate::client::ClientView;
use crate::client::LlmClient;
use crate::data::ChatConversation;
use crate::data::ChatMessage;
use crate::data::MessageRole;
use crate::data::MessageView;
use crate::error::AgentError;
use crate::error::AppError;
use crate::sse::strings_view;

verus! {

/// The mathematical value of a [`ChatSession`]: its transport
/// configuration and its registry.
pub struct SessionView {
    pub client: ClientView,
    pub agents: Seq<EntryView>,
}

/// A chat session over one transport configuration and the built-in
/// persona registry.
#[derive(Debug)]
pub struct ChatSession {
    llm_client: LlmClient,
    agent_manager: AgentManager,
}

impl View for ChatSession {
    type V = SessionView;

    closed spec fn view(&self) -> SessionView {
        SessionView { client: self.llm_client@, agents: self.agent_manager@ }
    }
}

/// The persona name a session starts with: the given one, or `default`.
pub open spec fn chosen_name(agent_name: Option<&str>) -> Seq<char> {
    match agent_name {
        Some(s) => s@,
        None => "default"@,
    }
}

/// Whether `x` and `y` are the same letter up to ASCII case.
pub open spec fn chars_eq_ci(x: char, y: char) -> bool {
    x == y || (65 <= x as u32 <= 90 && y as u32 == x as u32 + 32) || (65 <= y as u32 <= 90
        && x as u32 == y as u32 + 32)
}

/// Whether two texts are equal up to ASCII case.
pub open spec fn eq_ignore_ascii_case_text(a: Seq<char>, b: Seq<char>) -> bool {
    a.len() == b.len() && forall|i: int| 0 <= i < a.len() ==> chars_eq_ci(a[i], b[i])
}

/// Whether an input asks to end the session: `quit` or `exit`, in any
/// ASCII case.
pub open spec fn is_exit_text(s: Seq<char>) -> bool {
    eq_ignore_ascii_case_text(s, "quit"@) || eq_ignore_ascii_case_text(s, "exit"@)
}

/// Compares two texts up to ASCII case.
fn str_eq_ignore_ascii_case(a: &str, b: &str) -> (r: bool)
    ensures
        r == eq_ignore_ascii_case_text(a@, b@),
{
    let n = vstd::string::StrSliceExecFns::unicode_len(a);
    let m = vstd::string::StrSliceExecFns::unicode_len(b);
    if n != m {
        return false;
    }
    let mut i: usize = 0;
    while i < n
        invariant
            n == a@.len(),
            n == b@.len(),
            i <= n,
            forall|k: int| 0 <= k < i ==> chars_eq_ci(a@[k], b@[k]),
        decreases n - i,
    {
        let ca = vstd::string::StrSliceExecFns::get_char(a, i);
        let cb = vstd::string::StrSliceExecFns::get_char(b, i);
        let ua = ca as u32;
        let ub = cb as u32;
        let same = ca == cb || (65 <= ua && ua <= 90 && ub == ua + 32) || (65 <= ub && ub <= 90
            && ua == ub + 32);
        if !same {
            proof {
                assert(!chars_eq_ci(a@[i as int], b@[i as int]));
            }
            return false;
        }
        i = i + 1;
    }
    true
}

impl ChatSession {
    /// Builds a session over the given transport configuration and the
    /// built-in registry.
    pub fn new(llm_client: LlmClient) -> (s: ChatSession)
        ensures
            s@.client == llm_client@,
            s@.agents == builtin_entries(),
    {
        ChatSession { llm_client, agent_manager: AgentManager::new() }
    }

    /// The transport configuration.
    pub fn client(&self) -> (c: &LlmClient)
        ensures
            c@ == self@.client,
    {
        &self.llm_client
    }

    /// The display list of every persona.
    pub fn list_agents(&self) -> (r: Vec<String>)
        ensures
            strings_view(r@) == listed_displays(self@.agents),
    {
        self.agent_manager.list_agents()
    }

    /// Whether an input asks to end the session.
    pub fn is_exit_command(&self, input: &str) -> (r: bool)
        ensures
            r == is_exit_text(input@),
    {
        str_eq_ignore_ascii_case(input, "quit") || str_eq_ignore_ascii_case(input, "exit")
    }

    /// Opens a conversation with the named persona — or the default one —
    /// holding exactly its system prompt. An unknown name yields the
    /// not-found error of the registry.
    pub fn begin_conversation(&self, agent_name: Option<&str>) -> (r: Result<
        (Agent, ChatConversation),
        AppError,
    >)
        ensures
            resolve_entry(self@.agents, chosen_name(agent_name)) matches Some(e) ==> (r matches Ok(
                p,
            ) && p.0@.name == e.name && p.0@.system_prompt == e.prompt && p.1@ == seq![
                MessageView { role: MessageRole::System, content: e.prompt },
            ]),
            resolve_entry(self@.agents, chosen_name(agent_name)) is None ==> (r matches Err(
                err,
            ) && err matches AppError::Agent(AgentError::NotFound { name, available }) && name@
                == chosen_name(agent_name) && available@ == joined_texts(
                listed_displays(self@.agents),
            )),
    {
        let name: &str = match agent_name {
            Some(s) => s,
            None => "default",
        };
        let agent = match self.agent_manager.get_agent(name) {
            Ok(a) => a,
            Err(e) => {
                return Err(e);
            },
        };
        let mut conversation = ChatConversation::new();
        conversation.add_message(
            ChatMessage::from_system(String::from_str(agent.system_prompt())),
        );
        proof {
            assert(conversation@ =~= seq![
                MessageView {
                    role: MessageRole::System,
                    content: agent@.system_prompt,
                },
            ]);
        }
        Ok((agent, conversation))
    }
}

} // verus!
