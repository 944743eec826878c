//! The provider boundary: conversation turns and the request a provider is sent.
use vstd::prelude::*;
use crate::text::str_equals;
use crate::Error;

verus! {

/// Who a turn of the conversation comes from.
#[derive(Clone, Copy, Debug, PartialEq, Eq, Structural)]
pub enum Role {
    User,
    Assistant,
    System,
}

/// The wire name of each role.
pub open spec fn role_name(r: Role) -> Seq<char> {
    match r {
        Role::User => "user"@,
        Role::Assistant => "assistant"@,
        Role::System => "system"@,
    }
}

impl Role {
    pub fn as_str(&self) -> (r: &'static str)
        ensures
            r@ == role_name(*self),
    {
        match self {
            Role::User => "user",
            Role::Assistant => "assistant",
            Role::System => "system",
        }
    }

    /// The role a provider names: "user" and "system" as such, anything
    /// else is the assistant.
    pub fn from_name(name: &str) -> (r: Role)
        ensures
            r == (if name@ == "user"@ {
                Role::User
            } else if name@ == "system"@ {
                Role::System
            } else {
                Role::Assistant
            }),
    {
        if str_equals(name, "user") {
            Role::User
        } else if str_equals(name, "system") {
            Role::System
        } else {
            Role::Assistant
        }
    }
}

/// One turn of the conversation.
#[derive(Debug)]
pub struct Message {
    pub role: Role,
    pub content: String,
}

/// A turn as a role and its text.
pub struct Turn {
    pub role: Role,
    pub content: Seq<char>,
}

impl View for Message {
    type V = Turn;

    open spec fn view(&self) -> Turn {
        Turn { role: self.role, content: self.content@ }
    }
}

/// The views of a sequence of messages.
pub open spec fn turns_view(v: Seq<Message>) -> Seq<Turn> {
    v.map_values(|m: Message| m@)
}

impl Clone for Message {
    fn clone(&self) -> (r: Self)
        ensures
            r@ == self@,
    {
        Message { role: self.role, content: self.content.clone() }
    }
}

/// A copy of each message, in order.
pub fn copy_messages(v: &Vec<Message>) -> (r: Vec<Message>)
    ensures
        turns_view(r@) == turns_view(v@),
{
    let mut r: Vec<Message> = Vec::new();
    let mut i: usize = 0;
    while i < v.len()
        invariant
            0 <= i <= v.len(),
            turns_view(r@) == turns_view(v@).take(i as int),
        decreases v.len() - i,
    {
        let m = v[i].clone();
        let ghost prev = r@;
        r.push(m);
        assert(turns_view(r@) =~= turns_view(prev).push(v@[i as int]@));
        assert(turns_view(v@).take(i + 1) =~= turns_view(v@).take(i as int).push(v@[i as int]@));
        i = i + 1;
    }
    assert(turns_view(v@).take(v.len() as int) =~= turns_view(v@));
    r
}

/// The turns a provider is sent: the system prompt if any, the history, then
/// the new user input.
pub open spec fn request_turns(system_prompt: Option<Seq<char>>, history: Seq<Turn>, input: Seq<char>) -> Seq<Turn> {
    let head = match system_prompt {
        Some(p) => seq![Turn { role: Role::System, content: p }],
        None => seq![],
    };
    head + history + seq![Turn { role: Role::User, content: input }]
}

/// Builds the turns a provider is sent for one request.
pub fn build_request(system_prompt: Option<String>, history: &Vec<Message>, user_message: String) -> (r: Vec<Message>)
    ensures
        turns_view(r@) == request_turns(
            match system_prompt {
                Some(p) => Some(p@),
                None => None,
            },
            turns_view(history@),
            user_message@,
        ),
{
    let mut r: Vec<Message> = Vec::new();
    if let Some(system) = system_prompt {
        r.push(Message { role: Role::System, content: system });
    }
    let ghost head = turns_view(r@);
    let mut i: usize = 0;
    while i < history.len()
        invariant
            0 <= i <= history.len(),
            turns_view(r@) == head + turns_view(history@).take(i as int),
        decreases history.len() - i,
    {
        let m = history[i].clone();
        let ghost prev = r@;
        r.push(m);
        assert(turns_view(r@) =~= turns_view(prev).push(history@[i as int]@));
        assert(turns_view(history@).take(i + 1) =~= turns_view(history@).take(i as int).push(
            history@[i as int]@,
        ));
        assert(turns_view(r@) =~= head + turns_view(history@).take(i + 1));
        i = i + 1;
    }
    assert(turns_view(history@).take(history.len() as int) =~= turns_view(history@));
    let ghost mid = turns_view(r@);
    r.push(Message { role: Role::User, content: user_message });
    assert(turns_view(r@) =~= mid + seq![Turn { role: Role::User, content: user_message@ }]);
    r
}

/// The message a provider returned as its first choice.
pub fn first_choice(choices: Vec<Message>) -> (r: Result<Message, Error>)
    ensures
        choices.len() > 0 ==> (r matches Ok(m) && m@ == choices@[0]@),
        choices.len() == 0 ==> (r matches Err(Error::Llm(e)) && e@ == "No response from ChatGPT"@),
{
    if choices.len() > 0 {
        Ok(choices[0].clone())
    } else {
        Err(Error::Llm(String::from_str("No response from ChatGPT")))
    }
}

/// A provider client as held by the library: the library passes it on, and
/// the caller performs the requests.
pub struct LLMAPI<C> {
    client: C,
}

impl<C> LLMAPI<C> {
    pub fn new(client: C) -> (r: Self)
        ensures
            r.client() == client,
    {
        LLMAPI { client }
    }

    pub closed spec fn client(&self) -> C {
        self.client
    }

    /// The client that requests go through.
    pub fn get_client(&self) -> (r: &C)
        ensures
            *r == self.client(),
    {
        &self.client
    }
}

} // verus!
