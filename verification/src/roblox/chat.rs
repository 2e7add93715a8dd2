//! Direct messages, on the current chat service.
//!
//! The endpoint names are plural (`send-messages`, `create-conversations`,
//! `update-conversations`); the singular forms do not exist.

use crate::json::{json_quote, quoted};
use crate::number::{decimal, decimal_int, int_text, nat_text};
use crate::roblox::error::Error;
use crate::text::{cat2, cat3, cat5, same};
use vstd::prelude::*;

verus! {

pub const CHAT: &'static str = "https://apis.roblox.com/platform-chat-api/v1";

#[derive(Debug, Clone, Default)]
pub struct Conversation {
    pub id: String,
    pub name: String,
    /// `OneToOne` or `Group`.
    pub conversation_type: String,
    pub participants: Option<Vec<Participant>>,
    pub last_updated: Option<String>,
    pub unread_message_count: i64,
    pub latest_messages: Option<Vec<Message>>,
}

#[derive(Debug, Clone, Default)]
pub struct Participant {
    pub user_id: i64,
    pub name: String,
    pub display_name: String,
}

#[derive(Debug, Clone, Default)]
pub struct Message {
    pub id: String,
    pub content: String,
    pub sender_id: i64,
    pub created: String,
    pub message_type: Option<String>,
}

/// Where the first participant other than `me` is, from `i` on.
pub open spec fn other_at(ps: Seq<Participant>, me: i64, i: int) -> Option<int>
    decreases ps.len() - i,
{
    if i < 0 || i >= ps.len() {
        None
    } else if ps[i].user_id != me {
        Some(i)
    } else {
        other_at(ps, me, i + 1)
    }
}

/// A participant by display name, or by user name where there is none.
pub open spec fn called(p: Participant) -> Seq<char> {
    if p.display_name@.len() == 0 {
        p.name@
    } else {
        p.display_name@
    }
}

impl Conversation {
    /// The first participant other than `me`.
    pub open spec fn other(&self, me: i64) -> Option<Participant> {
        match self.participants {
            Some(ps) => match other_at(ps@, me, 0) {
                Some(i) => Some(ps@[i]),
                None => None,
            },
            None => None,
        }
    }

    /// What the conversation is called in the list.
    pub open spec fn title(&self, me: i64) -> Seq<char> {
        let fallback = if self.name@.len() == 0 {
            "Conversation"@
        } else {
            self.name@
        };
        if self.name@.len() > 0 && self.conversation_type@ != "OneToOne"@ {
            self.name@
        } else {
            match self.other(me) {
                Some(p) => if called(p).len() > 0 {
                    called(p)
                } else {
                    fallback
                },
                None => fallback,
            }
        }
    }

    fn other_index(&self, me: i64) -> (r: Option<usize>)
        ensures
            match r {
                Some(i) => self.participants is Some && i < self.participants->0.len() && self.other(
                    me,
                ) == Some(self.participants->0@[i as int]),
                None => self.other(me) is None,
            },
    {
        match &self.participants {
            Some(ps) => {
                let mut i: usize = 0;
                while i < ps.len()
                    invariant
                        i <= ps.len(),
                        self.participants == Some(*ps),
                        other_at(ps@, me, 0) == other_at(ps@, me, i as int),
                    decreases ps.len() - i,
                {
                    if ps[i].user_id != me {
                        return Some(i);
                    }
                    i = i + 1;
                }
                None
            },
            None => None,
        }
    }

    /// For a one-to-one chat the useful title is the *other* person, not the
    /// conversation's own name.
    pub fn display_title(&self, me: i64) -> (r: String)
        ensures
            r@ == self.title(me),
    {
        if !self.name.as_str().is_empty() && !same(self.conversation_type.as_str(), "OneToOne") {
            return self.name.clone();
        }
        match (&self.participants, self.other_index(me)) {
            (Some(ps), Some(i)) => {
                let p = &ps[i];
                let name = if p.display_name.as_str().is_empty() {
                    p.name.clone()
                } else {
                    p.display_name.clone()
                };
                if !name.as_str().is_empty() {
                    return name;
                }
            },
            _ => {},
        }
        if self.name.as_str().is_empty() {
            "Conversation".to_owned()
        } else {
            self.name.clone()
        }
    }

    pub fn other_participant(&self, me: i64) -> (r: Option<i64>)
        ensures
            r == (match self.other(me) {
                Some(p) => Some(p.user_id),
                None => None,
            }),
    {
        match (&self.participants, self.other_index(me)) {
            (Some(ps), Some(i)) => Some(ps[i].user_id),
            _ => None,
        }
    }

    /// The latest message.
    pub fn preview(&self) -> (r: String)
        ensures
            r@ == (match self.latest_messages {
                Some(m) => if m@.len() > 0 {
                    m@[0].content@
                } else {
                    Seq::empty()
                },
                None => Seq::empty(),
            }),
    {
        match &self.latest_messages {
            Some(m) => if m.len() > 0 {
                m[0].content.clone()
            } else {
                String::new()
            },
            None => String::new(),
        }
    }
}

/// Whoever is named as the other participant is not me.
pub proof fn law_the_other_is_not_me(c: Conversation, me: i64)
    ensures
        c.other(me) matches Some(p) ==> p.user_id != me,
{
    match c.participants {
        Some(ps) => lemma_other_at(ps@, me, 0),
        None => {},
    }
}

proof fn lemma_other_at(ps: Seq<Participant>, me: i64, i: int)
    requires
        0 <= i,
    ensures
        other_at(ps, me, i) matches Some(k) ==> i <= k < ps.len() && ps[k].user_id != me,
    decreases ps.len() - i,
{
    if i < ps.len() && ps[i].user_id == me {
        lemma_other_at(ps, me, i + 1);
    }
}

pub open spec fn unread_sum(list: Seq<Conversation>) -> int
    decreases list.len(),
{
    if list.len() == 0 {
        0
    } else {
        unread_sum(list.drop_last()) + list.last().unread_message_count
    }
}

/// Unread messages over all conversations.
pub fn total_unread(conversations: &Vec<Conversation>) -> (r: i64)
    requires
        forall|n: int|
            0 <= n <= conversations.len() ==> i64::MIN <= unread_sum(
                #[trigger] conversations@.take(n),
            ) <= i64::MAX,
    ensures
        r == unread_sum(conversations@),
{
    let mut sum: i64 = 0;
    let mut i: usize = 0;
    assert(conversations@.take(0) =~= Seq::<Conversation>::empty());
    while i < conversations.len()
        invariant
            i <= conversations.len(),
            sum == unread_sum(conversations@.take(i as int)),
            forall|n: int|
                0 <= n <= conversations.len() ==> i64::MIN <= unread_sum(
                    #[trigger] conversations@.take(n),
                ) <= i64::MAX,
        decreases conversations.len() - i,
    {
        assert(conversations@.take(i as int + 1).drop_last() =~= conversations@.take(i as int));
        assert(conversations@.take(i as int + 1).last() == conversations@[i as int]);
        assert(unread_sum(conversations@.take(i as int + 1)) <= i64::MAX);
        sum = sum + conversations[i].unread_message_count;
        i = i + 1;
    }
    assert(conversations@.take(conversations@.len() as int) =~= conversations@);
    sum
}

/// The conversation list, newest activity first.
pub fn conversations_url(page_size: u32) -> (url: String)
    ensures
        url@ == CHAT@ + "/get-user-conversations?pageNumber=1&pageSize="@ + decimal(
            page_size as nat,
        ),
{
    cat3(
        CHAT,
        "/get-user-conversations?pageNumber=1&pageSize=",
        nat_text(page_size as u64).as_str(),
    )
}

/// The messages of one conversation, newest first.
pub fn messages_url(conversation_id: &str, page_size: u32) -> (url: String)
    ensures
        url@ == CHAT@ + "/get-conversation-messages?conversationId="@ + conversation_id@
            + "&pageSize="@ + decimal(page_size as nat),
{
    cat5(
        CHAT,
        "/get-conversation-messages?conversationId=",
        conversation_id,
        "&pageSize=",
        nat_text(page_size as u64).as_str(),
    )
}

pub fn send_url() -> (url: String)
    ensures
        url@ == CHAT@ + "/send-messages"@,
{
    cat2(CHAT, "/send-messages")
}

pub fn create_url() -> (url: String)
    ensures
        url@ == CHAT@ + "/create-conversations"@,
{
    cat2(CHAT, "/create-conversations")
}

pub fn update_url() -> (url: String)
    ensures
        url@ == CHAT@ + "/update-conversations"@,
{
    cat2(CHAT, "/update-conversations")
}

/// The conversation that was created, or why there is none.
pub fn created(conversations: Vec<Conversation>) -> (r: std::result::Result<String, Error>)
    ensures
        match r {
            Ok(id) => conversations.len() > 0 && id == conversations@[0].id,
            Err(Error::Api(e)) => conversations.len() == 0 && e@
                == "Roblox created no conversation"@,
            Err(_) => false,
        },
{
    let mut conversations = conversations;
    if conversations.len() > 0 {
        Ok(conversations.swap_remove(0).id)
    } else {
        Err(Error::Api("Roblox created no conversation".to_owned()))
    }
}

/// The body that sends a message.
pub fn send_body(conversation_id: &str, text: &str) -> (body: String)
    ensures
        body@ == "{\"conversationId\":"@ + quoted(conversation_id@)
            + ",\"messages\":[{\"content\":"@ + quoted(text@) + "}]}"@,
{
    cat5(
        "{\"conversationId\":",
        json_quote(conversation_id).as_str(),
        ",\"messages\":[{\"content\":",
        json_quote(text).as_str(),
        "}]}",
    )
}

/// The body that starts a conversation with one user.
pub fn create_body(user_id: i64) -> (body: String)
    ensures
        body@
            == "{\"conversations\":[{\"conversationType\":\"OneToOne\",\"participantUserIds\":["@
            + decimal_int(user_id as int) + "]}]}"@,
{
    cat3(
        "{\"conversations\":[{\"conversationType\":\"OneToOne\",\"participantUserIds\":[",
        int_text(user_id).as_str(),
        "]}]}",
    )
}

/// The body that marks a conversation as read.
pub fn read_body(conversation_id: &str) -> (body: String)
    ensures
        body@ == "{\"conversations\":[{\"conversationId\":"@ + quoted(conversation_id@)
            + ",\"hasUnreadMessages\":false}]}"@,
{
    cat3(
        "{\"conversations\":[{\"conversationId\":",
        json_quote(conversation_id).as_str(),
        ",\"hasUnreadMessages\":false}]}",
    )
}

proof fn lemma_first_other(ps: Seq<Participant>, me: i64, i: int, k: int)
    requires
        0 <= i <= k <= ps.len(),
        forall|j: int| i <= j < k ==> (#[trigger] ps[j]).user_id == me,
        k < ps.len() ==> ps[k].user_id != me,
    ensures
        other_at(ps, me, i) == (if k < ps.len() {
            Some(k)
        } else {
            None
        }),
    decreases k - i,
{
    if i < k {
        assert(ps[i].user_id == me);
        lemma_first_other(ps, me, i + 1, k);
    }
}

/// A chat between two goes by the other one: the first participant who is not me, by
/// display name, or by user name where that is empty.
pub proof fn law_chats_go_by_the_other(c: Conversation, me: i64, k: int)
    requires
        c.participants matches Some(ps) && 0 <= k < ps@.len() && ps@[k].user_id != me && (forall|
            j: int,
        |
            0 <= j < k ==> (#[trigger] ps@[j]).user_id == me),
    ensures
        ({
            let p = c.participants->0@[k];
            &&& c.other(me) == Some(p)
            &&& c.conversation_type@ == "OneToOne"@ || c.name@.len() == 0 ==> {
                &&& p.display_name@.len() > 0 ==> c.title(me) == p.display_name@
                &&& p.display_name@.len() == 0 && p.name@.len() > 0 ==> c.title(me) == p.name@
            }
        }),
{
    lemma_first_other(c.participants->0@, me, 0, k);
}

/// A group goes by its own name, and so does a chat whose other side has none. What
/// has no name at all is called a conversation.
pub proof fn law_groups_go_by_their_name(c: Conversation, me: i64)
    ensures
        c.name@.len() > 0 && c.conversation_type@ != "OneToOne"@ ==> c.title(me) == c.name@,
        c.other(me) is None && c.name@.len() > 0 ==> c.title(me) == c.name@,
        c.other(me) is None && c.name@.len() == 0 ==> c.title(me) == "Conversation"@,
        c.participants is None ==> c.other(me) is None,
{
}

/// Everybody being me, there is no other.
pub proof fn law_alone_there_is_no_other(c: Conversation, me: i64)
    requires
        c.participants matches Some(ps) && (forall|j: int|
            0 <= j < ps@.len() ==> (#[trigger] ps@[j]).user_id == me),
    ensures
        c.other(me) is None,
{
    let ps = c.participants->0@;
    lemma_first_other(ps, me, 0, ps.len() as int);
}

/// What is unread adds up over the conversations.
pub proof fn law_unread_adds_up(a: Seq<Conversation>, c: Conversation, b: Seq<Conversation>)
    ensures
        unread_sum(Seq::empty()) == 0,
        unread_sum(a.push(c)) == unread_sum(a) + c.unread_message_count,
        unread_sum(a + b) == unread_sum(a) + unread_sum(b),
    decreases b.len(),
{
    assert(a.push(c).drop_last() =~= a);
    if b.len() > 0 {
        assert((a + b).drop_last() =~= a + b.drop_last());
        assert((a + b).last() == b.last());
        law_unread_adds_up(a, c, b.drop_last());
    } else {
        assert(a + b =~= a);
    }
}

/// Messages are on the platform chat service.
pub proof fn law_chat_service()
    ensures
        CHAT@ == "https://apis.roblox.com/platform-chat-api/v1"@,
{
}

} // verus!
