//! Conversation bookkeeping: the rows that the persistence store keeps and
//! the rules by which an appended message changes them. The store itself
//! is outside; it hands rows in and takes rows back.

use vstd::prelude::*;
use vstd::string::*;
use crate::text::same_text;

verus! {

/// One conversation, as the store lists it.
#[derive(Debug, Clone)]
pub struct LocalConversation {
    pub conversation_id: String,
    pub name: String,
    pub first_message: String,
    pub message_count: i32,
    pub last_used_time: String,
    pub is_generating: bool,
}

/// One message of a conversation.
#[derive(Debug, Clone)]
pub struct LocalMessage {
    pub id: i64,
    pub conversation_id: String,
    pub role: String,
    pub content: String,
    pub timestamp: String,
}

/// How many of `messages` have the role `user`.
pub open spec fn user_messages(messages: Seq<LocalMessage>) -> nat
    decreases messages.len(),
{
    if messages.len() == 0 {
        0
    } else {
        user_messages(messages.drop_last()) + if messages.last().role@ == "user"@ {
            1nat
        } else {
            0nat
        }
    }
}

/// Whether a message just appended is the one that names the
/// conversation: it has the role `user` and is the only such message so
/// far.
pub open spec fn names_conversation(role: Seq<char>, user_count: int) -> bool {
    role == "user"@ && user_count == 1
}

/// The first message of a conversation after a message was appended.
pub open spec fn first_message_after(
    first_message: Seq<char>,
    role: Seq<char>,
    content: Seq<char>,
    user_count: int,
) -> Seq<char> {
    if names_conversation(role, user_count) {
        content
    } else {
        first_message
    }
}

/// Whether a message just appended sets the conversation's first message.
/// `user_count` is the number of `user` messages that the conversation
/// holds, the new one included.
pub fn sets_first_message(role: &str, user_count: i32) -> (r: bool)
    ensures
        r == names_conversation(role@, user_count as int),
{
    same_text(role, "user") && user_count == 1
}

/// Whether a conversation is there, from the number of rows with its id.
pub fn conversation_exists(rows: i32) -> (r: bool)
    ensures
        r == (rows > 0),
{
    rows > 0
}

/// The row of a conversation that was just created: no name, no messages.
pub fn create_conversation(id: &str, first_message: &str, now: &str) -> (c: LocalConversation)
    ensures
        c.conversation_id@ == id@,
        c.name@ == Seq::<char>::empty(),
        c.first_message@ == first_message@,
        c.message_count == 0,
        c.last_used_time@ == now@,
        !c.is_generating,
{
    LocalConversation {
        conversation_id: id.to_owned(),
        name: String::new(),
        first_message: first_message.to_owned(),
        message_count: 0,
        last_used_time: now.to_owned(),
        is_generating: false,
    }
}

/// Renames a conversation; nothing else of it changes.
pub fn update_conversation_name(conversation: &mut LocalConversation, name: &str)
    ensures
        final(conversation).name@ == name@,
        final(conversation).conversation_id == old(conversation).conversation_id,
        final(conversation).first_message == old(conversation).first_message,
        final(conversation).message_count == old(conversation).message_count,
        final(conversation).last_used_time == old(conversation).last_used_time,
        final(conversation).is_generating == old(conversation).is_generating,
{
    conversation.name = name.to_owned();
}

/// Books one appended message on its conversation: one more message, used
/// just now, and the first `user` message becomes the conversation's first
/// message. `user_count` is the number of `user` messages that the
/// conversation holds, the new one included.
pub fn add_message(
    conversation: &mut LocalConversation,
    role: &str,
    content: &str,
    now: &str,
    user_count: i32,
)
    requires
        old(conversation).message_count < i32::MAX,
    ensures
        final(conversation).message_count == old(conversation).message_count + 1,
        final(conversation).last_used_time@ == now@,
        final(conversation).first_message@ == first_message_after(
            old(conversation).first_message@,
            role@,
            content@,
            user_count as int,
        ),
        final(conversation).conversation_id == old(conversation).conversation_id,
        final(conversation).name == old(conversation).name,
        final(conversation).is_generating == old(conversation).is_generating,
{
    conversation.message_count = conversation.message_count + 1;
    conversation.last_used_time = now.to_owned();
    if sets_first_message(role, user_count) {
        conversation.first_message = content.to_owned();
    }
}

/// How many `user` messages a log holds once a message of `role` joined
/// `messages`.
pub open spec fn user_count_with(messages: Seq<LocalMessage>, role: Seq<char>) -> int {
    user_messages(messages) + if role == "user"@ {
        1int
    } else {
        0int
    }
}

/// One conversation together with its messages, append-only and in the
/// order in which they came.
pub struct ConversationLog {
    conversation: LocalConversation,
    messages: Vec<LocalMessage>,
}

impl ConversationLog {
    /// The conversation's row.
    pub closed spec fn row(&self) -> LocalConversation {
        self.conversation
    }

    /// The messages, the oldest first.
    pub closed spec fn entries(&self) -> Seq<LocalMessage> {
        self.messages@
    }

    /// The row counts the messages, and ids grow along the log.
    pub open spec fn wf(&self) -> bool {
        &&& self.row().message_count == self.entries().len()
        &&& forall|i: int|
            0 <= i < self.entries().len() ==> (#[trigger] self.entries()[i]).id == i + 1
        &&& forall|i: int|
            0 <= i < self.entries().len() ==> (#[trigger] self.entries()[i]).conversation_id@
                == self.row().conversation_id@
    }

    /// The log of a conversation id that was never seen before.
    pub fn new(id: &str, now: &str) -> (log: Self)
        ensures
            log.wf(),
            log.entries().len() == 0,
            log.row().conversation_id@ == id@,
            log.row().first_message@ == Seq::<char>::empty(),
            log.row().name@ == Seq::<char>::empty(),
            log.row().last_used_time@ == now@,
            !log.row().is_generating,
    {
        proof {
            reveal_strlit("");
        }
        assert(""@ =~= Seq::<char>::empty());
        ConversationLog { conversation: create_conversation(id, "", now), messages: Vec::new() }
    }

    /// The conversation's row as it stands.
    pub fn conversation(&self) -> (c: &LocalConversation)
        ensures
            *c == self.row(),
    {
        &self.conversation
    }

    /// The messages, the oldest first.
    pub fn get_messages(&self) -> (m: &Vec<LocalMessage>)
        ensures
            m@ == self.entries(),
    {
        &self.messages
    }

    /// How many messages of the log have the role `user`.
    fn count_user_messages(&self) -> (n: usize)
        ensures
            n == user_messages(self.entries()),
            n <= self.entries().len(),
    {
        let mut n: usize = 0;
        let mut i: usize = 0;
        assert(self.messages@.take(0) =~= Seq::<LocalMessage>::empty());
        while i < self.messages.len()
            invariant
                i <= self.messages.len(),
                n <= i,
                n == user_messages(self.messages@.take(i as int)),
            decreases self.messages.len() - i,
        {
            assert(self.messages@.take(i + 1).drop_last() =~= self.messages@.take(i as int));
            if same_text(self.messages[i].role.as_str(), "user") {
                n += 1;
            }
            i += 1;
        }
        assert(self.messages@.take(self.messages.len() as int) =~= self.messages@);
        n
    }

    /// Appends a message and books it on the conversation. The message
    /// gets the next id; earlier messages stay as they are.
    pub fn append(&mut self, role: &str, content: &str, now: &str)
        requires
            old(self).wf(),
            old(self).entries().len() < i32::MAX,
        ensures
            final(self).wf(),
            appended(*old(self), role@, content@, now@, *final(self)),
    {
        let ghost before = self.messages@;
        let id: i64 = self.messages.len() as i64 + 1;
        self.messages.push(
            LocalMessage {
                id,
                conversation_id: self.conversation.conversation_id.clone(),
                role: role.to_owned(),
                content: content.to_owned(),
                timestamp: now.to_owned(),
            },
        );
        assert(self.messages@.drop_last() =~= before);
        assert(user_messages(self.messages@) == user_count_with(before, role@));
        let users: usize = self.count_user_messages();
        add_message(&mut self.conversation, role, content, now, users as i32);
    }
}

/// What appending one message does to a log: the message joins at the end
/// with what it was given, earlier messages stay as they are, and the row
/// is used just now, keeps its id and name, and takes the message as its
/// first message where it is the first of role `user`.
pub open spec fn appended(
    before: ConversationLog,
    role: Seq<char>,
    content: Seq<char>,
    now: Seq<char>,
    after: ConversationLog,
) -> bool {
    &&& after.entries().len() == before.entries().len() + 1
    &&& after.entries().drop_last() == before.entries()
    &&& after.entries().last().role@ == role
    &&& after.entries().last().content@ == content
    &&& after.entries().last().timestamp@ == now
    &&& after.row().last_used_time@ == now
    &&& after.row().name == before.row().name
    &&& after.row().conversation_id == before.row().conversation_id
    &&& after.row().is_generating == before.row().is_generating
    &&& after.row().first_message@ == first_message_after(
        before.row().first_message@,
        role,
        content,
        user_count_with(before.entries(), role),
    )
}

/// The first `user` message appended to a new conversation becomes its
/// first message, and a second `user` message does not overwrite it.
pub proof fn lemma_first_message_set_once(
    start: ConversationLog,
    first: ConversationLog,
    later: ConversationLog,
    content: Seq<char>,
    other: Seq<char>,
    then: Seq<char>,
    afterwards: Seq<char>,
)
    requires
        start.entries().len() == 0,
        appended(start, "user"@, content, then, first),
        appended(first, "user"@, other, afterwards, later),
    ensures
        first.row().first_message@ == content,
        later.row().first_message@ == content,
{
    assert(user_messages(start.entries()) == 0);
    assert(user_messages(first.entries().drop_last()) == 0);
    assert(user_messages(first.entries()) == 1);
}

} // verus!
