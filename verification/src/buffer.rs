//! The buffer of messages that a session accumulates until it is flushed.

use vstd::prelude::*;
use vstd::string::*;

use crate::outside;
use crate::text;

verus! {

/// A message of the conversation in the buffer.
#[derive(Debug)]
pub struct BufferedMessage {
    pub id: String,
    pub session_id: String,
    pub role: String,
    pub content: String,
    pub char_count: usize,
    pub created_at: String,
}

/// A message as characters.
#[verifier::ext_equal]
pub struct BufferedMessageView {
    pub id: Seq<char>,
    pub session_id: Seq<char>,
    pub role: Seq<char>,
    pub content: Seq<char>,
    pub char_count: nat,
    pub created_at: Seq<char>,
}

impl View for BufferedMessage {
    type V = BufferedMessageView;

    open spec fn view(&self) -> BufferedMessageView {
        BufferedMessageView {
            id: self.id@,
            session_id: self.session_id@,
            role: self.role@,
            content: self.content@,
            char_count: self.char_count as nat,
            created_at: self.created_at@,
        }
    }
}

impl Clone for BufferedMessage {
    fn clone(&self) -> (copy: Self)
        ensures
            copy@ == self@,
    {
        BufferedMessage {
            id: self.id.clone(),
            session_id: self.session_id.clone(),
            role: self.role.clone(),
            content: self.content.clone(),
            char_count: self.char_count,
            created_at: self.created_at.clone(),
        }
    }
}

/// A message as it stands in a prompt: the role, a colon and the content.
pub open spec fn line(message: BufferedMessageView) -> Seq<char> {
    message.role + ": "@ + message.content
}

/// The lines of messages.
pub open spec fn lines(messages: Seq<BufferedMessageView>) -> Seq<Seq<char>> {
    Seq::new(messages.len(), |i: int| line(messages[i]))
}

/// Messages as the text of a conversation: their lines with an empty line between.
pub open spec fn conversation(messages: Seq<BufferedMessageView>) -> Seq<char> {
    text::joined(lines(messages), "\n\n"@)
}

/// The lengths of the messages together.
pub open spec fn total_chars(messages: Seq<BufferedMessageView>) -> nat
    decreases messages.len(),
{
    if messages.len() == 0 {
        0
    } else {
        total_chars(messages.drop_last()) + messages.last().char_count
    }
}

/// The message that is put into the buffer for some content.
pub open spec fn message_for(
    id: Seq<char>,
    session_id: Seq<char>,
    role: Seq<char>,
    content: Seq<char>,
    created_at: Seq<char>,
) -> BufferedMessageView {
    BufferedMessageView {
        id,
        session_id,
        role,
        content,
        char_count: content.len(),
        created_at,
    }
}

impl BufferedMessage {
    /// A message with the given identifier and time; its length is the number of characters of the
    /// content.
    pub fn new(
        id: String,
        session_id: &str,
        role: &str,
        content: &str,
        created_at: String,
    ) -> (message: BufferedMessage)
        ensures
            message@ == message_for(id@, session_id@, role@, content@, created_at@),
    {
        BufferedMessage {
            id,
            session_id: String::from_str(session_id),
            role: String::from_str(role),
            content: String::from_str(content),
            char_count: content.unicode_len(),
            created_at,
        }
    }

    /// A message with a fresh identifier and the present time.
    pub fn stamped(session_id: &str, role: &str, content: &str) -> (message: BufferedMessage)
        ensures
            outside::is_uuid_text(message.id@),
            is_timestamp(message.created_at@),
            message@ == message_for(
                message.id@,
                session_id@,
                role@,
                content@,
                message.created_at@,
            ),
    {
        let created_at: String = timestamp();
        BufferedMessage::new(outside::random_uuid(), session_id, role, content, created_at)
    }

    /// Formats messages as the text of a conversation.
    pub fn format_slice(messages: &[BufferedMessage]) -> (result: String)
        ensures
            result@ == conversation(text::views(messages@)),
    {
        let mut parts: Vec<String> = Vec::new();
        let ghost all = lines(text::views(messages@));
        for i in 0..messages.len()
            invariant
                all == lines(text::views(messages@)),
                parts.len() == i,
                forall|k: int| 0 <= k < i ==> (#[trigger] parts@[k])@ == all[k],
        {
            let mut part: String = messages[i].role.clone();
            part.append(": ");
            part.append(&messages[i].content);
            parts.push(part);
        }
        assert(text::views(parts@) =~= all);
        text::join(&parts, "\n\n")
    }
}

/// Whether a text is a moment in the form of RFC 3339, not before the Unix epoch.
pub open spec fn is_timestamp(text: Seq<char>) -> bool {
    exists|secs: i64, nanos: u32| #[trigger]
        outside::rfc3339_text(secs, nanos) == text && outside::is_instant(
            secs as int,
            nanos as int,
        ) && secs >= 0
}

/// The present time in the form of RFC 3339.
pub fn timestamp() -> (text: String)
    ensures
        is_timestamp(text@),
{
    let now: (i64, u32) = outside::utc_now();
    outside::rfc3339(now.0, now.1)
}

/// The tokens that so many characters are taken for.
pub open spec fn tokens(chars: nat) -> nat {
    chars / 4
}

/// Estimates the tokens of a text by its length.
pub fn estimate_tokens(chars: usize) -> (result: usize)
    ensures
        result == tokens(chars as nat),
{
    chars / 4
}

/// Adds up the lengths of messages.
pub fn count_chars(messages: &[BufferedMessage]) -> (total: usize)
    requires
        total_chars(text::views(messages@)) <= usize::MAX,
    ensures
        total == total_chars(text::views(messages@)),
{
    let ghost all = text::views(messages@);
    let mut total: usize = 0;
    assert(all.take(0) =~= Seq::empty());
    for i in 0..messages.len()
        invariant
            all == text::views(messages@),
            total_chars(all) <= usize::MAX,
            total == total_chars(all.take(i as int)),
    {
        proof {
            assert(all.take(i + 1).drop_last() =~= all.take(i as int));
            total_chars_grows(all, i + 1);
        }
        total += messages[i].char_count;
    }
    assert(all.take(all.len() as int) =~= all);
    total
}

/// The estimated tokens of messages: those of all their characters together, rounded down once.
pub open spec fn estimated(messages: Seq<BufferedMessageView>) -> nat {
    tokens(total_chars(messages))
}

/// Estimates the tokens of messages.
pub fn estimated_tokens(messages: &[BufferedMessage]) -> (result: usize)
    requires
        total_chars(text::views(messages@)) <= usize::MAX,
    ensures
        result == estimated(text::views(messages@)),
{
    estimate_tokens(count_chars(messages))
}

/// The first messages are never longer than all of them.
pub proof fn total_chars_grows(messages: Seq<BufferedMessageView>, n: int)
    requires
        0 <= n <= messages.len(),
    ensures
        total_chars(messages.take(n)) <= total_chars(messages),
    decreases messages.len(),
{
    if n == messages.len() {
        assert(messages.take(n) =~= messages);
    } else {
        total_chars_grows(messages.drop_last(), n);
        assert(messages.drop_last().take(n) =~= messages.take(n));
    }
}

/// A conversation read in two parts is the two parts with an empty line between.
pub proof fn conversation_concat(
    left: Seq<BufferedMessageView>,
    right: Seq<BufferedMessageView>,
)
    requires
        left.len() > 0,
        right.len() > 0,
    ensures
        conversation(left + right) == conversation(left) + "\n\n"@ + conversation(right),
{
    assert(lines(left + right) =~= lines(left) + lines(right));
    text::joined_concat(lines(left), lines(right), "\n\n"@);
}

/// The second before which a session without a newer message is stale.
pub open spec fn cutoff_second(now: int, ttl_hours: u64) -> int {
    now - ttl_hours * 3600
}

/// The text of the moment before which a session is stale, where that moment can be represented.
pub open spec fn cutoff_at(secs: i64, nanos: u32, ttl_hours: u64) -> Option<Seq<char>> {
    let second = cutoff_second(secs as int, ttl_hours);
    if outside::FIRST_SECOND <= second <= outside::LAST_SECOND {
        Some(outside::rfc3339_text(second as i64, nanos))
    } else {
        None
    }
}

/// The cutoff never lies ahead, and a longer span never moves it forward: where a span is so long
/// that there is no cutoff, there is none for a longer one either.
pub proof fn the_cutoff_never_lies_ahead(secs: i64, nanos: u32, ttl_hours: u64, longer: u64)
    requires
        outside::is_instant(secs as int, nanos as int),
        ttl_hours <= longer,
    ensures
        cutoff_second(secs as int, longer) <= cutoff_second(secs as int, ttl_hours) <= secs,
        cutoff_at(secs, nanos, ttl_hours) is None ==> cutoff_at(secs, nanos, longer) is None,
{
}

fn cutoff(secs: i64, ttl_hours: u64) -> (second: i128)
    ensures
        second == cutoff_second(secs as int, ttl_hours),
{
    secs as i128 - ttl_hours as i128 * 3600
}

/// The text of the moment `ttl_hours` before an instant.
pub fn cutoff_text(secs: i64, nanos: u32, ttl_hours: u64) -> (result: String)
    requires
        outside::is_instant(secs as int, nanos as int),
        outside::FIRST_SECOND <= cutoff_second(secs as int, ttl_hours) <= outside::LAST_SECOND,
    ensures
        Some(result@) == cutoff_at(secs, nanos, ttl_hours),
{
    let second: i128 = cutoff(secs, ttl_hours);
    outside::rfc3339(second as i64, nanos)
}

/// The moment `ttl_hours` before now: a session whose newest message is older is stale. There is
/// none where that moment cannot be represented, which no span of up to 2 315 167 008 hours
/// brings about.
pub fn stale_cutoff(ttl_hours: u64) -> (result: Option<String>)
    ensures
        exists|secs: i64, nanos: u32|
            outside::is_instant(secs as int, nanos as int) && secs >= 0 && text::view_of(result)
                == #[trigger] cutoff_at(secs, nanos, ttl_hours),
        ttl_hours <= 2_315_167_008 ==> result is Some,
{
    let now: (i64, u32) = outside::utc_now();
    let second: i128 = cutoff(now.0, ttl_hours);
    if outside::FIRST_SECOND as i128 <= second && second <= outside::LAST_SECOND as i128 {
        let result: String = cutoff_text(now.0, now.1, ttl_hours);
        assert(text::view_of(Some(result)) == cutoff_at(now.0, now.1, ttl_hours));
        Some(result)
    } else {
        assert(text::view_of(None::<String>) == cutoff_at(now.0, now.1, ttl_hours));
        None
    }
}

} // verus!
