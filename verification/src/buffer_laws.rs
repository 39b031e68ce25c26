//! What holds of every buffer of messages.

use vstd::prelude::*;

use crate::buffer;
use crate::buffer::BufferedMessageView;
use crate::outside;
use crate::text_laws;

verus! {

/// The conversation of one message is its role, a colon and a space, and its whole content. The
/// conversation of none is empty.
pub proof fn one_message_is_written_whole(message: BufferedMessageView)
    ensures
        buffer::conversation(seq![message]) == message.role + ": "@ + message.content,
        buffer::conversation(Seq::empty()).len() == 0,
{
    assert(buffer::lines(seq![message]) =~= seq![message.role + ": "@ + message.content]);
    text_laws::one_part_is_joined_as_it_is(
        message.role + ": "@ + message.content,
        "\n\n"@,
    );
    assert(buffer::lines(Seq::empty()) =~= Seq::empty());
}

/// Every message stands in the conversation with its role and its whole content, however long it
/// is.
pub proof fn every_message_is_written_whole(messages: Seq<BufferedMessageView>, i: int)
    requires
        0 <= i < messages.len(),
    ensures
        exists|front: Seq<char>, back: Seq<char>|
            buffer::conversation(messages) == #[trigger] (front + (messages[i].role + ": "@
                + messages[i].content) + back),
{
    text_laws::every_part_is_joined_whole(buffer::lines(messages), "\n\n"@, i);
}

/// What is said later comes behind what was said before, after an empty line; nothing of either is
/// left out or added.
pub proof fn later_messages_are_written_behind(
    earlier: Seq<BufferedMessageView>,
    later: BufferedMessageView,
)
    requires
        earlier.len() > 0,
    ensures
        buffer::conversation(earlier.push(later)) == buffer::conversation(earlier) + "\n\n"@ + (
        later.role + ": "@ + later.content),
{
    assert(earlier.push(later) =~= earlier + seq![later]);
    buffer::conversation_concat(earlier, seq![later]);
    one_message_is_written_whole(later);
}

/// The total of a buffer is the plain sum of the lengths of its messages: of one message its
/// length, and of two parts put together the sum of the two totals.
pub proof fn lengths_add_up(
    one: BufferedMessageView,
    left: Seq<BufferedMessageView>,
    right: Seq<BufferedMessageView>,
)
    ensures
        buffer::total_chars(Seq::empty()) == 0,
        buffer::total_chars(seq![one]) == one.char_count,
        buffer::total_chars(left + right) == buffer::total_chars(left) + buffer::total_chars(
            right,
        ),
    decreases right.len(),
{
    assert(seq![one].drop_last() =~= Seq::<BufferedMessageView>::empty());
    assert(buffer::total_chars(Seq::empty()) == 0);
    if right.len() == 0 {
        assert(left + right =~= left);
    } else {
        lengths_add_up(one, left, right.drop_last());
        assert((left + right).drop_last() =~= left + right.drop_last());
    }
}

/// Four characters more are one token more, and fewer than four are none.
pub proof fn four_characters_make_a_token(chars: nat)
    ensures
        chars < 4 ==> buffer::tokens(chars) == 0,
        buffer::tokens(chars + 4) == buffer::tokens(chars) + 1,
{
}

/// A message that is put into the buffer holds what was given, and its length is the number of
/// characters of its content.
pub proof fn messages_hold_what_was_given(
    id: Seq<char>,
    session_id: Seq<char>,
    role: Seq<char>,
    content: Seq<char>,
    created_at: Seq<char>,
)
    ensures
        ({
            let message = buffer::message_for(id, session_id, role, content, created_at);
            &&& message.id == id
            &&& message.session_id == session_id
            &&& message.role == role
            &&& message.content == content
            &&& message.char_count == content.len()
            &&& message.created_at == created_at
        }),
{
}

/// The cutoff is the instant itself for no hours, and each hour more moves it back by 3600 seconds.
/// Its text is that of the second, and there is one exactly where the second can be represented.
pub proof fn each_hour_moves_the_cutoff_back(secs: i64, nanos: u32, ttl_hours: u64)
    requires
        ttl_hours < u64::MAX,
    ensures
        buffer::cutoff_second(secs as int, 0) == secs,
        buffer::cutoff_second(secs as int, (ttl_hours + 1) as u64) + 3600 == buffer::cutoff_second(
            secs as int,
            ttl_hours,
        ),
        buffer::cutoff_at(secs, nanos, ttl_hours) matches Some(shown) ==> shown
            == outside::rfc3339_text(
            buffer::cutoff_second(secs as int, ttl_hours) as i64,
            nanos,
        ),
        buffer::cutoff_at(secs, nanos, ttl_hours) is Some <==> -8_334_601_228_800
            <= buffer::cutoff_second(secs as int, ttl_hours) <= 8_210_266_876_799,
{
}

/// What counts as a timestamp is the text of an instant from the Unix epoch on.
pub proof fn timestamps_are_texts_of_instants(shown: Seq<char>)
    requires
        buffer::is_timestamp(shown),
    ensures
        exists|secs: i64, nanos: u32|
            shown == #[trigger] outside::rfc3339_text(secs, nanos) && 0 <= secs
                <= 8_210_266_876_799 && nanos < 1_000_000_000,
{
}

} // verus!
