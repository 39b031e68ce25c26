//! What holds of every operation on text.

use vstd::prelude::*;
use vstd::utf8::*;

use crate::outside;
use crate::text;

verus! {

/// Whether `pattern` is what stands in `text` from `at` on.
pub open spec fn holds_at(text: Seq<char>, at: int, pattern: Seq<char>) -> bool {
    0 <= at && at + pattern.len() <= text.len() && text.subrange(at, at + pattern.len()) == pattern
}

/// A text that is too long is cut behind its first `limit` characters, which stay as they are, and
/// three dots say so. Any other text is given back.
pub proof fn the_front_is_shown(full: Seq<char>, limit: nat)
    ensures
        full.len() <= limit ==> text::shortened(full, limit) == full,
        full.len() > limit ==> {
            let shown = text::shortened(full, limit);
            &&& shown.len() == limit + 3
            &&& forall|i: int| 0 <= i < limit ==> #[trigger] shown[i] == full[i]
            &&& forall|i: int| limit <= i < limit + 3 ==> #[trigger] shown[i] == '.'
        },
{
    reveal_strlit("...");
}

proof fn holding_is_standing(full: Seq<char>, at: int, pattern: Seq<char>)
    requires
        0 <= at,
    ensures
        holds_at(full, at, pattern) <==> text::stands_at(full, at, pattern),
{
    if text::stands_at(full, at, pattern) {
        assert(full.subrange(at, at + pattern.len()) =~= pattern);
    }
    if holds_at(full, at, pattern) {
        assert forall|k: int| 0 <= k < pattern.len() implies #[trigger] pattern[k] == full[at
            + k] by {
            assert(full.subrange(at, at + pattern.len())[k] == full[at + k]);
        }
    }
}

/// A text that does not hold the pattern is given back.
pub proof fn nothing_is_replaced_without_the_pattern(
    full: Seq<char>,
    pattern: Seq<char>,
    with: Seq<char>,
)
    requires
        pattern.len() > 0,
        forall|k: int| !(#[trigger] holds_at(full, k, pattern)),
    ensures
        text::replaced(full, pattern, with) == full,
    decreases full.len(),
{
    if full.len() >= pattern.len() {
        holding_is_standing(full, 0, pattern);
        assert(!holds_at(full, 0, pattern));
        let rest = full.skip(1);
        assert forall|k: int| !(#[trigger] holds_at(rest, k, pattern)) by {
            assert(!holds_at(full, k + 1, pattern));
            if holds_at(rest, k, pattern) {
                assert(full.subrange(k + 1, k + 1 + pattern.len()) =~= rest.subrange(
                    k,
                    k + pattern.len(),
                ));
            }
        }
        nothing_is_replaced_without_the_pattern(rest, pattern, with);
        assert(seq![full[0]] + rest =~= full);
    }
}

/// The first place of the pattern is exchanged, what stands before it stays, and behind it the rest
/// is gone through in the same way.
pub proof fn the_first_place_is_replaced(
    before: Seq<char>,
    pattern: Seq<char>,
    rest: Seq<char>,
    with: Seq<char>,
)
    requires
        pattern.len() > 0,
        forall|k: int|
            k < before.len() ==> !(#[trigger] holds_at(before + pattern + rest, k, pattern)),
    ensures
        text::replaced(before + pattern + rest, pattern, with) == before + with + text::replaced(
            rest,
            pattern,
            with,
        ),
    decreases before.len(),
{
    let full = before + pattern + rest;
    holding_is_standing(full, 0, pattern);
    if before.len() == 0 {
        assert(full.subrange(0, pattern.len() as int) =~= pattern);
        assert(full.skip(pattern.len() as int) =~= rest);
        assert(before + with + text::replaced(rest, pattern, with) =~= with + text::replaced(
            rest,
            pattern,
            with,
        ));
    } else {
        assert(!holds_at(full, 0, pattern));
        let later = before.skip(1);
        assert(full.skip(1) =~= later + pattern + rest);
        assert forall|k: int| k < later.len() implies !(#[trigger] holds_at(
            later + pattern + rest,
            k,
            pattern,
        )) by {
            assert(!holds_at(full, k + 1, pattern));
            if holds_at(later + pattern + rest, k, pattern) {
                assert(full.subrange(k + 1, k + 1 + pattern.len()) =~= (later + pattern
                    + rest).subrange(k, k + pattern.len()));
            }
        }
        the_first_place_is_replaced(later, pattern, rest, with);
        assert(seq![full[0]] + (later + with + text::replaced(rest, pattern, with)) =~= before
            + with + text::replaced(rest, pattern, with));
    }
}

/// A pattern that a text holds once is exchanged there, and nothing else changes.
pub proof fn the_only_place_is_replaced(
    before: Seq<char>,
    pattern: Seq<char>,
    rest: Seq<char>,
    with: Seq<char>,
)
    requires
        pattern.len() > 0,
        forall|k: int|
            k != before.len() ==> !(#[trigger] holds_at(before + pattern + rest, k, pattern)),
    ensures
        text::replaced(before + pattern + rest, pattern, with) == before + with + rest,
{
    let full = before + pattern + rest;
    the_first_place_is_replaced(before, pattern, rest, with);
    assert forall|k: int| !(#[trigger] holds_at(rest, k, pattern)) by {
        let at = k + before.len() + pattern.len();
        assert(k >= 0 ==> !holds_at(full, at, pattern));
        if holds_at(rest, k, pattern) {
            assert(full.subrange(at, at + pattern.len()) =~= rest.subrange(k, k + pattern.len()));
        }
    }
    nothing_is_replaced_without_the_pattern(rest, pattern, with);
}

/// One part alone is joined as it is, and no parts make an empty text.
pub proof fn one_part_is_joined_as_it_is(part: Seq<char>, sep: Seq<char>)
    ensures
        text::joined(seq![part], sep) == part,
        text::joined(Seq::empty(), sep) == Seq::<char>::empty(),
{
    assert(Seq::<Seq<char>>::empty().push(part) =~= seq![part]);
    text::joined_push(Seq::empty(), part, sep);
}

/// Every part stands whole in the joined text.
pub proof fn every_part_is_joined_whole(parts: Seq<Seq<char>>, sep: Seq<char>, i: int)
    requires
        0 <= i < parts.len(),
    ensures
        exists|front: Seq<char>, back: Seq<char>|
            text::joined(parts, sep) == #[trigger] (front + parts[i] + back),
    decreases parts.len(),
{
    let last = parts.last();
    let init = parts.drop_last();
    assert(parts =~= init.push(last));
    text::joined_push(init, last, sep);
    let all = text::joined(parts, sep);
    if i == parts.len() - 1 {
        let front = if init.len() == 0 {
            Seq::empty()
        } else {
            text::joined(init, sep) + sep
        };
        assert(all =~= front + parts[i] + Seq::empty());
    } else {
        every_part_is_joined_whole(init, sep, i);
        let (front, back) = choose|front: Seq<char>, back: Seq<char>|
            text::joined(init, sep) == #[trigger] (front + init[i] + back);
        assert(all =~= front + parts[i] + (back + sep + last));
    }
}

/// Texts put one after the other hold the characters of each: none of no texts, those of one text
/// alone, and of two lists those of the first and then those of the second.
pub proof fn texts_are_put_one_after_the_other(
    one: Seq<char>,
    left: Seq<Seq<char>>,
    right: Seq<Seq<char>>,
)
    ensures
        text::concatenated(Seq::empty()) == Seq::<char>::empty(),
        text::concatenated(seq![one]) == one,
        text::concatenated(left + right) == text::concatenated(left) + text::concatenated(right),
    decreases right.len(),
{
    assert(seq![one].drop_last() =~= Seq::<Seq<char>>::empty());
    assert(text::concatenated(seq![one].drop_last()) + one =~= one);
    if right.len() == 0 {
        assert(left + right =~= left);
        assert(text::concatenated(left) + Seq::<char>::empty() =~= text::concatenated(left));
    } else {
        texts_are_put_one_after_the_other(one, left, right.drop_last());
        assert((left + right).drop_last() =~= left + right.drop_last());
        assert(text::concatenated(left) + text::concatenated(right.drop_last()) + right.last()
            =~= text::concatenated(left) + (text::concatenated(right.drop_last())
            + right.last()));
    }
}

/// The number that decimal digits stand for.
pub open spec fn number(digits: Seq<char>) -> int
    decreases digits.len(),
{
    if digits.len() == 0 {
        0
    } else {
        10 * number(digits.drop_last()) + (digits.last() as int - '0' as int)
    }
}

/// A number written in decimal reads as that number, in digits alone and without leading zeros.
pub proof fn decimals_read_back(n: nat)
    ensures
        number(text::decimal(n)) == n,
        text::decimal(n).len() > 0,
        forall|i: int|
            0 <= i < text::decimal(n).len() ==> '0' <= #[trigger] text::decimal(n)[i] <= '9',
        n >= 10 ==> text::decimal(n)[0] != '0',
    decreases n,
{
    if n < 10 {
        assert(text::decimal(n).drop_last() =~= Seq::<char>::empty());
        assert(text::digit(n) as int == '0' as int + n);
        assert(number(Seq::empty()) == 0);
    } else {
        let tens = n / 10;
        decimals_read_back(tens);
        assert(text::decimal(n).drop_last() =~= text::decimal(tens));
        assert(text::digit(n % 10) as int == '0' as int + n % 10);
        if tens < 10 {
            assert(text::digit(tens) as int == '0' as int + tens);
        }
        assert(text::decimal(n)[0] == text::decimal(tens)[0]);
    }
}

proof fn leading_space_is_cut(full: Seq<char>)
    ensures
        ({
            let kept = text::without_leading_space(full);
            let cut = full.len() - kept.len();
            &&& 0 <= cut
            &&& kept == full.skip(cut)
            &&& forall|i: int| 0 <= i < cut ==> outside::is_white_space(#[trigger] full[i])
            &&& kept.len() > 0 ==> !outside::is_white_space(kept[0])
        }),
    decreases full.len(),
{
    if full.len() > 0 && outside::is_white_space(full[0]) {
        let rest = full.skip(1);
        leading_space_is_cut(rest);
        let cut = full.len() - text::without_leading_space(full).len();
        assert(rest.skip(cut - 1) =~= full.skip(cut));
        assert forall|i: int| 0 <= i < cut implies outside::is_white_space(
            #[trigger] full[i],
        ) by {
            if i > 0 {
                assert(rest[i - 1] == full[i]);
            }
        }
    } else {
        assert(full.skip(0) =~= full);
    }
}

proof fn trailing_space_is_cut(full: Seq<char>)
    ensures
        ({
            let kept = text::without_trailing_space(full);
            &&& kept.len() <= full.len()
            &&& kept == full.take(kept.len() as int)
            &&& forall|i: int|
                kept.len() <= i < full.len() ==> outside::is_white_space(#[trigger] full[i])
            &&& kept.len() > 0 ==> !outside::is_white_space(kept.last())
        }),
    decreases full.len(),
{
    if full.len() > 0 && outside::is_white_space(full.last()) {
        let rest = full.drop_last();
        trailing_space_is_cut(rest);
        let kept = text::without_trailing_space(full);
        assert(rest.take(kept.len() as int) =~= full.take(kept.len() as int));
        assert forall|i: int| kept.len() <= i < full.len() implies outside::is_white_space(
            #[trigger] full[i],
        ) by {
            if i < rest.len() {
                assert(rest[i] == full[i]);
            }
        }
    } else {
        assert(full.take(full.len() as int) =~= full);
    }
}

/// Trimming takes away white space in front and at the end and nothing else, and leaves none at
/// either end.
pub proof fn only_outer_space_is_trimmed(full: Seq<char>)
    ensures
        ({
            let kept = text::trimmed(full);
            &&& exists|front: Seq<char>, back: Seq<char>|
                {
                    &&& full == #[trigger] (front + kept + back)
                    &&& forall|i: int|
                        0 <= i < front.len() ==> outside::is_white_space(#[trigger] front[i])
                    &&& forall|i: int|
                        0 <= i < back.len() ==> outside::is_white_space(#[trigger] back[i])
                }
            &&& kept.len() > 0 ==> !outside::is_white_space(kept[0])
                && !outside::is_white_space(kept.last())
        }),
{
    let later = text::without_leading_space(full);
    let kept = text::trimmed(full);
    leading_space_is_cut(full);
    trailing_space_is_cut(later);
    let cut = full.len() - later.len();
    let front = full.take(cut);
    let back = later.skip(kept.len() as int);
    assert(full =~= front + kept + back);
    assert forall|i: int| 0 <= i < front.len() implies outside::is_white_space(
        #[trigger] front[i],
    ) by {
        assert(front[i] == full[i]);
    }
    assert forall|i: int| 0 <= i < back.len() implies outside::is_white_space(
        #[trigger] back[i],
    ) by {
        assert(back[i] == later[i + kept.len()]);
    }
}

proof fn characters_end_at_boundaries(head: Seq<char>, tail: Seq<char>)
    ensures
        encode_utf8(head + tail) == encode_utf8(head) + encode_utf8(tail),
        is_char_boundary(encode_utf8(head + tail), encode_utf8(head).len() as int),
    decreases head.len(),
{
    let bytes = encode_utf8(head + tail);
    encode_utf8_valid_utf8(head + tail);
    if head.len() == 0 {
        assert(head + tail =~= tail);
        assert(encode_utf8(head) + encode_utf8(tail) =~= encode_utf8(tail));
    } else {
        let rest = head.drop_first();
        characters_end_at_boundaries(rest, tail);
        assert((head + tail).drop_first() =~= rest + tail);
        encode_utf8_first_scalar(head + tail);
        assert(pop_first_scalar(bytes) =~= encode_utf8(rest + tail));
        assert(encode_scalar(head[0] as u32) + (encode_utf8(rest) + encode_utf8(tail))
            =~= encode_utf8(head) + encode_utf8(tail));
    }
}

/// Where the first characters of a text take ten bytes in UTF-8 they are what is shown of it. Where
/// no characters end there, all of the text is.
pub proof fn ten_bytes_are_shown(head: Seq<char>, tail: Seq<char>)
    ensures
        encode_utf8(head).len() == 10 ==> text::ten_byte_prefix(head + tail) == head,
        text::ten_byte_prefix(head) == head || exists|rest: Seq<char>| #[trigger]
            (text::ten_byte_prefix(head) + rest) == head && encode_utf8(
                text::ten_byte_prefix(head),
            ).len() == 10,
{
    if encode_utf8(head).len() == 10 {
        characters_end_at_boundaries(head, tail);
        let bytes = encode_utf8(head + tail);
        assert(bytes.subrange(0, 10) =~= encode_utf8(head));
        encode_utf8_decode_utf8(head);
    }
    let bytes = encode_utf8(head);
    if is_char_boundary(bytes, 10) {
        encode_utf8_valid_utf8(head);
        encode_utf8_decode_utf8(head);
        valid_utf8_split(bytes, 10);
        decode_utf8_split(bytes, 10);
        decode_utf8_encode_utf8(bytes.subrange(0, 10));
        let shown = text::ten_byte_prefix(head);
        let rest = decode_utf8(bytes.subrange(10, bytes.len() as int));
        if bytes.len() >= 10 {
            assert(encode_utf8(shown).len() == 10);
            assert(shown + rest == head);
        } else {
            assert(false) by {
                short_bytes_have_no_boundary_behind(bytes, 10);
            }
        }
    }
}

proof fn short_bytes_have_no_boundary_behind(bytes: Seq<u8>, at: int)
    requires
        valid_utf8(bytes),
        at > bytes.len(),
    ensures
        !is_char_boundary(bytes, at),
{
}

/// A text that is there is taken, and a missing one is empty.
pub proof fn missing_text_is_empty(known: Seq<char>)
    ensures
        text::or_empty(Some(known)) == known,
        text::or_empty(None).len() == 0,
{
}

/// A list is viewed value by value, in the same order.
pub proof fn views_are_taken_one_by_one<T: View>(items: Seq<T>, i: int)
    requires
        0 <= i < items.len(),
    ensures
        text::views(items).len() == items.len(),
        text::views(items)[i] == items[i]@,
        text::view_of(Some(items[i])) == Some(items[i]@),
        text::view_of(None::<T>) is None,
{
}

} // verus!
