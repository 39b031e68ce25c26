//! Operations on text, stated over sequences of characters.

use vstd::prelude::*;
use vstd::string::*;
use vstd::utf8::*;

use crate::outside;

verus! {

/// The views of a sequence of values.
pub open spec fn views<T: View>(items: Seq<T>) -> Seq<T::V> {
    Seq::new(items.len(), |i: int| items[i]@)
}

/// The view of an optional value.
pub open spec fn view_of<T: View>(item: Option<T>) -> Option<T::V> {
    match item {
        Some(value) => Some(value@),
        None => None,
    }
}

/// A text that may be missing; a missing one is empty.
pub open spec fn or_empty(text: Option<Seq<char>>) -> Seq<char> {
    match text {
        Some(content) => content,
        None => Seq::empty(),
    }
}

/// The text, or an empty one where it is missing.
pub fn text_or_empty(text: Option<String>) -> (result: String)
    ensures
        result@ == or_empty(view_of(text)),
{
    match text {
        Some(content) => content,
        None => String::new(),
    }
}

/// A copy of an optional text.
pub fn copy_option(text: &Option<String>) -> (copy: Option<String>)
    ensures
        view_of(copy) == view_of(*text),
{
    match text {
        Some(content) => Some(content.clone()),
        None => None,
    }
}

/// The characters of `text`, one after the other.
pub fn char_vec(text: &str) -> (chars: Vec<char>)
    ensures
        chars@ == text@,
{
    let mut chars: Vec<char> = Vec::new();
    for c in it: text.chars()
        invariant
            it.seq() == text@,
            chars@ == text@.take(it.index() as int),
    {
        chars.push(c);
        assert(chars@ =~= text@.take(it.index() + 1));
    }
    assert(text@.take(text@.len() as int) =~= text@);
    chars
}

/// Whether two texts hold the same characters.
pub fn same_text(left: &str, right: &str) -> (same: bool)
    ensures
        same == (left@ == right@),
{
    let a: Vec<char> = char_vec(left);
    let b: Vec<char> = char_vec(right);
    if a.len() != b.len() {
        return false;
    }
    let mut i: usize = 0;
    while i < a.len()
        invariant
            a@ == left@,
            b@ == right@,
            a.len() == b.len(),
            i <= a.len(),
            forall|k: int| 0 <= k < i ==> a@[k] == b@[k],
        decreases a.len() - i,
    {
        if a[i] != b[i] {
            assert(left@[i as int] != right@[i as int]);
            return false;
        }
        i += 1;
    }
    assert(left@ =~= right@);
    true
}

/// Whether `pattern` stands in `text` at `at`.
pub open spec fn stands_at(text: Seq<char>, at: int, pattern: Seq<char>) -> bool {
    &&& at + pattern.len() <= text.len()
    &&& forall|k: int| 0 <= k < pattern.len() ==> #[trigger] pattern[k] == text[at + k]
}

/// `text` with every occurrence of `pattern`, found from left to right and without overlap,
/// exchanged for `with`.
pub open spec fn replaced(text: Seq<char>, pattern: Seq<char>, with: Seq<char>) -> Seq<char>
    decreases text.len(),
{
    if pattern.len() == 0 || text.len() < pattern.len() {
        text
    } else if stands_at(text, 0, pattern) {
        with + replaced(text.skip(pattern.len() as int), pattern, with)
    } else {
        seq![text[0]] + replaced(text.skip(1), pattern, with)
    }
}

fn pattern_at(text: &Vec<char>, at: usize, pattern: &Vec<char>) -> (found: bool)
    requires
        at <= text.len(),
    ensures
        found == stands_at(text@.skip(at as int), 0, pattern@),
{
    if text.len() - at < pattern.len() {
        return false;
    }
    let mut k: usize = 0;
    while k < pattern.len()
        invariant
            k <= pattern.len(),
            at + pattern.len() <= text.len(),
            forall|j: int| 0 <= j < k ==> #[trigger] pattern@[j] == text@[at + j],
        decreases pattern.len() - k,
    {
        if text[at + k] != pattern[k] {
            assert(pattern@[k as int] != text@.skip(at as int)[0 + k]);
            return false;
        }
        k += 1;
    }
    true
}

/// Exchanges every occurrence of `pattern` in `text` for `with`.
pub fn replace(text: &str, pattern: &str, with: &str) -> (result: String)
    requires
        pattern@.len() > 0,
    ensures
        result@ == replaced(text@, pattern@, with@),
{
    let chars: Vec<char> = char_vec(text);
    let wanted: Vec<char> = char_vec(pattern);
    let mut result: String = String::new();
    let mut i: usize = 0;
    assert(chars@.skip(0) =~= chars@);
    while wanted.len() <= chars.len() - i
        invariant
            wanted@ == pattern@,
            pattern@.len() > 0,
            i <= chars.len(),
            chars@ == text@,
            result@ + replaced(chars@.skip(i as int), pattern@, with@) == replaced(
                text@,
                pattern@,
                with@,
            ),
        decreases chars.len() - i,
    {
        let ghost rest = chars@.skip(i as int);
        let ghost done = result@;
        if pattern_at(&chars, i, &wanted) {
            result.append(with);
            i += wanted.len();
            assert(rest.skip(pattern@.len() as int) =~= chars@.skip(i as int));
            assert(done + (with@ + replaced(chars@.skip(i as int), pattern@, with@)) =~= (done
                + with@) + replaced(chars@.skip(i as int), pattern@, with@));
        } else {
            result.push(chars[i]);
            i += 1;
            assert(rest.skip(1) =~= chars@.skip(i as int));
            assert(done + (seq![rest[0]] + replaced(chars@.skip(i as int), pattern@, with@))
                =~= done.push(rest[0]) + replaced(chars@.skip(i as int), pattern@, with@));
        }
    }
    while i < chars.len()
        invariant
            i <= chars.len(),
            chars@ == text@,
            chars.len() - i < pattern@.len(),
            result@ + chars@.skip(i as int) == replaced(text@, pattern@, with@),
        decreases chars.len() - i,
    {
        let ghost done = result@;
        let ghost rest = chars@.skip(i as int);
        result.push(chars[i]);
        i += 1;
        assert(done + rest =~= result@ + chars@.skip(i as int));
    }
    assert(result@ + chars@.skip(i as int) =~= result@);
    result
}

/// Each of `parts` with `sep` in front of it, one after the other.
pub open spec fn led_by(sep: Seq<char>, parts: Seq<Seq<char>>) -> Seq<char>
    decreases parts.len(),
{
    if parts.len() == 0 {
        Seq::empty()
    } else {
        led_by(sep, parts.drop_last()) + (sep + parts.last())
    }
}

/// `parts` in order with `sep` between neighbours.
pub open spec fn joined(parts: Seq<Seq<char>>, sep: Seq<char>) -> Seq<char> {
    if parts.len() == 0 {
        Seq::empty()
    } else {
        parts[0] + led_by(sep, parts.skip(1))
    }
}

/// Joining one part more puts the separator and that part behind what was joined before.
pub proof fn joined_push(parts: Seq<Seq<char>>, part: Seq<char>, sep: Seq<char>)
    ensures
        joined(parts.push(part), sep) == if parts.len() == 0 {
            part
        } else {
            joined(parts, sep) + sep + part
        },
{
    let all = parts.push(part);
    if parts.len() == 0 {
        assert(all.skip(1) =~= Seq::<Seq<char>>::empty());
        assert(all[0] + Seq::<char>::empty() =~= part);
    } else {
        assert(all.skip(1).drop_last() =~= parts.skip(1));
        assert(all.skip(1).last() == part);
        assert(all[0] == parts[0]);
        assert(parts[0] + (led_by(sep, parts.skip(1)) + (sep + part)) =~= (parts[0] + led_by(
            sep,
            parts.skip(1),
        )) + sep + part);
    }
}

/// Text joined in two halves is the text joined at once.
pub proof fn joined_concat(left: Seq<Seq<char>>, right: Seq<Seq<char>>, sep: Seq<char>)
    requires
        left.len() > 0,
        right.len() > 0,
    ensures
        joined(left + right, sep) == joined(left, sep) + sep + joined(right, sep),
    decreases right.len(),
{
    let last = right.last();
    let init = right.drop_last();
    assert((left + right) =~= (left + init).push(last));
    joined_push(left + init, last, sep);
    assert(right =~= init.push(last));
    joined_push(init, last, sep);
    if init.len() == 0 {
        assert(left + init =~= left);
    } else {
        joined_concat(left, init, sep);
        assert(joined(left, sep) + sep + joined(init, sep) + sep + last =~= joined(left, sep) + sep
            + (joined(init, sep) + sep + last));
    }
}

/// Joins parts with `sep` between neighbours.
pub fn join(parts: &[String], sep: &str) -> (result: String)
    ensures
        result@ == joined(views(parts@), sep@),
{
    let mut result: String = String::new();
    let ghost all = views(parts@);
    assert(all.take(0) =~= Seq::empty());
    for i in 0..parts.len()
        invariant
            all == views(parts@),
            result@ == joined(all.take(i as int), sep@),
    {
        proof {
            joined_push(all.take(i as int), all[i as int], sep@);
            assert(all.take(i + 1) =~= all.take(i as int).push(all[i as int]));
            assert(Seq::<char>::empty() + all[i as int] =~= all[i as int]);
        }
        if i > 0 {
            result.append(sep);
        }
        result.append(&parts[i]);
    }
    assert(all.take(all.len() as int) =~= all);
    result
}

/// `parts` one after the other.
pub open spec fn concatenated(parts: Seq<Seq<char>>) -> Seq<char>
    decreases parts.len(),
{
    if parts.len() == 0 {
        Seq::empty()
    } else {
        concatenated(parts.drop_last()) + parts.last()
    }
}

/// The decimal digit of value `d`.
pub open spec fn digit(d: nat) -> char {
    (('0' as nat) + d) as char
}

/// `n` in decimal, without leading zeros.
pub open spec fn decimal(n: nat) -> Seq<char>
    decreases n,
{
    if n < 10 {
        seq![digit(n)]
    } else {
        decimal(n / 10).push(digit(n % 10))
    }
}

fn digit_char(d: usize) -> (c: char)
    requires
        d < 10,
    ensures
        c == digit(d as nat),
{
    (48u8 + d as u8) as char
}

/// Appends `n` in decimal.
pub fn append_decimal(text: &mut String, n: usize)
    ensures
        final(text)@ == old(text)@ + decimal(n as nat),
    decreases n,
{
    let ghost before = text@;
    if n >= 10 {
        append_decimal(text, n / 10);
        text.push(digit_char(n % 10));
        assert(before + decimal((n / 10) as nat).push(digit((n % 10) as nat)) =~= (before + decimal(
            (n / 10) as nat,
        )).push(digit((n % 10) as nat)));
    } else {
        text.push(digit_char(n));
        assert(before + seq![digit(n as nat)] =~= before.push(digit(n as nat)));
    }
}

/// The first ten bytes of `text` in UTF-8, where they are whole characters, and else all of it.
pub open spec fn ten_byte_prefix(text: Seq<char>) -> Seq<char> {
    if is_char_boundary(encode_utf8(text), 10) {
        decode_utf8(encode_utf8(text).subrange(0, 10))
    } else {
        text
    }
}

/// The date at the front of an RFC 3339 timestamp; a text too short to hold one is given back.
pub fn date_part(text: &str) -> (date: &str)
    ensures
        date@ == ten_byte_prefix(text@),
{
    if text.is_char_boundary(10) {
        let parts: (&str, &str) = text.split_at(10);
        proof {
            encode_utf8_decode_utf8(parts.0@);
        }
        parts.0
    } else {
        text
    }
}

/// Of a timestamp in ASCII, the date part is the first ten characters.
pub proof fn ten_byte_prefix_of_ascii(text: Seq<char>)
    requires
        is_ascii_chars(text),
    ensures
        text.len() >= 10 ==> ten_byte_prefix(text) == text.take(10),
        text.len() < 10 ==> ten_byte_prefix(text) == text,
{
    let bytes = encode_utf8(text);
    encode_utf8_valid_utf8(text);
    is_ascii_chars_encode_utf8(text);
    if text.len() >= 10 {
        let head = text.take(10);
        assert(is_ascii_chars(head));
        is_ascii_chars_encode_utf8(head);
        assert(encode_utf8(head) =~= bytes.subrange(0, 10)) by {
            assert forall|i: int| 0 <= i < 10 implies encode_utf8(head)[i] == bytes[i] by {
                assert(head[i] == text[i]);
            }
        }
        if text.len() == 10 {
            is_char_boundary_start_end_of_seq(bytes);
        } else {
            is_char_boundary_iff_not_is_continuation_byte(bytes, 10);
            let b = bytes[10];
            assert(text[10] as u8 == b);
            assert(b < 128);
            utf8_byte_ranges_bitwise(b);
            assert(is_char_boundary(bytes, 10));
        }
        encode_utf8_decode_utf8(head);
    } else {
        assert(bytes.len() < 10);
    }
}

/// `text` without the white space in front.
pub open spec fn without_leading_space(text: Seq<char>) -> Seq<char>
    decreases text.len(),
{
    if text.len() > 0 && outside::is_white_space(text[0]) {
        without_leading_space(text.skip(1))
    } else {
        text
    }
}

/// `text` without the white space at its end.
pub open spec fn without_trailing_space(text: Seq<char>) -> Seq<char>
    decreases text.len(),
{
    if text.len() > 0 && outside::is_white_space(text.last()) {
        without_trailing_space(text.drop_last())
    } else {
        text
    }
}

/// `text` without the white space at its two ends.
pub open spec fn trimmed(text: Seq<char>) -> Seq<char> {
    without_trailing_space(without_leading_space(text))
}

/// Takes the white space off the two ends of `text`.
pub fn trim(text: &str) -> (result: String)
    ensures
        result@ == trimmed(text@),
{
    let chars: Vec<char> = char_vec(text);
    let mut start: usize = 0;
    assert(chars@.skip(0) =~= chars@);
    while start < chars.len() && chars[start].is_whitespace()
        invariant
            chars@ == text@,
            start <= chars.len(),
            without_leading_space(chars@.skip(start as int)) == without_leading_space(text@),
        ensures
            start <= chars.len(),
            start == chars.len() || !outside::is_white_space(chars@[start as int]),
            without_leading_space(chars@.skip(start as int)) == without_leading_space(text@),
        decreases chars.len() - start,
    {
        assert(chars@.skip(start as int).skip(1) =~= chars@.skip(start + 1));
        start += 1;
    }
    let ghost front = chars@.skip(start as int);
    assert(front == without_leading_space(text@));
    let mut end: usize = chars.len();
    assert(chars@.subrange(start as int, end as int) =~= front);
    while start < end && chars[end - 1].is_whitespace()
        invariant
            start <= end <= chars.len(),
            without_trailing_space(chars@.subrange(start as int, end as int))
                == without_trailing_space(front),
        ensures
            start <= end <= chars.len(),
            start == end || !outside::is_white_space(chars@[end - 1]),
            without_trailing_space(chars@.subrange(start as int, end as int))
                == without_trailing_space(front),
        decreases end - start,
    {
        assert(chars@.subrange(start as int, end as int).drop_last() =~= chars@.subrange(
            start as int,
            end - 1,
        ));
        end -= 1;
    }
    let ghost kept = chars@.subrange(start as int, end as int);
    assert(kept == without_trailing_space(front));
    let result: &str = text.substring_char(start, end);
    String::from_str(result)
}

/// The first `limit` characters of `text` with an ellipsis, where there are more of them.
pub open spec fn shortened(text: Seq<char>, limit: nat) -> Seq<char> {
    if text.len() > limit {
        text.take(limit as int) + "..."@
    } else {
        text
    }
}

/// Cuts `text` down to its first `limit` characters and an ellipsis, where there are more.
pub fn shorten(text: &str, limit: usize) -> (result: String)
    ensures
        result@ == shortened(text@, limit as nat),
{
    if text.unicode_len() > limit {
        let mut result: String = String::from_str(text.substring_char(0, limit));
        result.append("...");
        assert(text@.subrange(0, limit as int) =~= text@.take(limit as int));
        result
    } else {
        String::from_str(text)
    }
}

} // verus!
