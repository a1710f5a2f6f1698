//! Text seen as characters and as UTF-8 bytes.
//!
//! Ranges that cross the control plane are byte ranges of UTF-8 text. The contracts here speak of
//! the encoded bytes, so that a range names the same text on both sides of the wire.
use vstd::prelude::*;
use vstd::string::*;
use vstd::utf8::*;

verus! {

/// The UTF-8 bytes of `text`.
#[verifier::opaque]
pub open spec fn utf8(text: Seq<char>) -> Seq<u8> {
    encode_utf8(text)
}

/// The character is white space.
pub open spec fn is_white_space(c: char) -> bool {
    let code = c as u32;
    ||| 0x09 <= code <= 0x0d
    ||| code == 0x20
    ||| code == 0x85
    ||| code == 0xa0
    ||| code == 0x1680
    ||| 0x2000 <= code <= 0x200a
    ||| code == 0x2028
    ||| code == 0x2029
    ||| code == 0x202f
    ||| code == 0x205f
    ||| code == 0x3000
}

/// `true` exactly for white space.
pub fn is_white(c: char) -> (white: bool)
    ensures
        white == is_white_space(c),
{
    let code: u32 = c as u32;
    (code >= 0x09 && code <= 0x0d) || code == 0x20 || code == 0x85 || code == 0xa0 || code == 0x1680
        || (code >= 0x2000 && code <= 0x200a) || code == 0x2028 || code == 0x2029 || code == 0x202f
        || code == 0x205f || code == 0x3000
}

/// `start..end` is a byte range of `text` whose ends fall between characters.
pub open spec fn is_text_range(text: Seq<char>, start: int, end: int) -> bool {
    &&& 0 <= start <= end <= utf8(text).len()
    &&& is_char_boundary(utf8(text), start)
    &&& is_char_boundary(utf8(text), end)
}

/// The text at the bytes `start..end` of `text`, where those bytes are a range of it.
pub open spec fn text_at(text: Seq<char>, start: int, end: int) -> Option<Seq<char>> {
    if is_text_range(text, start, end) {
        Some(decode_utf8(utf8(text).subrange(start, end)))
    } else {
        None
    }
}

/// Encoding keeps concatenation.
pub proof fn utf8_concat(a: Seq<char>, b: Seq<char>)
    ensures
        utf8(a + b) == utf8(a) + utf8(b),
    decreases a.len(),
{
    reveal(utf8);
    if a.len() == 0 {
        assert(a + b =~= b);
        assert(utf8(a) + utf8(b) =~= utf8(b));
    } else {
        assert((a + b).drop_first() =~= a.drop_first() + b);
        utf8_concat(a.drop_first(), b);
        assert(utf8(a + b) =~= utf8(a) + utf8(b));
    }
}

/// The empty text has no bytes.
pub proof fn utf8_empty()
    ensures
        utf8(Seq::<char>::empty()) == Seq::<u8>::empty(),
{
    reveal(utf8);
}

/// Two texts with the same bytes are the same text.
pub proof fn utf8_injective(a: Seq<char>, b: Seq<char>)
    requires
        utf8(a) == utf8(b),
    ensures
        a == b,
{
    reveal(utf8);
    encode_utf8_decode_utf8(a);
    encode_utf8_decode_utf8(b);
}

/// The bytes of the text at a range are the bytes in that range.
pub proof fn text_at_bytes(text: Seq<char>, start: int, end: int)
    requires
        is_text_range(text, start, end),
    ensures
        text_at(text, start, end) is Some,
        utf8(text_at(text, start, end)->0) == utf8(text).subrange(start, end),
{
    reveal(utf8);
    let bytes = utf8(text);
    encode_utf8_valid_utf8(text);
    let head = bytes.subrange(0, end);
    valid_utf8_split(bytes, end);
    assert(valid_utf8(head));
    boundary_in_prefix(bytes, start, end);
    valid_utf8_split(head, start);
    assert(head.subrange(start, head.len() as int) =~= bytes.subrange(start, end));
    decode_utf8_encode_utf8(bytes.subrange(start, end));
}

/// A boundary before another one is a boundary of the bytes before it.
pub proof fn boundary_in_prefix(bytes: Seq<u8>, start: int, end: int)
    requires
        valid_utf8(bytes),
        0 <= start <= end <= bytes.len(),
        is_char_boundary(bytes, start),
        is_char_boundary(bytes, end),
    ensures
        valid_utf8(bytes.subrange(0, end)),
        is_char_boundary(bytes.subrange(0, end), start),
{
    valid_utf8_split(bytes, end);
    let head = bytes.subrange(0, end);
    assert(valid_utf8(head));
    if start == end {
        is_char_boundary_start_end_of_seq(head);
    } else {
        assert(head[start] == bytes[start]);
        is_char_boundary_iff_not_is_continuation_byte(bytes, start);
        is_char_boundary_iff_not_is_continuation_byte(head, start);
    }
}

/// Where `text` is cut into three, the middle lies at its byte range.
pub proof fn text_at_middle(head: Seq<char>, middle: Seq<char>, tail: Seq<char>)
    ensures
        text_at(
            head + middle + tail,
            utf8(head).len() as int,
            (utf8(head).len() + utf8(middle).len()) as int,
        ) == Some(middle),
{
    reveal(utf8);
    let text = head + middle + tail;
    let start = utf8(head).len() as int;
    let end = (utf8(head).len() + utf8(middle).len()) as int;
    utf8_concat(head, middle);
    utf8_concat(head + middle, tail);
    encode_utf8_valid_utf8(head);
    encode_utf8_valid_utf8(head + middle);
    encode_utf8_valid_utf8(middle + tail);
    encode_utf8_valid_utf8(tail);
    encode_utf8_valid_utf8(text);
    boundary_between(utf8(head + middle), utf8(tail));
    assert(text =~= head + (middle + tail));
    utf8_concat(head, middle + tail);
    boundary_between(utf8(head), utf8(middle + tail));
    assert(utf8(text).subrange(start, end) =~= utf8(middle));
    encode_utf8_decode_utf8(middle);
}

/// Text found in a part of a longer text stands there too, further on by what precedes the part.
pub proof fn text_at_within(head: Seq<char>, text: Seq<char>, tail: Seq<char>, start: int, end: int)
    requires
        text_at(text, start, end) is Some,
    ensures
        text_at(head + text + tail, utf8(head).len() + start, utf8(head).len() + end) == text_at(
            text,
            start,
            end,
        ),
{
    let len = utf8(text).len() as int;
    reveal(utf8);
    encode_utf8_valid_utf8(text);
    is_char_boundary_start_end_of_seq(utf8(text));
    let before = text_at(text, 0, start)->0;
    let found = text_at(text, start, end)->0;
    let after = text_at(text, end, len)->0;
    text_at_bytes(text, 0, start);
    text_at_bytes(text, start, end);
    text_at_bytes(text, end, len);
    utf8_concat(before, found);
    utf8_concat(before + found, after);
    assert(utf8(before + found + after) =~= utf8(text));
    utf8_injective(before + found + after, text);
    utf8_concat(head, before);
    assert(head + text + tail =~= (head + before) + found + (after + tail));
    text_at_middle(head + before, found, after + tail);
}

/// The place where two encoded texts meet is a boundary.
proof fn boundary_between(head: Seq<u8>, tail: Seq<u8>)
    requires
        valid_utf8(head),
        valid_utf8(tail),
        valid_utf8(head + tail),
    ensures
        is_char_boundary(head + tail, head.len() as int),
{
    let whole = head + tail;
    if tail.len() == 0 {
        assert(whole =~= head);
        is_char_boundary_start_end_of_seq(head);
    } else {
        assert(whole[head.len() as int] == tail[0]);
        is_char_boundary_start_end_of_seq(tail);
        is_char_boundary_iff_not_is_continuation_byte(tail, 0);
        is_char_boundary_iff_not_is_continuation_byte(whole, head.len() as int);
    }
}

/// The number of bytes of `text`.
pub fn byte_len(text: &str) -> (len: usize)
    ensures
        len == utf8(text@).len(),
{
    proof {
        reveal(utf8);
    }
    text.as_bytes().len()
}

/// `true` exactly when both texts hold the same characters.
pub fn same_text(a: &str, b: &str) -> (same: bool)
    ensures
        same == (a@ == b@),
{
    proof {
        reveal(utf8);
    }
    let left: &[u8] = a.as_bytes();
    let right: &[u8] = b.as_bytes();
    if left.len() != right.len() {
        return false;
    }
    let mut i: usize = 0;
    while i < left.len()
        invariant
            left@ == utf8(a@),
            right@ == utf8(b@),
            left@.len() == right@.len(),
            i <= left@.len(),
            forall|k: int| 0 <= k < i ==> left@[k] == right@[k],
        decreases left@.len() - i,
    {
        if left[i] != right[i] {
            return false;
        }
        i += 1;
    }
    proof {
        assert(left@ =~= right@);
        utf8_injective(a@, b@);
    }
    true
}

/// The text at the bytes `start..end`, where those bytes are a range of `text`.
pub fn slice(text: &str, start: usize, end: usize) -> (found: Option<&str>)
    ensures
        found is Some == is_text_range(text@, start as int, end as int),
        found is Some ==> utf8(found->0@) == utf8(text@).subrange(start as int, end as int),
        (match found {
            Some(part) => Some(part@),
            None => None,
        }) == text_at(text@, start as int, end as int),
{
    proof {
        reveal(utf8);
    }
    let len: usize = text.as_bytes().len();
    if start > end || end > len || !text.is_char_boundary(start) || !text.is_char_boundary(end) {
        return None;
    }
    proof {
        encode_utf8_valid_utf8(text@);
        boundary_in_prefix(utf8(text@), start as int, end as int);
        text_at_bytes(text@, start as int, end as int);
    }
    let (head, _) = text.split_at(end);
    let (_, part) = head.split_at(start);
    proof {
        assert(utf8(part@) =~= utf8(text@).subrange(start as int, end as int));
        utf8_injective(part@, text_at(text@, start as int, end as int)->0);
    }
    Some(part)
}

/// The decimal digit that stands for `value`.
pub open spec fn digit(value: nat) -> char {
    if value == 0 {
        '0'
    } else if value == 1 {
        '1'
    } else if value == 2 {
        '2'
    } else if value == 3 {
        '3'
    } else if value == 4 {
        '4'
    } else if value == 5 {
        '5'
    } else if value == 6 {
        '6'
    } else if value == 7 {
        '7'
    } else if value == 8 {
        '8'
    } else {
        '9'
    }
}

/// `value` written in decimal without leading zeros.
pub open spec fn decimal_text(value: nat) -> Seq<char>
    decreases value,
{
    if value < 10 {
        seq![digit(value)]
    } else {
        decimal_text(value / 10).push(digit(value % 10))
    }
}

fn digit_str(value: u64) -> (text: &'static str)
    requires
        value < 10,
    ensures
        text@ == seq![digit(value as nat)],
{
    proof {
        reveal_strlit("0");
        reveal_strlit("1");
        reveal_strlit("2");
        reveal_strlit("3");
        reveal_strlit("4");
        reveal_strlit("5");
        reveal_strlit("6");
        reveal_strlit("7");
        reveal_strlit("8");
        reveal_strlit("9");
    }
    let text: &'static str = if value == 0 {
        "0"
    } else if value == 1 {
        "1"
    } else if value == 2 {
        "2"
    } else if value == 3 {
        "3"
    } else if value == 4 {
        "4"
    } else if value == 5 {
        "5"
    } else if value == 6 {
        "6"
    } else if value == 7 {
        "7"
    } else if value == 8 {
        "8"
    } else {
        "9"
    };
    assert(text@ =~= seq![digit(value as nat)]);
    text
}

/// `value` written in decimal.
pub fn decimal(value: u64) -> (text: String)
    ensures
        text@ == decimal_text(value as nat),
    decreases value,
{
    if value < 10 {
        String::from_str(digit_str(value))
    } else {
        let text: String = decimal(value / 10).concat(digit_str(value % 10));
        assert(text@ =~= decimal_text(value as nat));
        text
    }
}

/// A list of texts names `text`.
pub open spec fn lists_text(texts: Seq<String>, text: Seq<char>) -> bool {
    exists|i: int| 0 <= i < texts.len() && (#[trigger] texts[i])@ == text
}

/// `true` exactly when a list of texts names `text`.
pub fn finds_text(texts: &Vec<String>, text: &str) -> (found: bool)
    ensures
        found == lists_text(texts@, text@),
{
    let mut i: usize = 0;
    while i < texts.len()
        invariant
            i <= texts@.len(),
            forall|k: int| 0 <= k < i ==> (#[trigger] texts@[k])@ != text@,
        decreases texts@.len() - i,
    {
        if same_text(texts[i].as_str(), text) {
            return true;
        }
        i += 1;
    }
    false
}

/// Copies texts.
pub fn copy_texts(texts: &Vec<String>) -> (copy: Vec<String>)
    ensures
        copy@ == texts@,
{
    let mut copy: Vec<String> = Vec::new();
    let mut i: usize = 0;
    while i < texts.len()
        invariant
            i <= texts@.len(),
            copy@ == texts@.take(i as int),
        decreases texts@.len() - i,
    {
        copy.push(texts[i].clone());
        assert(copy@ =~= texts@.take(i as int + 1));
        i += 1;
    }
    assert(copy@ =~= texts@);
    copy
}

/// A copy of a text that may be missing.
pub fn copy_option(text: &Option<String>) -> (copy: Option<String>)
    ensures
        copy == *text,
{
    match text {
        Some(text) => Some(text.clone()),
        None => None,
    }
}

} // verus!
