//! What a reader finds in a correction that is spelled out.
use crate::correction::{
    compact_old_snippet, hunk_text, is_correction, json_char, json_chars, json_text,
    located_within_lease, mechanical_correction_context, occurrence_at, occurrences, render_hunk,
    rendering, renderings, OLD_SNIPPET_MAX_CHARS,
};
use crate::diff::{joined, texts};
use crate::hunks::{hunks_end, turns_into, Hunk, HunkView};
use crate::ids::{hex_digit, hyphenated_text, hyphenated_text_injective, Uuid};
use crate::text::{decimal, decimal_text, digit, text_at, text_at_bytes, utf8, utf8_empty};
use std::ops::Range;
use vstd::prelude::*;
use vstd::string::*;

verus! {

/// The character is a decimal digit.
pub open spec fn is_digit(c: char) -> bool {
    '0' <= c <= '9'
}

/// A number is written here: one digit or more, and nothing else.
pub open spec fn is_number(text: Seq<char>) -> bool {
    text.len() > 0 && forall|i: int| 0 <= i < text.len() ==> is_digit(#[trigger] text[i])
}

/// The number that digits stand for, most significant first.
pub open spec fn number_read(text: Seq<char>) -> int
    decreases text.len(),
{
    if text.len() == 0 {
        0
    } else {
        10 * number_read(text.drop_last()) + (text.last() as int - '0' as int)
    }
}

/// A number that was written is read again.
pub proof fn a_written_number_is_read(value: u64, text: String)
    requires
        call_ensures(decimal, (value,), text),
    ensures
        is_number(text@),
        number_read(text@) == value,
{
    decimal_text_reads(value as nat);
}

pub proof fn decimal_text_reads(value: nat)
    ensures
        is_number(decimal_text(value)),
        number_read(decimal_text(value)) == value,
    decreases value,
{
    reveal_with_fuel(number_read, 2);
    let text = decimal_text(value);
    assert(digit(value % 10) as int == '0' as int + value % 10);
    if value < 10 {
        assert(text.drop_last() =~= Seq::<char>::empty());
        assert(number_read(text.drop_last()) == 0);
    } else {
        decimal_text_reads(value / 10);
        assert(text.drop_last() =~= decimal_text(value / 10));
        assert forall|i: int| 0 <= i < text.len() implies is_digit(#[trigger] text[i]) by {
            if i < text.len() - 1 {
                assert(text[i] == decimal_text(value / 10)[i]);
            }
        }
    }
}

/// A number ends where something else than a digit follows.
proof fn number_ends(a: Seq<char>, s: Seq<char>, b: Seq<char>, t: Seq<char>)
    requires
        is_number(a),
        is_number(b),
        s.len() > 0 && !is_digit(s[0]),
        t.len() > 0 && !is_digit(t[0]),
        a + s == b + t,
    ensures
        a == b,
        s == t,
{
    let whole = a + s;
    assert(whole == b + t);
    if a.len() < b.len() {
        assert(whole[a.len() as int] == s[0]);
        assert((b + t)[a.len() as int] == b[a.len() as int]);
    }
    if b.len() < a.len() {
        assert((b + t)[b.len() as int] == t[0]);
        assert(whole[b.len() as int] == a[b.len() as int]);
    }
    assert(a =~= whole.take(a.len() as int));
    assert(b =~= (b + t).take(a.len() as int));
    assert(s =~= whole.skip(a.len() as int));
    assert(t =~= (b + t).skip(a.len() as int));
}

/// What follows the same beginning is the same.
proof fn same_rest(head: Seq<char>, s: Seq<char>, t: Seq<char>)
    requires
        head + s == head + t,
    ensures
        s == t,
{
    assert(s =~= (head + s).skip(head.len() as int));
    assert(t =~= (head + t).skip(head.len() as int));
}

/// Three texts in a row, however they are put together.
proof fn in_a_row(a: Seq<char>, b: Seq<char>, c: Seq<char>)
    ensures
        a + b + c == a + (b + c),
{
    assert(a + b + c =~= a + (b + c));
}

proof fn json_chars_first(text: Seq<char>)
    requires
        text.len() > 0,
    ensures
        json_chars(text) == json_char(text[0]) + json_chars(text.skip(1)),
    decreases text.len(),
{
    if text.len() == 1 {
        assert(text.drop_last() =~= Seq::<char>::empty());
        assert(text.skip(1) =~= Seq::<char>::empty());
        assert(json_chars(text) =~= json_char(text[0]) + json_chars(text.skip(1)));
    } else {
        json_chars_first(text.drop_last());
        assert(text.drop_last().skip(1) =~= text.skip(1).drop_last());
        assert(json_chars(text) =~= json_char(text[0]) + json_chars(text.skip(1)));
    }
}

proof fn hex_reads(value: int)
    requires
        0 <= value < 16,
    ensures
        value < 10 ==> hex_digit(value) as int == '0' as int + value,
        value >= 10 ==> hex_digit(value) as int == 'a' as int + value - 10,
{
}

/// No escape of a character starts another one.
proof fn json_char_ends(x: char, s: Seq<char>, y: char, t: Seq<char>)
    requires
        json_char(x) + s == json_char(y) + t,
    ensures
        x == y,
        s == t,
{
    let a = json_char(x) + s;
    let b = json_char(y) + t;
    assert(a[0] == json_char(x)[0] && b[0] == json_char(y)[0]);
    if json_char(x).len() > 1 && json_char(y).len() > 1 {
        assert(a[1] == json_char(x)[1] && b[1] == json_char(y)[1]);
        if json_char(x).len() == 6 && json_char(y).len() == 6 {
            assert(a[4] == json_char(x)[4] && b[4] == json_char(y)[4]);
            assert(a[5] == json_char(x)[5] && b[5] == json_char(y)[5]);
            hex_reads(x as int / 16);
            hex_reads(y as int / 16);
            hex_reads(x as int % 16);
            hex_reads(y as int % 16);
            assert(x as int == 16 * (x as int / 16) + x as int % 16);
            assert(y as int == 16 * (y as int / 16) + y as int % 16);
            assert(x as int == y as int);
        }
    }
    assert(x == y);
    same_rest(json_char(x), s, t);
}

proof fn json_chars_end(a: Seq<char>, s: Seq<char>, b: Seq<char>, t: Seq<char>)
    requires
        json_chars(a) + (seq!['"'] + s) == json_chars(b) + (seq!['"'] + t),
    ensures
        a == b,
        s == t,
    decreases a.len(),
{
    let x = seq!['"'] + s;
    let y = seq!['"'] + t;
    if a.len() > 0 {
        json_chars_first(a);
    }
    if b.len() > 0 {
        json_chars_first(b);
    }
    if a.len() == 0 && b.len() == 0 {
        assert(json_chars(a) + x =~= x);
        assert(json_chars(b) + y =~= y);
        same_rest(seq!['"'], s, t);
        assert(a =~= b);
    } else if a.len() == 0 {
        assert((json_chars(a) + x)[0] == '"');
        assert((json_chars(b) + y)[0] == json_char(b[0])[0]);
    } else if b.len() == 0 {
        assert((json_chars(b) + y)[0] == '"');
        assert((json_chars(a) + x)[0] == json_char(a[0])[0]);
    } else {
        assert(json_chars(a) + x =~= json_char(a[0]) + (json_chars(a.skip(1)) + x));
        assert(json_chars(b) + y =~= json_char(b[0]) + (json_chars(b.skip(1)) + y));
        json_char_ends(a[0], json_chars(a.skip(1)) + x, b[0], json_chars(b.skip(1)) + y);
        json_chars_end(a.skip(1), s, b.skip(1), t);
        assert(a =~= seq![a[0]] + a.skip(1));
        assert(b =~= seq![b[0]] + b.skip(1));
    }
}

/// Of what follows, a JSON string ends where its closing quotation mark stands.
proof fn json_text_ends(a: Seq<char>, s: Seq<char>, b: Seq<char>, t: Seq<char>)
    requires
        json_text(a) + s == json_text(b) + t,
    ensures
        a == b,
        s == t,
{
    assert(json_text(a) + s =~= seq!['"'] + (json_chars(a) + (seq!['"'] + s)));
    assert(json_text(b) + t =~= seq!['"'] + (json_chars(b) + (seq!['"'] + t)));
    same_rest(
        seq!['"'],
        json_chars(a) + (seq!['"'] + s),
        json_chars(b) + (seq!['"'] + t),
    );
    json_chars_end(a, s, b, t);
}

/// What a reader learns from a replacement that is spelled out: its number, the bytes of the
/// submitted message that it exchanges, which occurrence of the old text stands there, whether the
/// old text is spelled out whole, and the two texts.
pub struct Replacement {
    pub number: int,
    pub from: int,
    pub to: int,
    pub occurrence: int,
    pub whole: bool,
    pub old: Seq<char>,
    pub new: Seq<char>,
}

/// The words behind the occurrence.
pub open spec fn occurrence_words(whole: bool) -> Seq<char> {
    if whole {
        " of this exact old text in the submitted message.\n- "@
    } else {
        " of this old range in the submitted message. The old rendering elides its middle; the byte range plus both anchors is authoritative.\n- "@
    }
}

/// The words and the numbers of a replacement, one behind another.
pub open spec fn replacement_words(
    number: Seq<char>,
    from: Seq<char>,
    to: Seq<char>,
    occurrence: Seq<char>,
    rest: Seq<char>,
) -> Seq<char> {
    "\n\nHunk "@ + (number + (": old bytes "@ + (from + (".."@ + (to + ("; occurrence "@ + (
    occurrence + rest)))))))
}

/// What stands behind the numbers.
pub open spec fn replacement_texts(whole: bool, old: Seq<char>, new: Seq<char>) -> Seq<char> {
    occurrence_words(whole) + (json_text(old) + ("\n+ "@ + json_text(new)))
}

/// The text can be read as this replacement, with the numbers as they are written.
pub open spec fn reads_with(
    text: Seq<char>,
    read: Replacement,
    number: Seq<char>,
    from: Seq<char>,
    to: Seq<char>,
    occurrence: Seq<char>,
) -> bool {
    &&& is_number(number) && number_read(number) == read.number
    &&& is_number(from) && number_read(from) == read.from
    &&& is_number(to) && number_read(to) == read.to
    &&& is_number(occurrence) && number_read(occurrence) == read.occurrence
    &&& text == replacement_words(
        number,
        from,
        to,
        occurrence,
        replacement_texts(read.whole, read.old, read.new),
    )
}

/// The text can be read as this replacement.
pub open spec fn reads_as(text: Seq<char>, read: Replacement) -> bool {
    exists|number: Seq<char>, from: Seq<char>, to: Seq<char>, occurrence: Seq<char>| #[trigger]
        reads_with(text, read, number, from, to, occurrence)
}

proof fn words_revealed()
    ensures
        ": old bytes "@.len() > 0 && ": old bytes "@[0] == ':',
        ".."@.len() > 0 && ".."@[0] == '.',
        "; occurrence "@.len() > 0 && "; occurrence "@[0] == ';',
        forall|whole: bool| (#[trigger] occurrence_words(whole)).len() > 9,
        forall|whole: bool| (#[trigger] occurrence_words(whole))[0] == ' ',
        occurrence_words(true)[9] == 'e',
        occurrence_words(false)[9] == 'o',
{
    reveal_strlit(": old bytes ");
    reveal_strlit("..");
    reveal_strlit("; occurrence ");
    reveal_strlit(" of this exact old text in the submitted message.\n- ");
    reveal_strlit(
        " of this old range in the submitted message. The old rendering elides its middle; the byte range plus both anchors is authoritative.\n- ",
    );
}

/// A text can be read as one replacement only.
proof fn replacement_is_unique(text: Seq<char>, a: Replacement, b: Replacement)
    requires
        reads_as(text, a),
        reads_as(text, b),
    ensures
        a == b,
{
    words_revealed();
    let (n, f, t, o) = choose|n: Seq<char>, f: Seq<char>, t: Seq<char>, o: Seq<char>| #[trigger]
        reads_with(text, a, n, f, t, o);
    let (m, g, u, p) = choose|m: Seq<char>, g: Seq<char>, u: Seq<char>, p: Seq<char>| #[trigger]
        reads_with(text, b, m, g, u, p);
    let ra = replacement_texts(a.whole, a.old, a.new);
    let rb = replacement_texts(b.whole, b.old, b.new);
    assert(ra[0] == occurrence_words(a.whole)[0]);
    assert(rb[0] == occurrence_words(b.whole)[0]);
    let oa = "; occurrence "@ + (o + ra);
    let ob = "; occurrence "@ + (p + rb);
    let ta = ".."@ + (t + oa);
    let tb = ".."@ + (u + ob);
    let fa = ": old bytes "@ + (f + ta);
    let fb = ": old bytes "@ + (g + tb);
    same_rest("\n\nHunk "@, n + fa, m + fb);
    number_ends(n, fa, m, fb);
    same_rest(": old bytes "@, f + ta, g + tb);
    number_ends(f, ta, g, tb);
    same_rest(".."@, t + oa, u + ob);
    number_ends(t, oa, u, ob);
    same_rest("; occurrence "@, o + ra, p + rb);
    number_ends(o, ra, p, rb);
    assert(ra[9] == occurrence_words(a.whole)[9]);
    assert(rb[9] == occurrence_words(b.whole)[9]);
    assert(a.whole == b.whole);
    let sa = json_text(a.old) + ("\n+ "@ + json_text(a.new));
    let sb = json_text(b.old) + ("\n+ "@ + json_text(b.new));
    same_rest(occurrence_words(a.whole), sa, sb);
    json_text_ends(a.old, "\n+ "@ + json_text(a.new), b.old, "\n+ "@ + json_text(b.new));
    same_rest("\n+ "@, json_text(a.new), json_text(b.new));
    assert(json_text(a.new) + Seq::<char>::empty() =~= json_text(a.new));
    assert(json_text(b.new) + Seq::<char>::empty() =~= json_text(b.new));
    json_text_ends(a.new, Seq::empty(), b.new, Seq::empty());
}

/// A replacement that is spelled out says, to whoever reads it, which bytes of the submitted
/// message it exchanges: those that begin as far behind the owned range's start as the
/// replacement lies in the owned text, and as many as the old text has. It also says its own
/// number and both texts, of which the old one is whole unless it is long.
pub proof fn a_replacement_says_its_place(
    number: usize,
    submitted: &str,
    lease_start: usize,
    hunk: Hunk,
    text: Option<String>,
)
    requires
        lease_start + hunk.start + utf8(hunk.old@).len() <= usize::MAX,
        call_ensures(render_hunk, (number, submitted, lease_start, &hunk), text),
        hunk.old@.len() > 0,
    ensures
        text is Some,
        exists|read: Replacement| reads_as(text->0@, read),
        forall|read: Replacement| #[trigger]
            reads_as(text->0@, read) ==> {
                &&& read.number == number
                &&& read.from == lease_start + hunk.start
                &&& read.to == read.from + utf8(hunk.old@).len()
                &&& read.whole == (hunk.old@.len() <= 640)
                &&& read.whole ==> read.old == hunk.old@
                &&& read.new == hunk.new@
            },
{
    let told = replacement_of(number as nat, submitted@, lease_start as int, hunk@);
    replacement_read(number as nat, submitted@, lease_start as int, hunk@);
    assert forall|read: Replacement| #[trigger] reads_as(text->0@, read) implies read == told by {
        replacement_is_unique(text->0@, read, told);
    }
}

/// What a replacement is meant to say.
spec fn replacement_of(
    number: nat,
    submitted: Seq<char>,
    lease_start: int,
    hunk: HunkView,
) -> Replacement {
    Replacement {
        number: number as int,
        from: lease_start + hunk.start,
        to: lease_start + hunk.start + utf8(hunk.old).len(),
        occurrence: occurrences(
            utf8(submitted),
            utf8(hunk.old),
            0,
            lease_start + hunk.start,
        ) as int,
        whole: hunk.old.len() <= OLD_SNIPPET_MAX_CHARS,
        old: if hunk.old.len() <= OLD_SNIPPET_MAX_CHARS {
            hunk.old
        } else {
            crate::correction::compacted(hunk.old, OLD_SNIPPET_MAX_CHARS as int)
        },
        new: hunk.new,
    }
}

proof fn replacement_read(number: nat, submitted: Seq<char>, lease_start: int, hunk: HunkView)
    requires
        hunk.old.len() > 0,
        0 <= lease_start,
        0 <= hunk.start,
    ensures
        reads_as(
            hunk_text(number, submitted, lease_start, hunk),
            replacement_of(number, submitted, lease_start, hunk),
        ),
{
    let told = replacement_of(number, submitted, lease_start, hunk);
    let n = decimal_text(number);
    let f = decimal_text(told.from as nat);
    let t = decimal_text(told.to as nat);
    let o = decimal_text(told.occurrence as nat);
    decimal_text_reads(number);
    decimal_text_reads(told.from as nat);
    decimal_text_reads(told.to as nat);
    decimal_text_reads(told.occurrence as nat);
    let text = hunk_text(number, submitted, lease_start, hunk);
    let words = occurrence_words(told.whole);
    let old = json_text(told.old);
    let new = json_text(told.new);
    let head = "\n\nHunk "@ + n + ": old bytes "@ + f + ".."@ + t + "; occurrence "@ + o;
    assert(text == head + words + old + "\n+ "@ + new);
    in_a_row(head + words + old, "\n+ "@, new);
    in_a_row(head + words, old, "\n+ "@ + new);
    in_a_row(head, words, old + ("\n+ "@ + new));
    let rest = replacement_texts(told.whole, told.old, told.new);
    assert(text == head + rest);
    in_a_row("\n\nHunk "@ + n + ": old bytes "@ + f + ".."@ + t + "; occurrence "@, o, rest);
    in_a_row("\n\nHunk "@ + n + ": old bytes "@ + f + ".."@ + t, "; occurrence "@, o + rest);
    let behind_to = "; occurrence "@ + (o + rest);
    in_a_row("\n\nHunk "@ + n + ": old bytes "@ + f + ".."@, t, behind_to);
    in_a_row("\n\nHunk "@ + n + ": old bytes "@ + f, ".."@, t + behind_to);
    let behind_from = ".."@ + (t + behind_to);
    in_a_row("\n\nHunk "@ + n + ": old bytes "@, f, behind_from);
    in_a_row("\n\nHunk "@ + n, ": old bytes "@, f + behind_from);
    in_a_row("\n\nHunk "@, n, ": old bytes "@ + (f + behind_from));
    assert(text == replacement_words(n, f, t, o, rest));
    assert(reads_with(text, told, n, f, t, o));
}

/// What a reader learns from an insertion that is spelled out.
pub struct Insertion {
    pub number: int,
    pub at: int,
    pub new: Seq<char>,
}

/// The text can be read as this insertion, with the numbers as they are written.
pub open spec fn inserts_with(
    text: Seq<char>,
    read: Insertion,
    number: Seq<char>,
    at: Seq<char>,
) -> bool {
    &&& is_number(number) && number_read(number) == read.number
    &&& is_number(at) && number_read(at) == read.at
    &&& text == "\n\nHunk "@ + (number + (": insert at submitted-message byte "@ + (at + (
    ".\n- \"\"\n+ "@ + json_text(read.new)))))
}

/// The text can be read as this insertion.
pub open spec fn inserts_as(text: Seq<char>, read: Insertion) -> bool {
    exists|number: Seq<char>, at: Seq<char>| #[trigger] inserts_with(text, read, number, at)
}

proof fn insertion_is_unique(text: Seq<char>, a: Insertion, b: Insertion)
    requires
        inserts_as(text, a),
        inserts_as(text, b),
    ensures
        a == b,
{
    reveal_strlit(": insert at submitted-message byte ");
    reveal_strlit(".\n- \"\"\n+ ");
    let (n, f) = choose|n: Seq<char>, f: Seq<char>| #[trigger] inserts_with(text, a, n, f);
    let (m, g) = choose|m: Seq<char>, g: Seq<char>| #[trigger] inserts_with(text, b, m, g);
    let ra = ".\n- \"\"\n+ "@ + json_text(a.new);
    let rb = ".\n- \"\"\n+ "@ + json_text(b.new);
    let fa = ": insert at submitted-message byte "@ + (f + ra);
    let fb = ": insert at submitted-message byte "@ + (g + rb);
    same_rest("\n\nHunk "@, n + fa, m + fb);
    number_ends(n, fa, m, fb);
    same_rest(": insert at submitted-message byte "@, f + ra, g + rb);
    number_ends(f, ra, g, rb);
    same_rest(".\n- \"\"\n+ "@, json_text(a.new), json_text(b.new));
    assert(json_text(a.new) + Seq::<char>::empty() =~= json_text(a.new));
    assert(json_text(b.new) + Seq::<char>::empty() =~= json_text(b.new));
    json_text_ends(a.new, Seq::empty(), b.new, Seq::empty());
}

proof fn insertion_read(number: nat, submitted: Seq<char>, lease_start: int, hunk: HunkView)
    requires
        hunk.old.len() == 0,
        0 <= lease_start,
        0 <= hunk.start,
    ensures
        inserts_as(
            hunk_text(number, submitted, lease_start, hunk),
            Insertion { number: number as int, at: lease_start + hunk.start, new: hunk.new },
        ),
{
    let told = Insertion { number: number as int, at: lease_start + hunk.start, new: hunk.new };
    let n = decimal_text(number);
    let f = decimal_text(told.at as nat);
    decimal_text_reads(number);
    decimal_text_reads(told.at as nat);
    let text = hunk_text(number, submitted, lease_start, hunk);
    let words = ": insert at submitted-message byte "@;
    let new = json_text(told.new);
    in_a_row("\n\nHunk "@ + n + words + f, ".\n- \"\"\n+ "@, new);
    in_a_row("\n\nHunk "@ + n + words, f, ".\n- \"\"\n+ "@ + new);
    in_a_row("\n\nHunk "@ + n, words, f + (".\n- \"\"\n+ "@ + new));
    in_a_row("\n\nHunk "@, n, words + (f + (".\n- \"\"\n+ "@ + new)));
    assert(inserts_with(text, told, n, f));
}

/// An insertion that is spelled out says, to whoever reads it, at which byte of the submitted
/// message it goes in, and which text.
pub proof fn an_insertion_says_its_place(
    number: usize,
    submitted: &str,
    lease_start: usize,
    hunk: Hunk,
    text: Option<String>,
)
    requires
        lease_start + hunk.start + utf8(hunk.old@).len() <= usize::MAX,
        call_ensures(render_hunk, (number, submitted, lease_start, &hunk), text),
        hunk.old@.len() == 0,
    ensures
        text is Some,
        exists|read: Insertion| inserts_as(text->0@, read),
        forall|read: Insertion| #[trigger]
            inserts_as(text->0@, read) ==> {
                &&& read.number == number
                &&& read.at == lease_start + hunk.start
                &&& read.new == hunk.new@
            },
{
    let told = Insertion {
        number: number as int,
        at: lease_start + hunk.start,
        new: hunk.new@,
    };
    insertion_read(number as nat, submitted@, lease_start as int, hunk@);
    assert forall|read: Insertion| #[trigger] inserts_as(text->0@, read) implies read == told by {
        insertion_is_unique(text->0@, read, told);
    }
}

/// The piece says, to whoever reads it, what `hunk` exchanges: a place in the submitted message
/// that holds the old text, as far into the owned range as the replacement lies in the owned text.
#[verifier::opaque]
pub open spec fn says(
    piece: Seq<char>,
    number: int,
    submitted: Seq<char>,
    start: int,
    end: int,
    hunk: HunkView,
) -> bool {
    if hunk.old.len() == 0 {
        &&& exists|read: Insertion| inserts_as(piece, read)
        &&& forall|read: Insertion| #[trigger]
            inserts_as(piece, read) ==> {
                &&& read.number == number
                &&& start <= read.at <= end
                &&& read.at - start == hunk.start
                &&& read.new == hunk.new
            }
    } else {
        &&& exists|read: Replacement| reads_as(piece, read)
        &&& forall|read: Replacement| #[trigger]
            reads_as(piece, read) ==> {
                &&& read.number == number
                &&& start <= read.from <= read.to <= end
                &&& read.from - start == hunk.start
                &&& utf8(submitted).subrange(read.from, read.to) == utf8(hunk.old)
                &&& read.whole ==> read.old == hunk.old
                &&& read.whole == (hunk.old.len() <= 640)
                &&& read.new == hunk.new
            }
    }
}

/// The opening of a correction, with what it names as it is written.
pub open spec fn opening_words(id: Seq<char>, from: Seq<char>, to: Seq<char>) -> Seq<char> {
    "Automated mechanical transcription correction (application context, not a user message).\nTarget: the same-thread user submission acknowledged under internal receipt koenig-composer-"@
        + id + ", specifically Koenig-owned submitted-message bytes "@ + from + ".."@ + to
        + ". The model-visible Application receipt immediately preceding that user message identifies the target; the byte coordinates and exact old text identify its owned range. Do not alter text outside that owned range.\nTreat only the exact replacements below as corrections to the prior message. The receiving agent may discern their semantic impact; Koenig asserts no edit beyond the enumerated mechanical replacements."@
}

/// `draft` opens with the submission and the owned range that are corrected, and then spells out,
/// one by one, the first of `hunks`, as many as there are pieces.
pub open spec fn tells_edit(
    draft: Seq<char>,
    pieces: Seq<Seq<char>>,
    submission_id: Uuid,
    submitted: Seq<char>,
    start: int,
    end: int,
    hunks: Seq<HunkView>,
) -> bool {
    &&& exists|from: Seq<char>, to: Seq<char>|
        {
            &&& is_number(from) && number_read(from) == start
            &&& is_number(to) && number_read(to) == end
            &&& draft == #[trigger] opening_words(hyphenated_text(submission_id), from, to)
                + joined(pieces)
        }
    &&& pieces.len() <= hunks.len()
    &&& forall|k: int|
        0 <= k < pieces.len() ==> says(
            #[trigger] pieces[k],
            k + 1,
            submitted,
            start,
            end,
            hunks[k],
        )
}

/// The drafts spell out the edit: the last one all of it, and each earlier one up to one of its
/// replacements.
pub open spec fn drafts_tell(
    drafts: Seq<Seq<char>>,
    pieces: Seq<Seq<char>>,
    submission_id: Uuid,
    submitted: Seq<char>,
    start: int,
    end: int,
    hunks: Seq<HunkView>,
) -> bool {
    &&& pieces.len() == hunks.len()
    &&& drafts.len() == (if hunks.len() == 0 {
        1
    } else {
        hunks.len()
    })
    &&& tells_edit(drafts.last(), pieces, submission_id, submitted, start, end, hunks)
    &&& hunks.len() > 0 ==> forall|k: int|
        0 <= k < drafts.len() ==> tells_edit(
            #[trigger] drafts[k],
            pieces.take(k + 1),
            submission_id,
            submitted,
            start,
            end,
            hunks,
        )
}

/// Whoever reads a correction finds the exact edit: it names the submission and the range that is
/// owned, and each of its replacements names bytes of the submitted message that hold its old
/// text, at its own place in the owned range. Carried out together on the text that was expected,
/// these replacements give the text that is wanted. Each earlier draft is the correction up to one
/// of its replacements.
pub proof fn a_correction_reads_as_its_edit(
    submission_id: Uuid,
    submitted: &str,
    lease_range: Range<usize>,
    expected: &str,
    replacement: &str,
    drafts: Option<Vec<String>>,
)
    requires
        text_at(submitted@, lease_range.start as int, lease_range.end as int) == Some(expected@),
        call_ensures(
            mechanical_correction_context,
            (submission_id, submitted, &lease_range, expected, replacement),
            drafts,
        ),
        drafts is Some,
    ensures
        drafts->0@.len() > 0,
        exists|hunks: Seq<HunkView>, pieces: Seq<Seq<char>>|
            {
                &&& #[trigger] turns_into(expected@, hunks, replacement@)
                &&& #[trigger] drafts_tell(
                    texts(drafts->0@),
                    pieces,
                    submission_id,
                    submitted@,
                    lease_range.start as int,
                    lease_range.end as int,
                    hunks,
                )
            },
{
    let start = lease_range.start as int;
    let end = lease_range.end as int;
    let hunks = choose|hunks: Seq<HunkView>| #[trigger]
        is_correction(
            submission_id,
            submitted@,
            start,
            end,
            expected@,
            replacement@,
            hunks,
            texts(drafts->0@),
        );
    let pieces = correction_tells(
        submission_id,
        submitted@,
        start,
        end,
        expected@,
        replacement@,
        hunks,
        texts(drafts->0@),
    );
    assert(turns_into(expected@, hunks, replacement@));
}

proof fn correction_tells(
    submission_id: Uuid,
    submitted: Seq<char>,
    start: int,
    end: int,
    expected: Seq<char>,
    replacement: Seq<char>,
    hunks: Seq<HunkView>,
    drafts: Seq<Seq<char>>,
) -> (pieces: Seq<Seq<char>>)
    requires
        text_at(submitted, start, end) == Some(expected),
        is_correction(
            submission_id,
            submitted,
            start,
            end,
            expected,
            replacement,
            hunks,
            drafts,
        ),
    ensures
        turns_into(expected, hunks, replacement),
        drafts_tell(drafts, pieces, submission_id, submitted, start, end, hunks),
{
    hunks_stand(submitted, start, end, expected, replacement, hunks);
    rendered_drafts_tell(submission_id, submitted, start, end, hunks, drafts)
}

/// Each replacement names a place in the range that holds its old text.
spec fn all_stand(submitted: Seq<char>, start: int, end: int, hunks: Seq<HunkView>) -> bool {
    forall|k: int|
        0 <= k < hunks.len() ==> {
            &&& 0 <= (#[trigger] hunks[k]).start
            &&& start + hunks[k].end() <= end
            &&& utf8(submitted).subrange(start + hunks[k].start, start + hunks[k].end()) == utf8(
                hunks[k].old,
            )
        }
}

proof fn hunks_stand(
    submitted: Seq<char>,
    start: int,
    end: int,
    expected: Seq<char>,
    replacement: Seq<char>,
    hunks: Seq<HunkView>,
)
    requires
        text_at(submitted, start, end) == Some(expected),
        turns_into(expected, hunks, replacement),
    ensures
        0 <= start <= end,
        all_stand(submitted, start, end, hunks),
{
    located_within_lease(submitted, start, end, expected, hunks);
    assert forall|k: int| 0 <= k < hunks.len() implies {
        &&& 0 <= (#[trigger] hunks[k]).start
        &&& start + hunks[k].end() <= end
        &&& utf8(submitted).subrange(start + hunks[k].start, start + hunks[k].end()) == utf8(
            hunks[k].old,
        )
    } by {
        assert(0 <= hunks_end(hunks, k) <= hunks[k].start);
    }
}

proof fn rendered_drafts_tell(
    submission_id: Uuid,
    submitted: Seq<char>,
    start: int,
    end: int,
    hunks: Seq<HunkView>,
    drafts: Seq<Seq<char>>,
) -> (pieces: Seq<Seq<char>>)
    requires
        0 <= start <= end,
        all_stand(submitted, start, end, hunks),
        drafts == renderings(submission_id, submitted, start, end, hunks),
    ensures
        drafts_tell(drafts, pieces, submission_id, submitted, start, end, hunks),
{
    let pieces = Seq::new(
        hunks.len(),
        |k: int| hunk_text((k + 1) as nat, submitted, start, hunks[k]),
    );
    assert forall|k: int| hunks.len() > 0 && 0 <= k < drafts.len() implies tells_edit(
        #[trigger] drafts[k],
        pieces.take(k + 1),
        submission_id,
        submitted,
        start,
        end,
        hunks,
    ) by {
        draft_tells(submission_id, submitted, start, end, hunks, pieces, k + 1);
    }
    draft_tells(submission_id, submitted, start, end, hunks, pieces, hunks.len() as int);
    assert(pieces.take(pieces.len() as int) =~= pieces);
    assert(drafts.last() == rendering(
        submission_id,
        submitted,
        start,
        end,
        hunks,
        hunks.len() as int,
    ));
    pieces
}

proof fn draft_tells(
    submission_id: Uuid,
    submitted: Seq<char>,
    start: int,
    end: int,
    hunks: Seq<HunkView>,
    pieces: Seq<Seq<char>>,
    count: int,
)
    requires
        0 <= start,
        0 <= end,
        0 <= count <= hunks.len(),
        pieces == Seq::new(
            hunks.len(),
            |k: int| hunk_text((k + 1) as nat, submitted, start, hunks[k]),
        ),
        all_stand(submitted, start, end, hunks),
    ensures
        tells_edit(
            rendering(submission_id, submitted, start, end, hunks, count),
            pieces.take(count),
            submission_id,
            submitted,
            start,
            end,
            hunks,
        ),
{
    rendering_opens(submission_id, submitted, start, end, hunks, pieces, count);
    let from = decimal_text(start as nat);
    let to = decimal_text(end as nat);
    decimal_text_reads(start as nat);
    decimal_text_reads(end as nat);
    assert(rendering(submission_id, submitted, start, end, hunks, count) == opening_words(
        hyphenated_text(submission_id),
        from,
        to,
    ) + joined(pieces.take(count)));
    let some = pieces.take(count);
    assert forall|j: int| 0 <= j < some.len() implies says(
        #[trigger] some[j],
        j + 1,
        submitted,
        start,
        end,
        hunks[j],
    ) by {
        assert(some[j] == hunk_text((j + 1) as nat, submitted, start, hunks[j]));
        piece_says(j + 1, submitted, start, end, hunks[j]);
    }
}

proof fn piece_says(number: int, submitted: Seq<char>, start: int, end: int, hunk: HunkView)
    requires
        0 <= number,
        0 <= start,
        0 <= hunk.start,
        start + hunk.end() <= end,
        utf8(submitted).subrange(start + hunk.start, start + hunk.end()) == utf8(hunk.old),
    ensures
        says(hunk_text(number as nat, submitted, start, hunk), number, submitted, start, end, hunk),
{
    reveal(says);
    let piece = hunk_text(number as nat, submitted, start, hunk);
    if hunk.old.len() == 0 {
        assert(hunk.old =~= Seq::<char>::empty());
        utf8_empty();
        insertion_read(number as nat, submitted, start, hunk);
        let told = Insertion { number, at: start + hunk.start, new: hunk.new };
        assert forall|read: Insertion| #[trigger] inserts_as(piece, read) implies read == told by {
            insertion_is_unique(piece, read, told);
        }
    } else {
        replacement_read(number as nat, submitted, start, hunk);
        let told = replacement_of(number as nat, submitted, start, hunk);
        assert forall|read: Replacement| #[trigger] reads_as(piece, read) implies read == told by {
            replacement_is_unique(piece, read, told);
        }
    }
}

proof fn rendering_opens(
    submission_id: Uuid,
    submitted: Seq<char>,
    start: int,
    end: int,
    hunks: Seq<HunkView>,
    pieces: Seq<Seq<char>>,
    count: int,
)
    requires
        0 <= count <= hunks.len(),
        pieces == Seq::new(
            hunks.len(),
            |k: int| hunk_text((k + 1) as nat, submitted, start, hunks[k]),
        ),
    ensures
        rendering(submission_id, submitted, start, end, hunks, count) == opening_words(
            hyphenated_text(submission_id),
            decimal_text(start as nat),
            decimal_text(end as nat),
        ) + joined(pieces.take(count)),
    decreases count,
{
    let head = opening_words(
        hyphenated_text(submission_id),
        decimal_text(start as nat),
        decimal_text(end as nat),
    );
    if count == 0 {
        assert(pieces.take(0) =~= Seq::<Seq<char>>::empty());
        assert(head + joined(pieces.take(0)) =~= head);
    } else {
        rendering_opens(submission_id, submitted, start, end, hunks, pieces, count - 1);
        assert(pieces.take(count).drop_last() =~= pieces.take(count - 1));
        in_a_row(head, joined(pieces.take(count - 1)), pieces[count - 1]);
    }
}

/// `pattern` stands at byte `at` of `text`.
pub open spec fn stands(text: Seq<u8>, pattern: Seq<u8>, at: int) -> bool {
    &&& 0 <= at
    &&& at + pattern.len() <= text.len()
    &&& text.subrange(at, at + pattern.len()) == pattern
}

/// Where the search for the occurrence behind the first `count` places goes on.
pub open spec fn search_from(pattern: Seq<u8>, places: Seq<int>, from: int, count: int) -> int {
    if count <= 0 {
        from
    } else {
        places[count - 1] + pattern.len()
    }
}

/// The places are those where `pattern` is met, read from byte `from` on and without overlaps, up
/// to byte `limit`: `pattern` stands at each, and at none that is passed over.
pub open spec fn are_met(
    text: Seq<u8>,
    pattern: Seq<u8>,
    places: Seq<int>,
    from: int,
    limit: int,
) -> bool {
    &&& forall|i: int|
        0 <= i < places.len() ==> {
            &&& stands(text, pattern, #[trigger] places[i])
            &&& search_from(pattern, places, from, i) <= places[i] <= limit
        }
    &&& forall|i: int, at: int| #![trigger places[i], stands(text, pattern, at)]
        0 <= i < places.len() && search_from(pattern, places, from, i) <= at < places[i]
            ==> !stands(text, pattern, at)
    &&& forall|at: int| #[trigger]
        stands(text, pattern, at) ==> !(search_from(
            pattern,
            places,
            from,
            places.len() as int,
        ) <= at <= limit)
}

proof fn occurrences_are_met(text: Seq<u8>, pattern: Seq<u8>, from: int, limit: int) -> (places: Seq<
    int,
>)
    requires
        pattern.len() > 0,
        0 <= from,
    ensures
        places.len() == occurrences(text, pattern, from, limit),
        are_met(text, pattern, places, from, limit),
    decreases text.len() - from,
{
    if from > limit || from + pattern.len() > text.len() {
        Seq::empty()
    } else if text.subrange(from, from + pattern.len()) == pattern {
        let rest = occurrences_are_met(text, pattern, from + pattern.len(), limit);
        let places = seq![from] + rest;
        let behind = from + pattern.len();
        assert(stands(text, pattern, from));
        assert forall|i: int| 1 <= i <= places.len() implies #[trigger] search_from(
            pattern,
            places,
            from,
            i,
        ) == search_from(pattern, rest, behind, i - 1) by {
            if i > 1 {
                assert(places[i - 1] == rest[i - 2]);
            }
        }
        assert forall|i: int| 0 <= i < places.len() implies {
            &&& stands(text, pattern, #[trigger] places[i])
            &&& search_from(pattern, places, from, i) <= places[i] <= limit
        } by {
            if i > 0 {
                assert(places[i] == rest[i - 1]);
            }
        }
        assert forall|i: int, at: int| #![trigger places[i], stands(text, pattern, at)]
            0 <= i < places.len() && search_from(pattern, places, from, i) <= at
                < places[i] implies !stands(text, pattern, at) by {
            if i > 0 {
                assert(places[i] == rest[i - 1]);
            }
        }
        assert(search_from(pattern, places, from, places.len() as int) == search_from(
            pattern,
            rest,
            behind,
            rest.len() as int,
        ));
        places
    } else {
        let places = occurrences_are_met(text, pattern, from + 1, limit);
        assert(!stands(text, pattern, from));
        assert forall|i: int, at: int| #![trigger places[i], stands(text, pattern, at)]
            0 <= i < places.len() && search_from(pattern, places, from, i) <= at
                < places[i] implies !stands(text, pattern, at) by {
            if at != from {
                assert(search_from(pattern, places, from + 1, i) <= at);
            }
        }
        assert forall|at: int| #[trigger] stands(text, pattern, at) implies !(search_from(
            pattern,
            places,
            from,
            places.len() as int,
        ) <= at <= limit) by {
            if places.len() == 0 && at != from {
                assert(search_from(pattern, places, from + 1, 0) <= at || at < from);
            }
        }
        places
    }
}

/// Which occurrence a place is tells how often the pattern is met up to it, read from the start
/// and without overlaps. One that stands at the place itself is met, or overlaps one that is.
pub proof fn occurrences_are_counted_from_the_start(
    text: &str,
    pattern: &str,
    limit: usize,
    count: usize,
)
    requires
        call_ensures(occurrence_at, (text, pattern, limit), count),
    ensures
        pattern@.len() == 0 ==> count == 0,
        pattern@.len() > 0 ==> exists|places: Seq<int>|
            places.len() == count && #[trigger] are_met(
                utf8(text@),
                utf8(pattern@),
                places,
                0,
                limit as int,
            ),
        pattern@.len() > 0 && stands(utf8(text@), utf8(pattern@), limit as int) ==> count > 0,
{
    if pattern@.len() == 0 {
        assert(pattern@ =~= Seq::<char>::empty());
        utf8_empty();
    } else {
        if utf8(pattern@).len() == 0 {
            utf8_empty();
            assert(utf8(pattern@) =~= utf8(Seq::<char>::empty()));
            crate::text::utf8_injective(pattern@, Seq::empty());
        }
        let places = occurrences_are_met(utf8(text@), utf8(pattern@), 0, limit as int);
        if count == 0 && stands(utf8(text@), utf8(pattern@), limit as int) {
            assert(search_from(utf8(pattern@), places, 0, 0) <= limit);
        }
    }
}

/// A long text is shown by its two ends, equally long and as long as the room allows; a text that
/// fits is shown as it is.
pub proof fn a_snippet_shows_both_ends(value: &str, max_chars: usize, snippet: String)
    requires
        call_ensures(compact_old_snippet, (value, max_chars), snippet),
    ensures
        value@.len() <= max_chars ==> snippet@ == value@,
        value@.len() > max_chars ==> exists|head: Seq<char>, tail: Seq<char>|
            {
                &&& snippet@ == #[trigger] (head + " … "@) + #[trigger] (tail
                    + Seq::<char>::empty())
                &&& head.is_prefix_of(value@)
                &&& tail.is_suffix_of(value@)
                &&& head.len() == tail.len()
            },
        value@.len() > max_chars && max_chars >= 3 ==> max_chars - 1 <= snippet@.len() <= max_chars,
{
    reveal_strlit(" … ");
    if value@.len() > max_chars {
        let side = if max_chars < 3 {
            0
        } else {
            (max_chars - 3) / 2
        };
        let head = value@.take(side);
        let tail = value@.subrange(value@.len() - side, value@.len() as int);
        assert(snippet@ =~= (head + " … "@) + (tail + Seq::<char>::empty()));
        assert(head.is_prefix_of(value@));
        assert(tail.is_suffix_of(value@));
    }
}

} // verus!
