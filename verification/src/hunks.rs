//! Exact replacements: which bytes of an owned text are exchanged for which.
use crate::diff::{
    are_comparable, comparable, group_end, group_new, group_old, group_start, groups_end, groups_located, joined,
    rewritten, span_fits, span_new, span_old, texts, word_diff, DiffSpan, WordDiff,
};
use crate::text::{byte_len, slice, utf8, utf8_concat, utf8_empty, utf8_injective};
use vstd::prelude::*;
use vstd::string::*;
use vstd::utf8::*;

verus! {

/// How many unchanged words stand around each change.
pub const CONTEXT_TOKENS: usize = 6;

/// The most bytes that the two sides of one replacement may have together.
pub const MAX_HUNK_LITERAL_BYTES: usize = 16384;

/// How long the search for small replacements may take.
pub const DIFF_TIMEOUT_MILLIS: u64 = 100;

/// One replacement: at byte `start` of the owned text, `old` is exchanged for `new`.
pub struct Hunk {
    pub start: usize,
    pub old: String,
    pub new: String,
}

/// A replacement as plain values.
pub struct HunkView {
    pub start: int,
    pub old: Seq<char>,
    pub new: Seq<char>,
}

impl View for Hunk {
    type V = HunkView;

    open spec fn view(&self) -> HunkView {
        HunkView { start: self.start as int, old: self.old@, new: self.new@ }
    }
}

impl HunkView {
    /// The byte after the old text.
    pub open spec fn end(self) -> int {
        self.start + utf8(self.old).len()
    }

    /// The bytes of both sides together.
    pub open spec fn literal_bytes(self) -> int {
        (utf8(self.old).len() + utf8(self.new).len()) as int
    }
}

/// The replacements as plain values.
pub open spec fn hunk_views(hunks: Seq<Hunk>) -> Seq<HunkView> {
    hunks.map_values(|hunk: Hunk| hunk@)
}

/// The byte after the first `count` replacements.
pub open spec fn hunks_end(hunks: Seq<HunkView>, count: int) -> int {
    if count <= 0 {
        0
    } else {
        hunks[count - 1].end()
    }
}

/// Each replacement's old text is the text at its place, and the places lie one behind another.
pub open spec fn hunks_located(bytes: Seq<u8>, hunks: Seq<HunkView>) -> bool {
    forall|k: int| #![trigger hunks[k]]
        0 <= k < hunks.len() ==> {
            &&& 0 <= hunks_end(hunks, k) <= hunks[k].start
            &&& hunks[k].end() <= bytes.len()
            &&& bytes.subrange(hunks[k].start, hunks[k].end()) == utf8(hunks[k].old)
        }
}

/// The bytes up to the end of the first `count` replacements, with these carried out.
pub open spec fn applied(bytes: Seq<u8>, hunks: Seq<HunkView>, count: int) -> Seq<u8>
    decreases count,
{
    if count <= 0 {
        Seq::empty()
    } else {
        applied(bytes, hunks, count - 1) + bytes.subrange(
            hunks_end(hunks, count - 1),
            hunks[count - 1].start,
        ) + utf8(hunks[count - 1].new)
    }
}

/// Carrying out the replacements on `old`, and nothing else, gives `new`.
pub open spec fn turns_into(old: Seq<char>, hunks: Seq<HunkView>, new: Seq<char>) -> bool {
    &&& hunks_located(utf8(old), hunks)
    &&& applied(utf8(old), hunks, hunks.len() as int) + utf8(old).subrange(
        hunks_end(hunks, hunks.len() as int),
        utf8(old).len() as int,
    ) == utf8(new)
}

/// Some span of the group is no unchanged text.
pub open spec fn group_changes(group: Seq<DiffSpan>) -> bool {
    exists|i: int| 0 <= i < group.len() && span_changes(#[trigger] group[i])
}

/// The span takes pieces out or puts pieces in.
pub open spec fn span_changes(span: DiffSpan) -> bool {
    !span.equal && (span.old.start < span.old.end || span.new.start < span.new.end)
}

/// The replacement that a group stands for.
pub open spec fn group_hunk(
    olds: Seq<Seq<char>>,
    news: Seq<Seq<char>>,
    group: Seq<DiffSpan>,
) -> HunkView {
    HunkView {
        start: utf8(joined(olds.take(group_start(group)))).len() as int,
        old: joined(group_old(olds, group)),
        new: joined(group_new(olds, news, group)),
    }
}

/// The replacements of the first `count` groups: one for each group that changes something.
pub open spec fn listed_hunks(diff: WordDiff, count: int) -> Seq<HunkView>
    decreases count,
{
    if count <= 0 {
        Seq::empty()
    } else {
        let group = diff.groups@[count - 1]@;
        let earlier = listed_hunks(diff, count - 1);
        if group.len() > 0 && group_changes(group) {
            earlier.push(group_hunk(texts(diff.old_words@), texts(diff.new_words@), group))
        } else {
            earlier
        }
    }
}

/// Joining keeps concatenation.
pub proof fn joined_concat(a: Seq<Seq<char>>, b: Seq<Seq<char>>)
    ensures
        joined(a + b) == joined(a) + joined(b),
    decreases b.len(),
{
    if b.len() == 0 {
        assert(a + b =~= a);
        assert(joined(a) + joined(b) =~= joined(a));
    } else {
        assert((a + b).drop_last() =~= a + b.drop_last());
        joined_concat(a, b.drop_last());
        assert(joined(a + b) =~= joined(a) + joined(b));
    }
}

/// The pieces from `i` to `j` lie behind those before `i`.
proof fn pieces_located(pieces: Seq<Seq<char>>, i: int, j: int)
    requires
        0 <= i <= j <= pieces.len(),
    ensures
        utf8(joined(pieces.take(i))).len() <= utf8(joined(pieces.take(j))).len() <= utf8(
            joined(pieces),
        ).len(),
        utf8(joined(pieces)).subrange(
            utf8(joined(pieces.take(i))).len() as int,
            utf8(joined(pieces.take(j))).len() as int,
        ) == utf8(joined(pieces.subrange(i, j))),
{
    let head = pieces.take(i);
    let middle = pieces.subrange(i, j);
    let tail = pieces.subrange(j, pieces.len() as int);
    assert(pieces.take(j) =~= head + middle);
    assert(pieces =~= head + middle + tail);
    joined_concat(head, middle);
    joined_concat(head + middle, tail);
    utf8_concat(joined(head), joined(middle));
    utf8_concat(joined(head) + joined(middle), joined(tail));
    assert(utf8(joined(pieces)).subrange(
        utf8(joined(head)).len() as int,
        utf8(joined(pieces.take(j))).len() as int,
    ) =~= utf8(joined(middle)));
}

/// A group that changes nothing has the same pieces on both sides.
proof fn unchanged_group(olds: Seq<Seq<char>>, news: Seq<Seq<char>>, group: Seq<DiffSpan>)
    requires
        !group_changes(group),
        forall|i: int|
            0 <= i < group.len() ==> span_fits(
                #[trigger] group[i],
                olds.len() as int,
                news.len() as int,
            ),
    ensures
        group_new(olds, news, group) == group_old(olds, group),
    decreases group.len(),
{
    if group.len() > 0 {
        let earlier = group.drop_last();
        assert forall|i: int| 0 <= i < earlier.len() implies !span_changes(#[trigger] earlier[i]) by {
            assert(earlier[i] == group[i]);
        }
        unchanged_group(olds, news, earlier);
        let last = group.last();
        assert(!span_changes(group[group.len() - 1]));
        assert(span_fits(group[group.len() - 1], olds.len() as int, news.len() as int));
        assert(span_new(olds, news, last) =~= span_old(olds, last));
    }
}

/// The replacements of the first `count` groups carry the old text up to the end of those groups
/// over into the new one.
#[verifier::rlimit(60)]
#[verifier::spinoff_prover]
proof fn listed_hunks_apply(diff: WordDiff, old: Seq<char>, new: Seq<char>, count: int)
    requires
        diff.fits(),
        diff.describes(old, new),
        0 <= count <= diff.groups@.len(),
    ensures
        ({
            let olds = texts(diff.old_words@);
            let news = texts(diff.new_words@);
            let hunks = listed_hunks(diff, count);
            let reached = utf8(
                joined(olds.take(groups_end(olds, diff.groups@, count))),
            ).len() as int;
            &&& hunks_located(utf8(old), hunks)
            &&& 0 <= hunks_end(hunks, hunks.len() as int) <= reached <= utf8(old).len()
            &&& 0 <= groups_end(olds, diff.groups@, count) <= olds.len()
            &&& applied(utf8(old), hunks, hunks.len() as int) + utf8(old).subrange(
                hunks_end(hunks, hunks.len() as int),
                reached,
            ) == utf8(joined(rewritten(olds, news, diff.groups@, count)))
        }),
    decreases count,
{
    let olds = texts(diff.old_words@);
    let news = texts(diff.new_words@);
    let bytes = utf8(old);
    let hunks = listed_hunks(diff, count);
    if count == 0 {
        assert(olds.take(0) =~= Seq::<Seq<char>>::empty());
        utf8_empty();
        assert(applied(bytes, hunks, 0) + bytes.subrange(0, 0) =~= Seq::<u8>::empty());
    } else {
        listed_hunks_apply(diff, old, new, count - 1);
        let earlier = listed_hunks(diff, count - 1);
        let n = earlier.len() as int;
        let group = diff.groups@[count - 1]@;
        let before = groups_end(olds, diff.groups@, count - 1);
        let start = group_start(group);
        let end = group_end(olds, group);
        assert(groups_located(olds, diff.groups@));
        assert(groups_end(olds, diff.groups@, count) == end);
        assert(group.len() > 0 && before <= start && start <= end <= olds.len());
        let p_before = utf8(joined(olds.take(before))).len() as int;
        let p_start = utf8(joined(olds.take(start))).len() as int;
        let p_end = utf8(joined(olds.take(end))).len() as int;
        pieces_located(olds, before, start);
        pieces_located(olds, start, end);
        pieces_located(olds, before, end);
        let sofar = rewritten(olds, news, diff.groups@, count - 1);
        let gap = olds.subrange(before, start);
        joined_concat(sofar, gap);
        joined_concat(sofar + gap, group_new(olds, news, group));
        utf8_concat(joined(sofar), joined(gap));
        utf8_concat(joined(sofar) + joined(gap), joined(group_new(olds, news, group)));
        let done = applied(bytes, earlier, n) + bytes.subrange(hunks_end(earlier, n), p_before);
        assert(utf8(joined(rewritten(olds, news, diff.groups@, count))) =~= done + bytes.subrange(
            p_before,
            p_start,
        ) + utf8(joined(group_new(olds, news, group))));
        if group_changes(group) {
            let hunk = group_hunk(olds, news, group);
            assert(hunks =~= earlier.push(hunk));
            assert(hunk.start == p_start);
            assert(bytes.subrange(p_start, p_end) == utf8(hunk.old));
            assert(hunk.end() == p_end);
            assert forall|k: int| #![trigger hunks[k]] 0 <= k < hunks.len() implies {
                &&& 0 <= hunks_end(hunks, k) <= hunks[k].start
                &&& hunks[k].end() <= bytes.len()
                &&& bytes.subrange(hunks[k].start, hunks[k].end()) == utf8(hunks[k].old)
            } by {
                if k < n {
                    assert(hunks[k] == earlier[k]);
                    if k > 0 {
                        assert(hunks[k - 1] == earlier[k - 1]);
                    }
                } else if n > 0 {
                    assert(hunks[n - 1] == earlier[n - 1]);
                }
            }
            applied_prefix(bytes, earlier, hunks, n);
            if n > 0 {
                assert(hunks[n - 1] == earlier[n - 1]);
            }
            assert(hunks_end(hunks, n) == hunks_end(earlier, n));
            subrange_split(bytes, hunks_end(earlier, n), p_before, p_start);
            assert(applied(bytes, hunks, n + 1) + bytes.subrange(hunk.end(), p_end) =~= applied(
                bytes,
                earlier,
                n,
            ) + (bytes.subrange(hunks_end(earlier, n), p_before) + bytes.subrange(
                p_before,
                p_start,
            )) + utf8(hunk.new));
        } else {
            assert forall|i: int| 0 <= i < group.len() implies span_fits(
                #[trigger] group[i],
                olds.len() as int,
                news.len() as int,
            ) by {
                assert(diff.groups@[count - 1]@[i] == group[i]);
            }
            unchanged_group(olds, news, group);
            subrange_split(bytes, hunks_end(hunks, n), p_before, p_end);
            subrange_split(bytes, p_before, p_start, p_end);
            assert(applied(bytes, hunks, n) + bytes.subrange(hunks_end(hunks, n), p_end) =~= done
                + bytes.subrange(p_before, p_start) + bytes.subrange(p_start, p_end));
        }
    }
}

/// Two adjacent ranges make up one.
proof fn subrange_split(bytes: Seq<u8>, a: int, b: int, c: int)
    requires
        0 <= a <= b <= c <= bytes.len(),
    ensures
        bytes.subrange(a, c) == bytes.subrange(a, b) + bytes.subrange(b, c),
{
    assert(bytes.subrange(a, c) =~= bytes.subrange(a, b) + bytes.subrange(b, c));
}

/// Carrying out the first replacements does not depend on those behind them.
proof fn applied_prefix(bytes: Seq<u8>, some: Seq<HunkView>, more: Seq<HunkView>, count: int)
    requires
        0 <= count <= some.len() <= more.len(),
        forall|k: int| 0 <= k < some.len() ==> some[k] == #[trigger] more[k],
    ensures
        applied(bytes, some, count) == applied(bytes, more, count),
    decreases count,
{
    if count > 0 {
        applied_prefix(bytes, some, more, count - 1);
        assert(some[count - 1] == more[count - 1]);
        if count > 1 {
            assert(some[count - 2] == more[count - 2]);
        }
    }
}

/// The replacements of all groups turn the old text into the new one.
pub proof fn listed_hunks_turn(diff: WordDiff, old: Seq<char>, new: Seq<char>)
    requires
        diff.fits(),
        diff.describes(old, new),
    ensures
        turns_into(old, listed_hunks(diff, diff.groups@.len() as int), new),
{
    let count = diff.groups@.len() as int;
    listed_hunks_apply(diff, old, new, count);
    let olds = texts(diff.old_words@);
    let news = texts(diff.new_words@);
    let hunks = listed_hunks(diff, count);
    let reached = groups_end(olds, diff.groups@, count);
    pieces_located(olds, reached, olds.len() as int);
    assert(olds.take(olds.len() as int) =~= olds);
    let rest = olds.subrange(reached, olds.len() as int);
    let whole = rewritten(olds, news, diff.groups@, count);
    joined_concat(whole, rest);
    utf8_concat(joined(whole), joined(rest));
    let p = utf8(joined(olds.take(reached))).len() as int;
    let end = hunks_end(hunks, hunks.len() as int);
    subrange_split(utf8(old), end, p, utf8(old).len() as int);
    assert(applied(utf8(old), hunks, hunks.len() as int) + utf8(old).subrange(
        end,
        utf8(old).len() as int,
    ) =~= utf8(new));
}

/// Appends the words `from..to` to `text`.
fn append_words(text: &mut String, words: &Vec<String>, from: usize, to: usize)
    requires
        from <= to <= words@.len(),
    ensures
        final(text)@ == old(text)@ + joined(texts(words@).subrange(from as int, to as int)),
{
    let ghost before = text@;
    let ghost pieces = texts(words@);
    let mut i: usize = from;
    assert(before + joined(pieces.subrange(from as int, from as int)) =~= before);
    while i < to
        invariant
            from <= i <= to <= words@.len(),
            pieces == texts(words@),
            text@ == before + joined(pieces.subrange(from as int, i as int)),
        decreases to - i,
    {
        text.append(words[i].as_str());
        proof {
            let longer = pieces.subrange(from as int, i as int + 1);
            assert(longer.drop_last() =~= pieces.subrange(from as int, i as int));
            assert(text@ =~= before + joined(longer));
        }
        i += 1;
    }
}

/// The number of bytes of the words before `count`.
fn words_len(words: &Vec<String>, count: usize) -> (len: usize)
    requires
        count <= words@.len(),
        utf8(joined(texts(words@))).len() <= usize::MAX,
    ensures
        len == utf8(joined(texts(words@).take(count as int))).len(),
{
    let ghost pieces = texts(words@);
    let mut len: usize = 0;
    let mut i: usize = 0;
    proof {
        assert(pieces.take(0) =~= Seq::<Seq<char>>::empty());
        utf8_empty();
    }
    while i < count
        invariant
            i <= count <= words@.len(),
            pieces == texts(words@),
            utf8(joined(pieces)).len() <= usize::MAX,
            len == utf8(joined(pieces.take(i as int))).len(),
        decreases count - i,
    {
        proof {
            let longer = pieces.take(i as int + 1);
            assert(longer.drop_last() =~= pieces.take(i as int));
            utf8_concat(joined(pieces.take(i as int)), pieces[i as int]);
            pieces_located(pieces, i as int + 1, i as int + 1);
        }
        len += byte_len(words[i].as_str());
        i += 1;
    }
    len
}

/// The replacement of each group that changes something.
pub fn word_hunks(diff: &WordDiff) -> (hunks: Vec<Hunk>)
    requires
        diff.fits(),
        utf8(joined(texts(diff.old_words@))).len() <= usize::MAX,
    ensures
        hunk_views(hunks@) == listed_hunks(*diff, diff.groups@.len() as int),
{
    let ghost olds = texts(diff.old_words@);
    let ghost news = texts(diff.new_words@);
    let mut hunks: Vec<Hunk> = Vec::new();
    let mut k: usize = 0;
    assert(hunk_views(hunks@) =~= listed_hunks(*diff, 0));
    while k < diff.groups.len()
        invariant
            k <= diff.groups@.len(),
            diff.fits(),
            utf8(joined(olds)).len() <= usize::MAX,
            olds == texts(diff.old_words@),
            news == texts(diff.new_words@),
            hunk_views(hunks@) == listed_hunks(*diff, k as int),
        decreases diff.groups@.len() - k,
    {
        let group: &Vec<DiffSpan> = &diff.groups[k];
        let mut old = String::new();
        let mut new = String::new();
        let mut changed = false;
        let mut i: usize = 0;
        assert(group@.take(0) =~= Seq::<DiffSpan>::empty());
        while i < group.len()
            invariant
                i <= group@.len(),
                k < diff.groups@.len(),
                *group == diff.groups@[k as int],
                diff.fits(),
                olds == texts(diff.old_words@),
                news == texts(diff.new_words@),
                old@ == joined(group_old(olds, group@.take(i as int))),
                new@ == joined(group_new(olds, news, group@.take(i as int))),
                changed == group_changes(group@.take(i as int)),
            decreases group@.len() - i,
        {
            let span: &DiffSpan = &group[i];
            proof {
                assert(*span == diff.groups@[k as int]@[i as int]);
                let longer = group@.take(i as int + 1);
                assert(longer.drop_last() =~= group@.take(i as int));
                joined_concat(group_old(olds, group@.take(i as int)), span_old(olds, *span));
                joined_concat(
                    group_new(olds, news, group@.take(i as int)),
                    span_new(olds, news, *span),
                );
                if group_changes(group@.take(i as int)) {
                    let at = choose|j: int|
                        0 <= j < group@.take(i as int).len() && span_changes(
                            #[trigger] group@.take(i as int)[j],
                        );
                    assert(longer[at] == group@.take(i as int)[at]);
                }
                if group_changes(longer) {
                    let at = choose|j: int|
                        0 <= j < longer.len() && span_changes(#[trigger] longer[j]);
                    if at < i {
                        assert(group@.take(i as int)[at] == longer[at]);
                    }
                }
                assert(longer[i as int] == *span);
            }
            append_words(&mut old, &diff.old_words, span.old.start, span.old.end);
            if span.equal {
                append_words(&mut new, &diff.old_words, span.old.start, span.old.end);
            } else {
                append_words(&mut new, &diff.new_words, span.new.start, span.new.end);
                if span.old.start < span.old.end || span.new.start < span.new.end {
                    changed = true;
                }
            }
            i += 1;
        }
        assert(group@.take(group@.len() as int) =~= group@);
        if changed && group.len() > 0 {
            assert(span_fits(
                diff.groups@[k as int]@[0],
                diff.old_words@.len() as int,
                diff.new_words@.len() as int,
            ));
            let start: usize = words_len(&diff.old_words, group[0].old.start);
            let ghost earlier = hunks@;
            hunks.push(Hunk { start, old, new });
            assert(hunk_views(hunks@) =~= hunk_views(earlier).push(
                group_hunk(olds, news, group@),
            ));
        }
        k += 1;
    }
    hunks
}

/// The first `len` bytes of both texts agree and end between characters in both.
pub open spec fn shared_prefix(old: Seq<char>, new: Seq<char>, len: int) -> bool {
    &&& 0 <= len <= utf8(old).len()
    &&& len <= utf8(new).len()
    &&& forall|k: int| 0 <= k < len ==> #[trigger] utf8(old)[k] == utf8(new)[k]
    &&& is_char_boundary(utf8(old), len)
    &&& is_char_boundary(utf8(new), len)
}

/// The last `len` bytes of both texts agree, start between characters in both, and do not reach
/// into the first `prefix` bytes.
pub open spec fn shared_suffix(old: Seq<char>, new: Seq<char>, prefix: int, len: int) -> bool {
    &&& 0 <= len
    &&& prefix + len <= utf8(old).len()
    &&& prefix + len <= utf8(new).len()
    &&& forall|k: int|
        0 < k <= len ==> #[trigger] utf8(old)[utf8(old).len() - k] == utf8(new)[utf8(new).len() - k]
    &&& is_char_boundary(utf8(old), utf8(old).len() - len)
    &&& is_char_boundary(utf8(new), utf8(new).len() - len)
}

/// `hunk` is what is left of both texts without their longest shared prefix and, behind that,
/// their longest shared suffix.
pub open spec fn is_affix_hunk(old: Seq<char>, new: Seq<char>, hunk: HunkView) -> bool {
    let prefix = hunk.start;
    let suffix = utf8(old).len() - hunk.end();
    &&& shared_prefix(old, new, prefix)
    &&& forall|longer: int| prefix < longer ==> !#[trigger] shared_prefix(old, new, longer)
    &&& shared_suffix(old, new, prefix, suffix)
    &&& forall|longer: int|
        suffix < longer ==> !#[trigger] shared_suffix(old, new, prefix, longer)
    &&& utf8(hunk.old) == utf8(old).subrange(prefix, utf8(old).len() - suffix)
    &&& utf8(hunk.new) == utf8(new).subrange(prefix, utf8(new).len() - suffix)
}

/// The one replacement that is left when the longest shared prefix and suffix are taken off.
pub fn common_affix_hunk<'a>(old: &'a str, new: &'a str) -> (hunk: (usize, &'a str, &'a str))
    ensures
        is_affix_hunk(
            old@,
            new@,
            (HunkView { start: hunk.0 as int, old: hunk.1@, new: hunk.2@ }),
        ),
{
    let old_len: usize = byte_len(old);
    let new_len: usize = byte_len(new);
    let old_bytes: &[u8] = old.as_bytes();
    let new_bytes: &[u8] = new.as_bytes();
    proof {
        reveal(utf8);
        encode_utf8_valid_utf8(old@);
        encode_utf8_valid_utf8(new@);
        is_char_boundary_start_end_of_seq(utf8(old@));
        is_char_boundary_start_end_of_seq(utf8(new@));
    }
    let ghost a = utf8(old@);
    let ghost b = utf8(new@);
    let shorter: usize = if old_len < new_len {
        old_len
    } else {
        new_len
    };
    let mut agree: usize = 0;
    while agree < shorter && old_bytes[agree] == new_bytes[agree]
        invariant
            old_bytes@ == a,
            new_bytes@ == b,
            agree <= shorter <= a.len(),
            shorter <= b.len(),
            forall|k: int| 0 <= k < agree ==> #[trigger] a[k] == b[k],
        decreases shorter - agree,
    {
        agree += 1;
    }
    let mut prefix: usize = agree;
    while !old.is_char_boundary(prefix) || !new.is_char_boundary(prefix)
        invariant
            a == utf8(old@),
            b == utf8(new@),
            old.spec_bytes() == a,
            new.spec_bytes() == b,
            prefix <= agree <= a.len(),
            agree <= b.len(),
            is_char_boundary(a, 0),
            is_char_boundary(b, 0),
            forall|q: int|
                prefix < q <= agree ==> !(#[trigger] is_char_boundary(a, q) && is_char_boundary(
                    b,
                    q,
                )),
        decreases prefix,
    {
        prefix -= 1;
    }
    assert forall|longer: int| prefix < longer implies !#[trigger] shared_prefix(
        old@,
        new@,
        longer,
    ) by {
        if shared_prefix(old@, new@, longer) {
            if longer <= agree {
                assert(is_char_boundary(a, longer));
            } else {
                assert(a[agree as int] == b[agree as int]);
            }
        }
    }
    let max_suffix: usize = shorter - prefix;
    let mut tail: usize = 0;
    while tail < max_suffix && old_bytes[old_len - 1 - tail] == new_bytes[new_len - 1 - tail]
        invariant
            old_bytes@ == a,
            new_bytes@ == b,
            old_len == a.len(),
            new_len == b.len(),
            tail <= max_suffix,
            max_suffix + prefix <= a.len(),
            max_suffix + prefix <= b.len(),
            forall|k: int| 0 < k <= tail ==> #[trigger] a[a.len() - k] == b[b.len() - k],
        decreases max_suffix - tail,
    {
        tail += 1;
    }
    let mut suffix: usize = tail;
    while !old.is_char_boundary(old_len - suffix) || !new.is_char_boundary(new_len - suffix)
        invariant
            a == utf8(old@),
            b == utf8(new@),
            old.spec_bytes() == a,
            new.spec_bytes() == b,
            old_len == a.len(),
            new_len == b.len(),
            suffix <= tail <= a.len(),
            tail <= b.len(),
            is_char_boundary(a, a.len() as int),
            is_char_boundary(b, b.len() as int),
            forall|q: int|
                suffix < q <= tail ==> !(#[trigger] is_char_boundary(a, a.len() - q)
                    && is_char_boundary(b, b.len() - q)),
        decreases suffix,
    {
        suffix -= 1;
    }
    assert forall|longer: int| suffix < longer implies !#[trigger] shared_suffix(
        old@,
        new@,
        prefix as int,
        longer,
    ) by {
        if shared_suffix(old@, new@, prefix as int, longer) {
            if longer <= tail {
                assert(is_char_boundary(a, a.len() - longer));
            } else {
                let k = tail as int + 1;
                assert(a[a.len() - k] == b[b.len() - k]);
            }
        }
    }
    let old_part: Option<&'a str> = slice(old, prefix, old_len - suffix);
    let new_part: Option<&'a str> = slice(new, prefix, new_len - suffix);
    (prefix, old_part.unwrap(), new_part.unwrap())
}

/// The replacement that is left without the shared ends turns one text into the other.
pub proof fn affix_hunk_turns(old: Seq<char>, new: Seq<char>, hunk: HunkView)
    requires
        is_affix_hunk(old, new, hunk),
    ensures
        turns_into(old, seq![hunk], new),
{
    let a = utf8(old);
    let b = utf8(new);
    let prefix = hunk.start;
    let suffix = a.len() - hunk.end();
    let hunks = seq![hunk];
    assert(applied(a, hunks, 0) =~= Seq::<u8>::empty());
    assert(applied(a, hunks, 1) == applied(a, hunks, 0) + a.subrange(0, prefix) + utf8(hunk.new));
    assert(a.subrange(0, prefix) =~= b.subrange(0, prefix));
    assert forall|i: int| 0 <= i < suffix implies #[trigger] a.subrange(
        a.len() - suffix,
        a.len() as int,
    )[i] == b.subrange(b.len() - suffix, b.len() as int)[i] by {
        let k = suffix - i;
        assert(a[a.len() - k] == b[b.len() - k]);
    }
    assert(a.subrange(a.len() - suffix, a.len() as int) =~= b.subrange(
        b.len() - suffix,
        b.len() as int,
    ));
    assert(applied(a, hunks, 1) + a.subrange(hunk.end(), a.len() as int) =~= b);
}

/// Every replacement is short enough to be spelled out.
pub open spec fn all_short(hunks: Seq<HunkView>) -> bool {
    forall|k: int|
        0 <= k < hunks.len() ==> (#[trigger] hunks[k]).literal_bytes() <= MAX_HUNK_LITERAL_BYTES
}

/// The replacements to spell out: `found` where each of them is short enough, else the one
/// replacement without the shared ends, where that is short enough.
pub fn spelled_hunks(found: Vec<Hunk>, expected: &str, replacement: &str) -> (hunks: Option<
    Vec<Hunk>,
>)
    ensures
        all_short(hunk_views(found@)) ==> hunks == Some(found),
        !all_short(hunk_views(found@)) ==> (match hunks {
            Some(single) => single@.len() == 1 && is_affix_hunk(
                expected@,
                replacement@,
                single@[0]@,
            ) && !too_long(single@[0]@),
            None => exists|hunk: HunkView| #[trigger]
                is_affix_hunk(expected@, replacement@, hunk) && too_long(hunk),
        }),
{
    let mut k: usize = 0;
    let mut short = true;
    while k < found.len()
        invariant
            k <= found@.len(),
            short == all_short(hunk_views(found@).take(k as int)),
        decreases found@.len() - k,
    {
        let old_len: usize = byte_len(found[k].old.as_str());
        let new_len: usize = byte_len(found[k].new.as_str());
        proof {
            let views = hunk_views(found@);
            assert(views[k as int] == found@[k as int]@);
            assert(views.take(k as int + 1)[k as int] == views[k as int]);
            assert forall|j: int| 0 <= j < k implies views.take(k as int)[j] == views.take(
                k as int + 1,
            )[j] by {}
            if all_short(views.take(k as int + 1)) {
                assert forall|j: int| 0 <= j < k implies (#[trigger] views.take(
                    k as int,
                )[j]).literal_bytes() <= MAX_HUNK_LITERAL_BYTES by {
                    assert(views.take(k as int + 1)[j] == views.take(k as int)[j]);
                }
            }
        }
        if old_len > MAX_HUNK_LITERAL_BYTES || new_len > MAX_HUNK_LITERAL_BYTES - old_len {
            short = false;
        }
        k += 1;
    }
    assert(hunk_views(found@).take(found@.len() as int) =~= hunk_views(found@));
    if short {
        return Some(found);
    }
    affix_hunks(expected, replacement)
}

/// `hunk` is too long to be spelled out.
pub open spec fn too_long(hunk: HunkView) -> bool {
    hunk.literal_bytes() > MAX_HUNK_LITERAL_BYTES
}

/// The replacements of all groups of a word difference.
pub open spec fn found_hunks(diff: WordDiff) -> Seq<HunkView> {
    listed_hunks(diff, diff.groups@.len() as int)
}

/// `hunks` are the replacements to spell out: those of a word difference of the texts, where the
/// texts can be compared and each replacement is short enough, else the one replacement without
/// the shared ends, which is short enough.
pub open spec fn are_spelled(
    expected: Seq<char>,
    replacement: Seq<char>,
    hunks: Seq<HunkView>,
) -> bool {
    let single = hunks.len() == 1 && is_affix_hunk(expected, replacement, hunks[0]) && !too_long(
        hunks[0],
    );
    if comparable(expected, replacement) {
        exists|diff: WordDiff| #[trigger]
            diff.word_diff_of(expected, replacement, CONTEXT_TOKENS as int) && if all_short(
                found_hunks(diff),
            ) {
                hunks == found_hunks(diff)
            } else {
                single
            }
    } else {
        single
    }
}

/// There is no correction from `expected` to `replacement` that can be spelled out: the
/// replacement without the shared ends is too long, and so is one of a word difference of the
/// texts, where these can be compared.
pub open spec fn cannot_spell(expected: Seq<char>, replacement: Seq<char>) -> bool {
    &&& exists|hunk: HunkView| #[trigger]
        is_affix_hunk(expected, replacement, hunk) && too_long(hunk)
    &&& comparable(expected, replacement) ==> exists|diff: WordDiff| #[trigger]
        diff.word_diff_of(expected, replacement, CONTEXT_TOKENS as int) && !all_short(
            found_hunks(diff),
        )
}

/// The one replacement that is left without the shared ends, where it is short enough.
fn affix_hunks(expected: &str, replacement: &str) -> (hunks: Option<Vec<Hunk>>)
    ensures
        match hunks {
            Some(single) => single@.len() == 1 && is_affix_hunk(
                expected@,
                replacement@,
                single@[0]@,
            ) && !too_long(single@[0]@),
            None => exists|hunk: HunkView| #[trigger]
                is_affix_hunk(expected@, replacement@, hunk) && too_long(hunk),
        },
{
    let (start, old, new) = common_affix_hunk(expected, replacement);
    let old_len: usize = byte_len(old);
    let new_len: usize = byte_len(new);
    let ghost view = HunkView { start: start as int, old: old@, new: new@ };
    assert(is_affix_hunk(expected@, replacement@, view));
    if old_len > MAX_HUNK_LITERAL_BYTES || new_len > MAX_HUNK_LITERAL_BYTES - old_len {
        return None;
    }
    let mut single: Vec<Hunk> = Vec::new();
    single.push(Hunk { start, old: String::from_str(old), new: String::from_str(new) });
    assert(single@[0]@ == view);
    Some(single)
}

/// Replacements that turn `expected` into `replacement`, each short enough to be spelled out.
///
/// How small they are depends on the time that the search takes; that they are those of a word
/// difference, and turn the one text into the other, does not. They are owed unless what is left
/// of the texts without their shared ends is too long to be spelled out.
pub fn correction_hunks(expected: &str, replacement: &str) -> (hunks: Option<Vec<Hunk>>)
    ensures
        match hunks {
            Some(list) => {
                &&& are_spelled(expected@, replacement@, hunk_views(list@))
                &&& turns_into(expected@, hunk_views(list@), replacement@)
                &&& all_short(hunk_views(list@))
            },
            None => cannot_spell(expected@, replacement@),
        },
{
    let bytes: usize = byte_len(expected);
    let hunks: Option<Vec<Hunk>> = if are_comparable(expected, replacement) {
        assert(utf8(expected@).len() == bytes);
        let diff: WordDiff = word_diff(expected, replacement, DIFF_TIMEOUT_MILLIS, CONTEXT_TOKENS);
        let found: Vec<Hunk> = word_hunks(&diff);
        proof {
            assert(diff.word_diff_of(expected@, replacement@, CONTEXT_TOKENS as int));
            listed_hunks_turn(diff, expected@, replacement@);
        }
        spelled_hunks(found, expected, replacement)
    } else {
        affix_hunks(expected, replacement)
    };
    proof {
        if hunks is Some {
            let list = hunks->0@;
            if list.len() == 1 && is_affix_hunk(expected@, replacement@, list[0]@) {
                affix_hunk_turns(expected@, replacement@, list[0]@);
                assert(hunk_views(list) =~= seq![list[0]@]);
            }
        }
    }
    hunks
}

/// Texts that differ have something to replace.
pub proof fn differing_texts_have_hunks(old: Seq<char>, hunks: Seq<HunkView>, new: Seq<char>)
    requires
        turns_into(old, hunks, new),
        old != new,
    ensures
        hunks.len() > 0,
{
    if hunks.len() == 0 {
        assert(applied(utf8(old), hunks, 0) + utf8(old).subrange(0, utf8(old).len() as int)
            =~= utf8(old));
        utf8_injective(old, new);
    }
}

} // verus!
