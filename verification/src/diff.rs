//! Word and character differences between two texts.
use crate::text::{
    byte_len, finds_text, is_white, is_white_space, lists_text, utf8, utf8_concat, utf8_empty,
    utf8_injective,
};
use similar::{DiffOp, DiffTag, TextDiff};
use std::ops::Range;
use std::time::Duration;
use vstd::prelude::*;
use vstd::string::*;

verus! {

/// How many different words two texts may have that are compared word by word. Words are numbered
/// with 32 bits.
pub const MAX_DIFFERENT_WORDS: u32 = 0xffff_ffff;

/// Two texts of at most this many bytes each cannot have more different words.
pub const MAX_UNCOUNTED_BYTES: usize = 0x7fff_ffff;

/// One operation of a difference, over the pieces of the old and of the new text.
pub struct DiffSpan {
    /// The pieces on both sides are the same.
    pub equal: bool,
    pub old: Range<usize>,
    pub new: Range<usize>,
}

/// The words of two texts, and the changed places with some words of context around each.
pub struct WordDiff {
    pub old_words: Vec<String>,
    pub new_words: Vec<String>,
    pub groups: Vec<Vec<DiffSpan>>,
}

/// The texts that `words` hold.
pub open spec fn texts(words: Seq<String>) -> Seq<Seq<char>> {
    words.map_values(|word: String| word@)
}

/// The pieces one after another.
pub open spec fn joined(pieces: Seq<Seq<char>>) -> Seq<char>
    decreases pieces.len(),
{
    if pieces.len() == 0 {
        Seq::empty()
    } else {
        joined(pieces.drop_last()) + pieces.last()
    }
}

/// The words of `text`: its runs of white space and of other characters, in order.
pub open spec fn runs(text: Seq<char>) -> Seq<Seq<char>>
    decreases text.len(),
{
    if text.len() == 0 {
        Seq::empty()
    } else {
        let earlier = runs(text.drop_last());
        let c = text.last();
        if earlier.len() > 0 && is_white_space(earlier.last().last()) == is_white_space(c) {
            earlier.drop_last().push(earlier.last().push(c))
        } else {
            earlier.push(seq![c])
        }
    }
}

/// How many different words two texts have.
pub open spec fn different_words(old: Seq<char>, new: Seq<char>) -> nat {
    (runs(old) + runs(new)).to_set().len()
}

/// The first `count` pieces of both lists are the same.
pub open spec fn agree(old: Seq<Seq<char>>, new: Seq<Seq<char>>, count: int) -> bool {
    &&& 0 <= count <= old.len()
    &&& count <= new.len()
    &&& old.take(count) == new.take(count)
}

/// The span names pieces that there are.
pub open spec fn span_fits(span: DiffSpan, old_len: int, new_len: int) -> bool {
    &&& span.old.start <= span.old.end <= old_len
    &&& span.new.start <= span.new.end <= new_len
}

/// The old pieces that a span covers.
pub open spec fn span_old(old: Seq<Seq<char>>, span: DiffSpan) -> Seq<Seq<char>> {
    old.subrange(span.old.start as int, span.old.end as int)
}

/// The pieces that stand in the new text for the old pieces that a span covers.
pub open spec fn span_new(
    old: Seq<Seq<char>>,
    new: Seq<Seq<char>>,
    span: DiffSpan,
) -> Seq<Seq<char>> {
    if span.equal {
        span_old(old, span)
    } else {
        new.subrange(span.new.start as int, span.new.end as int)
    }
}

/// The old pieces that the spans of a group cover, in order.
pub open spec fn group_old(old: Seq<Seq<char>>, group: Seq<DiffSpan>) -> Seq<Seq<char>>
    decreases group.len(),
{
    if group.len() == 0 {
        Seq::empty()
    } else {
        group_old(old, group.drop_last()) + span_old(old, group.last())
    }
}

/// The pieces that stand in the new text for those of a group, in order.
pub open spec fn group_new(
    old: Seq<Seq<char>>,
    new: Seq<Seq<char>>,
    group: Seq<DiffSpan>,
) -> Seq<Seq<char>>
    decreases group.len(),
{
    if group.len() == 0 {
        Seq::empty()
    } else {
        group_new(old, new, group.drop_last()) + span_new(old, new, group.last())
    }
}

/// Where a group starts in the old text.
pub open spec fn group_start(group: Seq<DiffSpan>) -> int {
    group[0].old.start as int
}

/// Where a group ends in the old text.
pub open spec fn group_end(old: Seq<Seq<char>>, group: Seq<DiffSpan>) -> int {
    group_start(group) + group_old(old, group).len()
}

/// The end of the first `count` groups in the old text.
pub open spec fn groups_end(
    old: Seq<Seq<char>>,
    groups: Seq<Vec<DiffSpan>>,
    count: int,
) -> int {
    if count <= 0 {
        0
    } else {
        group_end(old, groups[count - 1]@)
    }
}

/// The groups are not empty, lie one behind another in the old text, and each covers the old
/// pieces from its start to its end.
pub open spec fn groups_located(old: Seq<Seq<char>>, groups: Seq<Vec<DiffSpan>>) -> bool {
    forall|k: int| #![trigger groups[k]]
        0 <= k < groups.len() ==> {
            let group = groups[k]@;
            &&& group.len() > 0
            &&& groups_end(old, groups, k) <= group_start(group)
            &&& group_end(old, group) <= old.len()
            &&& group_old(old, group) == old.subrange(group_start(group), group_end(old, group))
        }
}

/// The old pieces up to the end of the first `count` groups, with each group's old pieces
/// exchanged for its new ones.
pub open spec fn rewritten(
    old: Seq<Seq<char>>,
    new: Seq<Seq<char>>,
    groups: Seq<Vec<DiffSpan>>,
    count: int,
) -> Seq<Seq<char>>
    decreases count,
{
    if count <= 0 {
        Seq::empty()
    } else {
        rewritten(old, new, groups, count - 1) + old.subrange(
            groups_end(old, groups, count - 1),
            group_start(groups[count - 1]@),
        ) + group_new(old, new, groups[count - 1]@)
    }
}

/// Unchanged pieces, and exactly `count` of them.
pub open spec fn is_context(span: DiffSpan, count: int) -> bool {
    span.equal && span.old.end - span.old.start == count
}

impl WordDiff {
    /// The spans name words that there are.
    pub open spec fn fits(self) -> bool {
        forall|k: int, i: int| #![trigger self.groups@[k]@[i]]
            0 <= k < self.groups@.len() && 0 <= i < self.groups@[k]@.len() ==> span_fits(
                self.groups@[k]@[i],
                self.old_words@.len() as int,
                self.new_words@.len() as int,
            )
    }

    /// The words make up the two texts, and exchanging the groups turns the one into the other.
    pub open spec fn describes(self, old: Seq<char>, new: Seq<char>) -> bool {
        let olds = texts(self.old_words@);
        let news = texts(self.new_words@);
        let count = self.groups@.len() as int;
        &&& joined(olds) == old
        &&& joined(news) == new
        &&& groups_located(olds, self.groups@)
        &&& rewritten(olds, news, self.groups@, count) + olds.subrange(
            groups_end(olds, self.groups@, count),
            olds.len() as int,
        ) == news
    }

    /// No unchanged span has more than `context` words at either end of a group, nor more than
    /// twice as many between two changes.
    pub open spec fn trimmed(self, context: int) -> bool {
        forall|k: int, i: int| #![trigger self.groups@[k]@[i]]
            0 <= k < self.groups@.len() && 0 <= i < self.groups@[k]@.len()
                && self.groups@[k]@[i].equal ==> {
                let span = self.groups@[k]@[i];
                let at_end = i == 0 || i == self.groups@[k]@.len() - 1;
                span.old.end - span.old.start <= (if at_end {
                    context
                } else {
                    2 * context
                })
            }
    }

    /// Words are left out between any two groups, and a group has `context` unchanged words
    /// wherever words are left out next to it.
    pub open spec fn padded(self, context: int) -> bool {
        let olds = texts(self.old_words@);
        let count = self.groups@.len() as int;
        &&& forall|k: int| #![trigger self.groups@[k]]
            0 <= k < count && groups_end(olds, self.groups@, k) < group_start(self.groups@[k]@)
                ==> is_context(self.groups@[k]@[0], context)
        &&& forall|k: int| #![trigger self.groups@[k]]
            0 < k < count ==> {
                &&& groups_end(olds, self.groups@, k) < group_start(self.groups@[k]@)
                &&& is_context(self.groups@[k - 1]@.last(), context)
            }
        &&& count > 0 && groups_end(olds, self.groups@, count) < olds.len() ==> is_context(
            self.groups@[count - 1]@.last(),
            context,
        )
    }

    /// The first group starts at most `context` words before the first word that differs.
    pub open spec fn opens_at_difference(self, context: int) -> bool {
        self.groups@.len() > 0 ==> forall|count: int| #[trigger]
            agree(texts(self.old_words@), texts(self.new_words@), count) ==> count <= group_start(
                self.groups@[0]@,
            ) + context
    }

    /// A word difference of `old` and `new` with `context` unchanged words around each change.
    pub open spec fn word_diff_of(self, old: Seq<char>, new: Seq<char>, context: int) -> bool {
        &&& self.fits()
        &&& self.describes(old, new)
        &&& texts(self.old_words@) == runs(old)
        &&& texts(self.new_words@) == runs(new)
        &&& self.trimmed(context)
        &&& self.padded(context)
        &&& self.opens_at_difference(context)
    }
}

/// The texts can be compared word by word: their words can be numbered.
pub open spec fn comparable(old: Seq<char>, new: Seq<char>) -> bool {
    different_words(old, new) <= MAX_DIFFERENT_WORDS
}

/// A text has no more words than characters, and no more characters than bytes.
pub proof fn words_are_few(text: Seq<char>)
    ensures
        runs(text).len() <= text.len() <= utf8(text).len(),
    decreases text.len(),
{
    if text.len() == 0 {
        utf8_empty();
    } else {
        let shorter = text.drop_last();
        words_are_few(shorter);
        assert(text =~= shorter + seq![text.last()]);
        utf8_concat(shorter, seq![text.last()]);
        if utf8(seq![text.last()]).len() == 0 {
            utf8_empty();
            assert(utf8(seq![text.last()]) =~= utf8(Seq::empty()));
            utf8_injective(seq![text.last()], Seq::empty());
            assert(seq![text.last()].len() == 1);
        }
    }
}

/// The words of `text`.
fn words_of(text: &str) -> (words: Vec<String>)
    ensures
        texts(words@) == runs(text@),
{
    let mut words: Vec<String> = Vec::new();
    let mut word = String::new();
    let mut white = false;
    let len: usize = text.unicode_len();
    let mut i: usize = 0;
    assert(text@.take(0) =~= Seq::<char>::empty());
    assert(texts(words@) =~= Seq::<Seq<char>>::empty());
    while i < len
        invariant
            i <= len == text@.len(),
            i == 0 ==> words@.len() == 0 && word@.len() == 0,
            i > 0 ==> word@.len() > 0 && white == is_white_space(word@.last()),
            runs(text@.take(i as int)) == if i == 0 {
                texts(words@)
            } else {
                texts(words@).push(word@)
            },
        decreases len - i,
    {
        let c: char = text.get_char(i);
        let c_white: bool = is_white(c);
        let ghost before = texts(words@);
        let ghost earlier = runs(text@.take(i as int));
        let ghost last = word@;
        proof {
            let longer = text@.take(i as int + 1);
            assert(longer.drop_last() =~= text@.take(i as int));
            assert(longer.last() == c);
            if i > 0 {
                assert(earlier.drop_last() =~= before);
                assert(earlier.last() == last);
            }
        }
        if i > 0 && c_white != white {
            words.push(word);
            word = String::new();
            assert(texts(words@) =~= before.push(last));
        }
        word.append(text.substring_char(i, i + 1));
        proof {
            assert(text@.subrange(i as int, i as int + 1) =~= seq![c]);
            if i > 0 && c_white == white {
                assert(word@ =~= last.push(c));
            } else {
                assert(word@ =~= seq![c]);
            }
            assert(runs(text@.take(i as int + 1)) =~= texts(words@).push(word@));
        }
        white = c_white;
        i += 1;
    }
    assert(text@.take(i as int) =~= text@);
    if len > 0 {
        let ghost before = texts(words@);
        words.push(word);
        assert(texts(words@) =~= before.push(texts(words@).last()));
    }
    words
}

/// Noting one more word among those that are different.
proof fn same_words(
    different: Seq<Seq<char>>,
    seen: Seq<Seq<char>>,
    word: Seq<char>,
    after: Seq<Seq<char>>,
)
    requires
        different.no_duplicates(),
        different.to_set() =~= seen.to_set(),
        after == if different.contains(word) {
            different
        } else {
            different.push(word)
        },
    ensures
        after.no_duplicates(),
        after.to_set() =~= seen.push(word).to_set(),
{
    let longer = seen.push(word);
    assert forall|w: Seq<char>| after.to_set().contains(w) == longer.to_set().contains(w) by {
        assert(different.to_set().contains(w) == seen.to_set().contains(w));
        if seen.contains(w) {
            let k = choose|k: int| 0 <= k < seen.len() && seen[k] == w;
            assert(longer[k] == w);
        }
        if different.contains(w) {
            let k = choose|k: int| 0 <= k < different.len() && different[k] == w;
            assert(after[k] == w);
        }
        if w == word {
            assert(longer[seen.len() as int] == w);
            if !different.contains(word) {
                assert(after[different.len() as int] == w);
            }
        }
        if longer.contains(w) && w != word {
            let k = choose|k: int| 0 <= k < longer.len() && longer[k] == w;
            assert(seen[k] == w);
        }
        if after.contains(w) && w != word {
            let k = choose|k: int| 0 <= k < after.len() && after[k] == w;
            assert(different[k] == w);
        }
    }
}

/// `true` exactly when the texts can be compared word by word. Only words of texts that are very
/// long are looked at.
pub fn are_comparable(old: &str, new: &str) -> (comparable_texts: bool)
    ensures
        comparable_texts == comparable(old@, new@),
{
    let ghost all = runs(old@) + runs(new@);
    proof {
        words_are_few(old@);
        words_are_few(new@);
        all.lemma_cardinality_of_set();
    }
    if byte_len(old) <= MAX_UNCOUNTED_BYTES && byte_len(new) <= MAX_UNCOUNTED_BYTES {
        return true;
    }
    let mut words: Vec<String> = words_of(old);
    let mut more: Vec<String> = words_of(new);
    words.append(&mut more);
    assert(texts(words@) =~= all);
    let mut different: Vec<String> = Vec::new();
    let mut i: usize = 0;
    assert(texts(words@).take(0) =~= Seq::<Seq<char>>::empty());
    assert(texts(different@) =~= Seq::<Seq<char>>::empty());
    while i < words.len()
        invariant
            i <= words@.len(),
            texts(words@) == all,
            texts(different@).no_duplicates(),
            texts(different@).to_set() =~= all.take(i as int).to_set(),
        decreases words@.len() - i,
    {
        let ghost before = texts(different@);
        proof {
            assert(all[i as int] == words@[i as int]@);
            assert(all.take(i as int + 1) =~= all.take(i as int).push(all[i as int]));
            if lists_text(different@, all[i as int]) {
                let k = choose|k: int|
                    0 <= k < different@.len() && (#[trigger] different@[k])@ == all[i as int];
                assert(before[k] == all[i as int]);
            }
            if before.contains(all[i as int]) {
                let k = choose|k: int| 0 <= k < before.len() && before[k] == all[i as int];
                assert(different@[k]@ == all[i as int]);
            }
        }
        if !finds_text(&different, words[i].as_str()) {
            different.push(words[i].clone());
            assert(texts(different@) =~= before.push(words@[i as int]@));
        }
        proof {
            same_words(before, all.take(i as int), all[i as int], texts(different@));
        }
        i += 1;
    }
    assert(all.take(i as int) =~= all);
    proof {
        texts(different@).unique_seq_to_set();
    }
    different.len() as u64 <= MAX_DIFFERENT_WORDS as u64
}

/// `similar::TextDiffConfig::diff_words` under a timeout, with
/// `similar::TextDiff::grouped_ops`: the runs of white space and of other characters of both
/// texts, and the operations that turn the one list of runs into the other, in groups with up to
/// `context` unchanged runs around each change.
///
/// Which operations are found depends on the time that the search takes, so nothing is claimed
/// of their number or size, but for the runs that both texts start with: these are skipped before
/// the search, and the clean-up after it shifts insertions no further up than it found them.
/// Claimed of every outcome: the words are the runs of the texts; the operations name runs that
/// there are; a group covers adjacent old runs from the start of its first operation on; the
/// groups lie one behind another with runs left out between them; exchanging each group's old runs
/// for its new ones gives the new text's runs; an unchanged stretch is cut to `context` runs at
/// either end of a group, where it is longer, and to at most twice as many inside one; and the
/// first group starts at most `context` runs before the first run that differs.
///
/// Different runs are numbered with 32 bits, which more of them would overflow.
#[verifier::external_body]
pub(crate) fn word_diff(old: &str, new: &str, timeout_millis: u64, context: usize) -> (diff:
    WordDiff)
    requires
        comparable(old@, new@),
        context <= 0x7fff_ffff,
    ensures
        diff.fits(),
        diff.describes(old@, new@),
        texts(diff.old_words@) == runs(old@),
        texts(diff.new_words@) == runs(new@),
        diff.trimmed(context as int),
        diff.padded(context as int),
        diff.opens_at_difference(context as int),
{
    let mut config = TextDiff::configure();
    let diff = config.timeout(Duration::from_millis(timeout_millis)).diff_words(old, new);
    let span = |op: &DiffOp| DiffSpan {
        equal: matches!(op.tag(), DiffTag::Equal),
        old: op.old_range(),
        new: op.new_range(),
    };
    WordDiff {
        old_words: diff.old_slices().iter().map(|word| word.to_string()).collect(),
        new_words: diff.new_slices().iter().map(|word| word.to_string()).collect(),
        groups: diff.grouped_ops(context).iter().map(|ops| ops.iter().map(span).collect()).collect(),
    }
}

/// The operations that turn the characters `old` into the characters `new`, as the differ finds
/// them: whether the characters stay, their range in `old` and their range in `new`.
pub uninterp spec fn char_operations(old: Seq<char>, new: Seq<char>) -> Seq<(
    bool,
    (usize, usize),
    (usize, usize),
)>;

/// A span as plain values.
pub open spec fn span_values(span: DiffSpan) -> (bool, (usize, usize), (usize, usize)) {
    (span.equal, (span.old.start, span.old.end), (span.new.start, span.new.end))
}

/// `similar::TextDiff::from_chars`: the operations that turn one text into another, character by
/// character. No deadline is set, so they depend on the two texts alone; which they are is not
/// claimed, only that they name characters that there are.
#[verifier::external_body]
pub(crate) fn char_diff(old: &str, new: &str) -> (spans: Vec<DiffSpan>)
    ensures
        spans@.map_values(|span: DiffSpan| span_values(span)) == char_operations(old@, new@),
        forall|i: int|
            0 <= i < spans@.len() ==> span_fits(
                #[trigger] spans@[i],
                old@.len() as int,
                new@.len() as int,
            ),
{
    let diff = TextDiff::from_chars(old, new);
    let span = |op: &DiffOp| DiffSpan {
        equal: matches!(op.tag(), DiffTag::Equal),
        old: op.old_range(),
        new: op.new_range(),
    };
    diff.ops().iter().map(span).collect()
}

} // verus!
