//! What the pool does to the strings that pass through it.

use crate::error::lemma_success;
use crate::output::Stream;
use crate::output::Written;
use crate::output::NEW_ENTRY;
use crate::wire::be16;
use vstd::prelude::*;
use vstd::utf8::encode_utf8;

verus! {

/// The form in which a string reaches the stream through the pool.
pub enum Interned {
    /// Written out, behind the short that announces a new entry.
    Literal(Seq<char>),
    /// The index of an entry of the pool.
    Reference(int),
}

impl Interned {
    /// The form that a string takes with this pool.
    pub open spec fn of(pool: Seq<Seq<char>>, text: Seq<char>) -> Interned {
        if pool.contains(text) {
            Interned::Reference(pool.index_of(text))
        } else {
            Interned::Literal(text)
        }
    }

    /// The bytes of this form.
    pub open spec fn bytes(self) -> Seq<u8> {
        match self {
            Interned::Literal(text) => be16(NEW_ENTRY) + be16(encode_utf8(text).len() as u16)
                + encode_utf8(text),
            Interned::Reference(index) => be16(index as u16),
        }
    }
}

/// The pool after a string has passed through it.
pub open spec fn pool_with(pool: Seq<Seq<char>>, text: Seq<char>) -> Seq<Seq<char>> {
    if pool.contains(text) {
        pool
    } else {
        pool.push(text)
    }
}

/// The pool after strings have passed through it, one after the other.
pub open spec fn pool_with_all(pool: Seq<Seq<char>>, texts: Seq<Seq<char>>) -> Seq<Seq<char>>
    decreases texts.len(),
{
    if texts.len() == 0 {
        pool
    } else {
        pool_with_all(pool_with(pool, texts[0]), texts.drop_first())
    }
}

/// The forms that strings take as they pass through the pool, one after
/// the other.
pub open spec fn interned_forms(pool: Seq<Seq<char>>, texts: Seq<Seq<char>>) -> Seq<Interned>
    decreases texts.len(),
{
    if texts.len() == 0 {
        seq![]
    } else {
        seq![Interned::of(pool, texts[0])] + interned_forms(
            pool_with(pool, texts[0]),
            texts.drop_first(),
        )
    }
}

/// The bytes of a sequence of forms.
pub open spec fn forms_bytes(forms: Seq<Interned>) -> Seq<u8>
    decreases forms.len(),
{
    if forms.len() == 0 {
        seq![]
    } else {
        forms[0].bytes() + forms_bytes(forms.drop_first())
    }
}

/// How often `text` is among `texts`.
pub open spec fn occurrences(texts: Seq<Seq<char>>, text: Seq<char>) -> nat
    decreases texts.len(),
{
    if texts.len() == 0 {
        0
    } else {
        occurrences(texts.drop_first(), text) + if texts[0] == text {
            1nat
        } else {
            0nat
        }
    }
}

/// How often `text` is written out among `forms`.
pub open spec fn literals_of(forms: Seq<Interned>, text: Seq<char>) -> nat
    decreases forms.len(),
{
    if forms.len() == 0 {
        0
    } else {
        literals_of(forms.drop_first(), text) + if forms[0] == Interned::Literal(text) {
            1nat
        } else {
            0nat
        }
    }
}

/// How often the entry at `index` is referred to among `forms`.
pub open spec fn references_to(forms: Seq<Interned>, index: int) -> nat
    decreases forms.len(),
{
    if forms.len() == 0 {
        0
    } else {
        references_to(forms.drop_first(), index) + if forms[0] == Interned::Reference(index) {
            1nat
        } else {
            0nat
        }
    }
}

impl Written {
    /// Strings through the pool, one after the other.
    pub open spec fn interned_all(self, texts: Seq<Seq<char>>) -> Written
        decreases texts.len(),
    {
        if texts.len() == 0 {
            self
        } else {
            self.interned(texts[0]).interned_all(texts.drop_first())
        }
    }
}

proof fn lemma_failed_interned_all(written: Written, texts: Seq<Seq<char>>)
    requires
        written.result is Err,
    ensures
        written.interned_all(texts) == written,
    decreases texts.len(),
{
    if texts.len() > 0 {
        lemma_failed_interned_all(written, texts.drop_first());
    }
}

proof fn lemma_pool_with_keeps_entries(pool: Seq<Seq<char>>, text: Seq<char>)
    requires
        pool.no_duplicates(),
    ensures
        pool_with(pool, text).no_duplicates(),
        pool_with(pool, text).contains(text),
        pool.len() <= pool_with(pool, text).len(),
        forall|other: Seq<char>| #[trigger]
            pool.contains(other) ==> pool_with(pool, text).contains(other) && pool_with(
                pool,
                text,
            ).index_of(other) == pool.index_of(other),
        !pool.contains(text) ==> pool_with(pool, text).index_of(text) == pool.len(),
{
    let after = pool_with(pool, text);
    if !pool.contains(text) {
        assert(after[pool.len() as int] == text);
        assert forall|i: int, j: int|
            0 <= i < after.len() && 0 <= j < after.len() && i != j implies after[i] != after[j] by {
            if i == pool.len() {
                assert(pool[j] == after[j]);
                assert(pool.contains(pool[j]));
            } else if j == pool.len() {
                assert(pool[i] == after[i]);
                assert(pool.contains(pool[i]));
            } else {
                assert(pool[i] == after[i]);
                assert(pool[j] == after[j]);
            }
        }
    }
    assert forall|other: Seq<char>| #[trigger] pool.contains(other) implies after.contains(other)
        && after.index_of(other) == pool.index_of(other) by {
        let i = pool.index_of(other);
        assert(after[i] == other);
        let j = after.index_of(other);
        assert(after[j] == other);
    }
}

/// Strings that went through the pool were written in their forms, and
/// left the pool with every one of them in it.
pub proof fn lemma_interned_as_forms(stream: Stream, texts: Seq<Seq<char>>)
    requires
        stream.begin().interned_all(texts).result is Ok,
    ensures
        stream.begin().interned_all(texts).stream.bytes == stream.bytes + forms_bytes(
            interned_forms(stream.pool, texts),
        ),
        stream.begin().interned_all(texts).stream.pool == pool_with_all(stream.pool, texts),
    decreases texts.len(),
{
    if texts.len() == 0 {
        assert(stream.bytes + forms_bytes(interned_forms(stream.pool, texts)) =~= stream.bytes);
    } else {
        let next = stream.begin().interned(texts[0]);
        let rest = texts.drop_first();
        if next.result is Err {
            lemma_failed_interned_all(next, rest);
        }
        lemma_success(next.result);
        assert(next == next.stream.begin());
        lemma_interned_as_forms(next.stream, rest);
        let form = Interned::of(stream.pool, texts[0]);
        assert(next.stream.bytes =~= stream.bytes + form.bytes());
        assert(next.stream.pool == pool_with(stream.pool, texts[0]));
        let forms = interned_forms(stream.pool, texts);
        assert(forms[0] == form);
        assert(forms.drop_first() =~= interned_forms(next.stream.pool, rest));
        assert(stream.begin().interned_all(texts).stream.bytes =~= stream.bytes + forms_bytes(
            forms,
        ));
    }
}

/// A string that the pool holds is never written out again: every
/// occurrence is a reference to its entry.
proof fn lemma_held_string(pool: Seq<Seq<char>>, texts: Seq<Seq<char>>, text: Seq<char>)
    requires
        pool.no_duplicates(),
        pool.contains(text),
    ensures
        literals_of(interned_forms(pool, texts), text) == 0,
        references_to(interned_forms(pool, texts), pool.index_of(text)) == occurrences(texts, text),
        pool_with_all(pool, texts).contains(text),
        pool_with_all(pool, texts).index_of(text) == pool.index_of(text),
        pool_with_all(pool, texts).no_duplicates(),
    decreases texts.len(),
{
    if texts.len() > 0 {
        let first = texts[0];
        let rest = texts.drop_first();
        let after = pool_with(pool, first);
        lemma_pool_with_keeps_entries(pool, first);
        lemma_held_string(after, rest, text);
        let forms = interned_forms(pool, texts);
        assert(forms[0] == Interned::of(pool, first));
        assert(forms.drop_first() =~= interned_forms(after, rest));
        if first != text && pool.contains(first) {
            let i = pool.index_of(first);
            let j = pool.index_of(text);
            assert(pool[i] == first);
            assert(pool[j] == text);
        }
    }
}

/// A string that occurs k times among the strings that pass through the
/// pool, k at least 1, and that the pool did not hold before, is written
/// out once, and referred to by its index k - 1 times.
pub proof fn lemma_new_string(pool: Seq<Seq<char>>, texts: Seq<Seq<char>>, text: Seq<char>)
    requires
        pool.no_duplicates(),
        !pool.contains(text),
        occurrences(texts, text) >= 1,
    ensures
        pool_with_all(pool, texts).contains(text),
        literals_of(interned_forms(pool, texts), text) == 1,
        references_to(
            interned_forms(pool, texts),
            pool_with_all(pool, texts).index_of(text),
        ) == occurrences(texts, text) - 1,
    decreases texts.len(),
{
    let first = texts[0];
    let rest = texts.drop_first();
    let after = pool_with(pool, first);
    let forms = interned_forms(pool, texts);
    lemma_pool_with_keeps_entries(pool, first);
    assert(forms[0] == Interned::of(pool, first));
    assert(forms.drop_first() =~= interned_forms(after, rest));
    if first == text {
        lemma_held_string(after, rest, text);
    } else {
        lemma_new_string(after, rest, text);
        if pool.contains(first) {
            lemma_new_entries_follow(after, rest, text);
            let i = pool.index_of(first);
            assert(pool[i] == first);
        }
    }
}

/// Each string is written out once. Where strings go through the pool of a
/// stream one after the other, and all the writes go well, the bytes
/// written are those of the forms that the strings take; and a string that
/// occurs k times among them, k at least 1, and that the pool did not hold
/// before, takes the form of a literal once and that of a reference to its
/// entry k - 1 times.
pub proof fn lemma_interned_once(stream: Stream, texts: Seq<Seq<char>>, text: Seq<char>)
    requires
        stream.pool.no_duplicates(),
        !stream.pool.contains(text),
        occurrences(texts, text) >= 1,
        stream.begin().interned_all(texts).result is Ok,
    ensures
        ({
            let forms = interned_forms(stream.pool, texts);
            let after = stream.begin().interned_all(texts).stream;
            &&& after.bytes == stream.bytes + forms_bytes(forms)
            &&& after.pool.contains(text)
            &&& literals_of(forms, text) == 1
            &&& references_to(forms, after.pool.index_of(text)) == occurrences(texts, text) - 1
        }),
{
    lemma_interned_as_forms(stream, texts);
    lemma_new_string(stream.pool, texts, text);
}

/// An entry that joins the pool gets an index that no earlier entry has.
proof fn lemma_new_entries_follow(pool: Seq<Seq<char>>, texts: Seq<Seq<char>>, text: Seq<char>)
    requires
        pool.no_duplicates(),
        !pool.contains(text),
        occurrences(texts, text) >= 1,
    ensures
        pool_with_all(pool, texts).contains(text),
        pool_with_all(pool, texts).index_of(text) >= pool.len(),
    decreases texts.len(),
{
    let first = texts[0];
    let rest = texts.drop_first();
    let after = pool_with(pool, first);
    lemma_pool_with_keeps_entries(pool, first);
    if first == text {
        lemma_held_string(after, rest, text);
    } else {
        lemma_new_entries_follow(after, rest, text);
    }
}

} // verus!
