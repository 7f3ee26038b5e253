//! The stream as the rendering of its tokens: every token is its control
//! byte, the strings that it hands to the pool in the forms that they take
//! there, and the rest of its payload.

use crate::converter::conversion;
use crate::error::lemma_success;
use crate::event::lemma_failed_events;
use crate::event::Run;
use crate::event::XmlEvent;
use crate::interning::forms_bytes;
use crate::interning::interned_forms;
use crate::interning::lemma_interned_as_forms;
use crate::interning::lemma_new_string;
use crate::interning::literals_of;
use crate::interning::occurrences;
use crate::interning::pool_with;
use crate::interning::pool_with_all;
use crate::interning::references_to;
use crate::interning::Interned;
use crate::output::FastDataOutput;
use crate::output::Stream;
use crate::output::Written;
use crate::token::AttributeValue;
use crate::token::Document;
use crate::token::Token;
use crate::trace::document_tokens;
use crate::trace::lemma_tags_match_elements;
use crate::wire::be16;
use crate::wire::be32;
use crate::wire::be64;
use vstd::prelude::*;
use vstd::utf8::encode_utf8;

verus! {

/// A string as it is written out: the count of its UTF-8 bytes, and the
/// bytes.
pub open spec fn string_bytes(text: Seq<char>) -> Seq<u8> {
    be16(encode_utf8(text).len() as u16) + encode_utf8(text)
}

impl AttributeValue {
    /// The bytes of a value that does not go through the pool.
    pub open spec fn plain_bytes(self) -> Seq<u8> {
        match self {
            AttributeValue::String(text) => string_bytes(text),
            AttributeValue::Interned(_) => seq![],
            AttributeValue::BytesHex(data) => be16(data.len() as u16) + data,
            AttributeValue::BytesBase64(data) => be16(data.len() as u16) + data,
            AttributeValue::Int(value) => be32(value as u32),
            AttributeValue::IntHex(value) => be32(value as u32),
            AttributeValue::Long(value) => be64(value as u64),
            AttributeValue::LongHex(value) => be64(value as u64),
            AttributeValue::Float(bits) => be32(bits),
            AttributeValue::Double(bits) => be64(bits),
            AttributeValue::Boolean(_) => seq![],
        }
    }
}

impl Token {
    /// The strings that this token hands to the pool, in the order in which
    /// it does: the name of a tag; the name of an attribute, and its value
    /// where the value is interned.
    pub open spec fn pooled(self) -> Seq<Seq<char>> {
        match self {
            Token::StartTag(name) => seq![name],
            Token::EndTag(name) => seq![name],
            Token::Attribute(name, AttributeValue::Interned(value)) => seq![name, value],
            Token::Attribute(name, _) => seq![name],
            _ => seq![],
        }
    }

    /// The bytes of this token, where the strings that it hands to the pool
    /// take the forms `forms`.
    pub open spec fn rendered(self, forms: Seq<Interned>) -> Seq<u8>
        recommends
            forms.len() == self.pooled().len(),
    {
        seq![self.control_byte()] + forms_bytes(forms) + match self {
            Token::Attribute(_, value) => value.plain_bytes(),
            _ => match self.text() {
                Some(text) => string_bytes(text),
                None => seq![],
            },
        }
    }
}

/// The strings that tokens hand to the pool, in the order in which they do.
pub open spec fn pooled_texts(tokens: Seq<Token>) -> Seq<Seq<char>>
    decreases tokens.len(),
{
    if tokens.len() == 0 {
        seq![]
    } else {
        pooled_texts(tokens.drop_last()) + tokens.last().pooled()
    }
}

/// The bytes of tokens, where the strings that they hand to the pool take
/// the forms `forms`, one after the other.
pub open spec fn rendered_tokens(tokens: Seq<Token>, forms: Seq<Interned>) -> Seq<u8>
    recommends
        forms.len() == pooled_texts(tokens).len(),
    decreases tokens.len(),
{
    if tokens.len() == 0 {
        seq![]
    } else {
        let before = forms.len() - tokens.last().pooled().len();
        rendered_tokens(tokens.drop_last(), forms.take(before)) + tokens.last().rendered(
            forms.skip(before),
        )
    }
}

proof fn lemma_forms_in_sequence(
    pool: Seq<Seq<char>>,
    first: Seq<Seq<char>>,
    second: Seq<Seq<char>>,
)
    ensures
        interned_forms(pool, first + second) == interned_forms(pool, first) + interned_forms(
            pool_with_all(pool, first),
            second,
        ),
        pool_with_all(pool, first + second) == pool_with_all(pool_with_all(pool, first), second),
        interned_forms(pool, first).len() == first.len(),
    decreases first.len(),
{
    if first.len() == 0 {
        assert(first + second =~= second);
        assert(interned_forms(pool, first) + interned_forms(pool, second) =~= interned_forms(
            pool,
            second,
        ));
    } else {
        let after = pool_with(pool, first[0]);
        assert((first + second)[0] == first[0]);
        assert((first + second).drop_first() =~= first.drop_first() + second);
        lemma_forms_in_sequence(after, first.drop_first(), second);
        assert(interned_forms(pool, first + second) =~= interned_forms(pool, first)
            + interned_forms(pool_with_all(pool, first), second));
    }
}

/// A value that does not go through the pool is written as its bytes.
proof fn lemma_plain_value(written: Written, value: AttributeValue)
    requires
        !(value is Interned),
        value.blob_len() <= FastDataOutput::MAX_UNSIGNED_SHORT,
        value.payload(written).result is Ok,
    ensures
        written.result is Ok,
        value.payload(written).stream.bytes == written.stream.bytes + value.plain_bytes(),
        value.payload(written).stream.pool == written.stream.pool,
{
    match value {
        AttributeValue::String(text) => {
            assert(value.payload(written).stream.bytes =~= written.stream.bytes + string_bytes(
                text,
            ));
        },
        AttributeValue::BytesHex(data) => {
            assert(value.payload(written).stream.bytes =~= written.stream.bytes + (be16(
                data.len() as u16,
            ) + data));
        },
        AttributeValue::BytesBase64(data) => {
            assert(value.payload(written).stream.bytes =~= written.stream.bytes + (be16(
                data.len() as u16,
            ) + data));
        },
        AttributeValue::Boolean(_) => {
            assert(written.stream.bytes + Seq::<u8>::empty() =~= written.stream.bytes);
        },
        _ => {},
    }
}

/// A tag that was written was written as its rendering.
#[verifier::rlimit(40)]
proof fn lemma_tag_is_rendered(document: Document, token: Token, name: Seq<char>)
    requires
        token == Token::StartTag(name) || token == Token::EndTag(name),
        document.written(token).result is Ok,
    ensures
        document.written(token).stream.bytes == document.stream.bytes + token.rendered(
            interned_forms(document.stream.pool, token.pooled()),
        ),
        document.written(token).stream.pool == pool_with_all(document.stream.pool, token.pooled()),
{
    let forms = interned_forms(document.stream.pool, token.pooled());
    let control = document.stream.begin().byte(token.control_byte());
    assert(control == control.stream.begin());
    assert(token.pooled() =~= seq![name]);
    lemma_one_interned(control.stream, name);
    assert(document.written(token) == control.interned(name));
    assert(token.rendered(forms) =~= seq![token.control_byte()] + forms_bytes(forms));
    assert(document.written(token).stream.bytes =~= document.stream.bytes + token.rendered(forms));
}

/// An attribute that was written was written as its rendering.
#[verifier::rlimit(40)]
proof fn lemma_attribute_is_rendered(
    document: Document,
    token: Token,
    name: Seq<char>,
    value: AttributeValue,
)
    requires
        token == Token::Attribute(name, value),
        document.written(token).result is Ok,
    ensures
        document.written(token).stream.bytes == document.stream.bytes + token.rendered(
            interned_forms(document.stream.pool, token.pooled()),
        ),
        document.written(token).stream.pool == pool_with_all(document.stream.pool, token.pooled()),
{
    let pool = document.stream.pool;
    let forms = interned_forms(pool, token.pooled());
    let control = document.stream.begin().byte(token.control_byte());
    assert(control == control.stream.begin());
    let named = control.interned(name);
    assert(document.written(token) == value.payload(named));
    let head = interned_forms(pool, seq![name]);
    match value {
        AttributeValue::Interned(text) => {
            assert(named.result is Ok);
            lemma_success(named.result);
            assert(named == named.stream.begin());
            lemma_one_interned(control.stream, name);
            lemma_one_interned(named.stream, text);
            lemma_forms_in_sequence(pool, seq![name], seq![text]);
            assert(seq![name] + seq![text] =~= token.pooled());
            let tail = interned_forms(named.stream.pool, seq![text]);
            lemma_forms_bytes_in_sequence(head, tail);
            assert(token.rendered(forms) =~= seq![token.control_byte()] + forms_bytes(head)
                + forms_bytes(tail));
            assert(document.written(token).stream.bytes =~= document.stream.bytes + token.rendered(
                forms,
            ));
        },
        _ => {
            lemma_plain_value(named, value);
            lemma_one_interned(control.stream, name);
            assert(token.pooled() =~= seq![name]);
            assert(token.rendered(forms) =~= seq![token.control_byte()] + forms_bytes(head)
                + value.plain_bytes());
            assert(document.written(token).stream.bytes =~= document.stream.bytes + token.rendered(
                forms,
            ));
        },
    }
}

/// A token that was written was written as its rendering, and left the
/// pool with the strings that it handed to it.
pub proof fn lemma_token_is_rendered(document: Document, token: Token)
    requires
        document.written(token).result is Ok,
    ensures
        document.written(token).stream.bytes == document.stream.bytes + token.rendered(
            interned_forms(document.stream.pool, token.pooled()),
        ),
        document.written(token).stream.pool == pool_with_all(document.stream.pool, token.pooled()),
{
    match token {
        Token::StartTag(name) => {
            lemma_tag_is_rendered(document, token, name);
        },
        Token::EndTag(name) => {
            lemma_tag_is_rendered(document, token, name);
        },
        Token::Attribute(name, value) => {
            lemma_attribute_is_rendered(document, token, name, value);
        },
        _ => {
            let forms = interned_forms(document.stream.pool, token.pooled());
            assert(token.pooled() =~= Seq::<Seq<char>>::empty());
            assert(forms =~= Seq::<Interned>::empty());
            assert(forms_bytes(forms) =~= Seq::<u8>::empty());
            assert(document.written(token).stream.bytes =~= document.stream.bytes + token.rendered(
                forms,
            ));
        },
    }
}

proof fn lemma_forms_bytes_in_sequence(first: Seq<Interned>, second: Seq<Interned>)
    ensures
        forms_bytes(first + second) == forms_bytes(first) + forms_bytes(second),
    decreases first.len(),
{
    if first.len() == 0 {
        assert(first + second =~= second);
        assert(forms_bytes(first) + forms_bytes(second) =~= forms_bytes(second));
    } else {
        assert((first + second)[0] == first[0]);
        assert((first + second).drop_first() =~= first.drop_first() + second);
        lemma_forms_bytes_in_sequence(first.drop_first(), second);
        assert(forms_bytes(first + second) =~= forms_bytes(first) + forms_bytes(second));
    }
}

/// One string through the pool is written in its form.
proof fn lemma_one_interned(stream: Stream, text: Seq<char>)
    requires
        stream.begin().interned(text).result is Ok,
    ensures
        stream.begin().interned(text).stream.bytes == stream.bytes + forms_bytes(
            interned_forms(stream.pool, seq![text]),
        ),
        stream.begin().interned(text).stream.pool == pool_with_all(stream.pool, seq![text]),
{
    let texts = seq![text];
    assert(texts.drop_first() =~= Seq::<Seq<char>>::empty());
    assert(stream.begin().interned_all(texts) == stream.begin().interned(text)) by {
        assert(stream.begin().interned(text).interned_all(texts.drop_first()) == stream.begin().interned(
            text,
        ));
    }
    lemma_interned_as_forms(stream, texts);
}

/// Tokens that were written were written as their renderings, each string
/// that they handed to the pool in the form that it takes there.
#[verifier::rlimit(40)]
pub proof fn lemma_tokens_are_rendered(run: Run, tokens: Seq<Token>)
    requires
        run.tokens(tokens).result is Ok,
    ensures
        run.result is Ok,
        run.tokens(tokens).document.stream.bytes == run.document.stream.bytes + rendered_tokens(
            tokens,
            interned_forms(run.document.stream.pool, pooled_texts(tokens)),
        ),
        run.tokens(tokens).document.stream.pool == pool_with_all(
            run.document.stream.pool,
            pooled_texts(tokens),
        ),
    decreases tokens.len(),
{
    let pool = run.document.stream.pool;
    if tokens.len() == 0 {
        assert(run.document.stream.bytes + Seq::<u8>::empty() =~= run.document.stream.bytes);
    } else {
        let before = tokens.drop_last();
        let last = tokens.last();
        let written = run.tokens(before);
        reveal(Document::emit);
        lemma_tokens_are_rendered(run, before);
        lemma_token_is_rendered(written.document, last);
        lemma_forms_in_sequence(pool, pooled_texts(before), last.pooled());
        let head = interned_forms(pool, pooled_texts(before));
        let tail = interned_forms(written.document.stream.pool, last.pooled());
        let forms = interned_forms(pool, pooled_texts(tokens));
        lemma_forms_in_sequence(written.document.stream.pool, last.pooled(), seq![]);
        assert(forms =~= head + tail);
        assert(forms.take(forms.len() - last.pooled().len()) =~= head);
        assert(forms.skip(forms.len() - last.pooled().len()) =~= tail);
        assert(run.tokens(tokens).document.stream.bytes =~= run.document.stream.bytes
            + rendered_tokens(tokens, forms));
    }
}

/// Each name is written out once. Where a conversion went well, its output
/// is its tokens, every string that they handed to the pool in the form
/// that it took there; and a string that occurs k times among those strings,
/// k at least 1, and that the pool did not hold before, took the form of a
/// literal, the short 65535 and the string, once, and that of a reference to
/// its entry k - 1 times.
pub proof fn lemma_names_interned_once(
    start: Run,
    events: Seq<XmlEvent>,
    keep_whitespace: bool,
    text: Seq<char>,
)
    requires
        start.document.stream.pool.no_duplicates(),
        !start.document.stream.pool.contains(text),
        start.events(events, keep_whitespace).result is Ok,
        occurrences(pooled_texts(document_tokens(events, keep_whitespace)), text) >= 1,
    ensures
        ({
            let tokens = document_tokens(events, keep_whitespace);
            let texts = pooled_texts(tokens);
            let forms = interned_forms(start.document.stream.pool, texts);
            let end = start.events(events, keep_whitespace).document.stream;
            &&& end.bytes == start.document.stream.bytes + rendered_tokens(tokens, forms)
            &&& end.pool.contains(text)
            &&& literals_of(forms, text) == 1
            &&& references_to(forms, end.pool.index_of(text)) == occurrences(texts, text) - 1
        }),
{
    let tokens = document_tokens(events, keep_whitespace);
    lemma_tags_match_elements(start, events, keep_whitespace);
    lemma_tokens_are_rendered(start, tokens);
    lemma_new_string(start.document.stream.pool, pooled_texts(tokens), text);
}

/// The stream of a conversion that went well is the rendering of its
/// tokens: the token that starts the document, the tokens of its events,
/// and the token that ends the document, every string that they hand to the
/// pool in the form that it takes there.
pub proof fn lemma_conversion_is_rendered(start: Run, events: Seq<XmlEvent>, keep_whitespace: bool)
    requires
        conversion(start, events, Ok(()), keep_whitespace).result is Ok,
    ensures
        ({
            let tokens = seq![Token::StartDocument] + document_tokens(events, keep_whitespace)
                + seq![Token::EndDocument];
            let forms = interned_forms(start.document.stream.pool, pooled_texts(tokens));
            conversion(start, events, Ok(()), keep_whitespace).document.stream.bytes
                == start.document.stream.bytes + rendered_tokens(tokens, forms)
        }),
{
    let opened = start.token(Token::StartDocument);
    let read = opened.events(events, keep_whitespace);
    let body = document_tokens(events, keep_whitespace);
    let tokens = seq![Token::StartDocument] + body + seq![Token::EndDocument];
    if opened.result is Err {
        lemma_failed_events(opened, events, keep_whitespace);
    }
    lemma_tags_match_elements(opened, events, keep_whitespace);
    let written = opened.tokens(body).token(Token::EndDocument);
    assert(read.token(Token::EndDocument).same_output(written)) by {
        reveal(Document::emit);
    }
    lemma_tokens_joined(start, Token::StartDocument, body, Token::EndDocument);
    lemma_tokens_are_rendered(start, tokens);
}

/// Tokens between a first and a last are written as the first, those
/// between, and the last.
proof fn lemma_tokens_joined(run: Run, first: Token, between: Seq<Token>, last: Token)
    ensures
        run.tokens(seq![first] + between + seq![last]) == run.token(first).tokens(between).token(
            last,
        ),
    decreases between.len(),
{
    let tokens = seq![first] + between + seq![last];
    assert(tokens.drop_last() =~= seq![first] + between);
    assert(tokens.last() == last);
    lemma_tokens_prefixed(run, first, between);
}

proof fn lemma_tokens_prefixed(run: Run, first: Token, rest: Seq<Token>)
    ensures
        run.tokens(seq![first] + rest) == run.token(first).tokens(rest),
    decreases rest.len(),
{
    let tokens = seq![first] + rest;
    if rest.len() == 0 {
        assert(tokens.drop_last() =~= Seq::<Token>::empty());
        assert(run.tokens(Seq::<Token>::empty()) == run);
    } else {
        assert(tokens.drop_last() =~= seq![first] + rest.drop_last());
        assert(tokens.last() == rest.last());
        lemma_tokens_prefixed(run, first, rest.drop_last());
    }
}

} // verus!
