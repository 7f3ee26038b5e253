//! The tokens of a document: which tokens its events call for, and that a
//! conversion that goes well writes exactly those.

use crate::event::declared_encoding_warning;
use crate::event::declares_other_encoding;
use crate::event::has_prefix;
use crate::event::instruction_encoding_warning;
use crate::event::is_namespace_attribute;
use crate::event::mentions_utf8;
use crate::event::namespace_attribute_warning;
use crate::event::WarningView;
use crate::event::lemma_failed_attributes;
use crate::event::prefixed_element_warning;
use crate::event::Run;
use crate::event::XmlAttribute;
use crate::event::XmlEvent;
use crate::serializer::BinaryXmlSerializer;
use crate::text::text_of;
use crate::token::instruction_text;
use crate::token::Document;
use crate::token::Token;
use crate::type_detection::inferred;
use crate::type_detection::whitespace_only;
use quick_xml::events::attributes::AttrError;
use vstd::prelude::*;

verus! {

/// Whether every attribute of a tag can be read: none is malformed, and
/// every key and value is UTF-8.
pub open spec fn attributes_readable(items: Seq<Result<XmlAttribute, AttrError>>) -> bool {
    forall|i: int|
        0 <= i < items.len() ==> ((#[trigger] items[i]) matches Ok(attribute) && text_of(
            attribute.key@,
        ) is Ok && text_of(attribute.value@) is Ok)
}

/// The tokens that the attributes of a tag call for: one each.
pub open spec fn attribute_tokens(items: Seq<Result<XmlAttribute, AttrError>>) -> Seq<Token>
    recommends
        attributes_readable(items),
{
    Seq::new(
        items.len(),
        |i: int|
            Token::Attribute(
                text_of(items[i]->Ok_0.key@)->Ok_0,
                inferred(text_of(items[i]->Ok_0.value@)->Ok_0, items[i]->Ok_0.double),
            ),
    )
}

/// Whether an event can be read: its names and text are UTF-8, and none of
/// its attributes is malformed.
pub open spec fn readable(event: XmlEvent) -> bool {
    match event {
        XmlEvent::Start { name, attributes } => text_of(name@) is Ok && attributes_readable(
            attributes@,
        ),
        XmlEvent::End { name } => text_of(name@) is Ok,
        XmlEvent::Empty { name, attributes } => text_of(name@) is Ok && attributes_readable(
            attributes@,
        ),
        XmlEvent::Text { content } => text_of(content@) is Ok,
        XmlEvent::CData { content } => text_of(content@) is Ok,
        XmlEvent::Comment { content } => text_of(content@) is Ok,
        XmlEvent::Declaration { encoding } => match encoding {
            Some(Ok(name)) => text_of(name@) is Ok,
            Some(Err(_)) => false,
            None => true,
        },
        XmlEvent::ProcessingInstruction { target, content } => text_of(target@) is Ok && (
        content@.len() == 0 || text_of(content@) is Ok),
        XmlEvent::DocType { content } => text_of(content@) is Ok,
        XmlEvent::EntityRef { name } => text_of(name@) is Ok,
        XmlEvent::Eof => true,
    }
}

/// The tokens that an event calls for, in the order in which they are
/// written. It is what is written of an event that can be read.
pub open spec fn event_tokens(event: XmlEvent, keep_whitespace: bool) -> Seq<Token>
    recommends
        readable(event),
{
    match event {
        XmlEvent::Start { name, attributes } => seq![Token::StartTag(text_of(name@)->Ok_0)]
            + attribute_tokens(attributes@),
        XmlEvent::End { name } => seq![Token::EndTag(text_of(name@)->Ok_0)],
        XmlEvent::Empty { name, attributes } => seq![Token::StartTag(text_of(name@)->Ok_0)]
            + attribute_tokens(attributes@) + seq![Token::EndTag(text_of(name@)->Ok_0)],
        XmlEvent::Text { content } => {
            let text = text_of(content@)->Ok_0;
            if !whitespace_only(text) {
                seq![Token::Text(text)]
            } else if keep_whitespace {
                seq![Token::IgnorableWhitespace(text)]
            } else {
                seq![]
            }
        },
        XmlEvent::CData { content } => seq![Token::CData(text_of(content@)->Ok_0)],
        XmlEvent::Comment { content } => seq![Token::Comment(text_of(content@)->Ok_0)],
        XmlEvent::Declaration { encoding } => seq![],
        XmlEvent::ProcessingInstruction { target, content } => seq![
            Token::ProcessingInstruction(
                instruction_text(
                    text_of(target@)->Ok_0,
                    if content@.len() == 0 {
                        None
                    } else {
                        Some(text_of(content@)->Ok_0)
                    },
                ),
            ),
        ],
        XmlEvent::DocType { content } => seq![Token::DocDecl(text_of(content@)->Ok_0)],
        XmlEvent::EntityRef { name } => seq![Token::EntityRef(text_of(name@)->Ok_0)],
        XmlEvent::Eof => seq![],
    }
}

/// The tokens that a sequence of events calls for.
pub open spec fn document_tokens(events: Seq<XmlEvent>, keep_whitespace: bool) -> Seq<Token>
    decreases events.len(),
{
    if events.len() == 0 {
        seq![]
    } else {
        document_tokens(events.drop_last(), keep_whitespace) + event_tokens(
            events.last(),
            keep_whitespace,
        )
    }
}

/// How many of `tokens` are start tags.
pub open spec fn start_tags(tokens: Seq<Token>) -> nat
    decreases tokens.len(),
{
    if tokens.len() == 0 {
        0
    } else {
        start_tags(tokens.drop_last()) + if tokens.last() is StartTag {
            1nat
        } else {
            0nat
        }
    }
}

/// How many of `tokens` are end tags.
pub open spec fn end_tags(tokens: Seq<Token>) -> nat
    decreases tokens.len(),
{
    if tokens.len() == 0 {
        0
    } else {
        end_tags(tokens.drop_last()) + if tokens.last() is EndTag {
            1nat
        } else {
            0nat
        }
    }
}

/// How many of `events` open an element.
pub open spec fn opened_elements(events: Seq<XmlEvent>) -> nat
    decreases events.len(),
{
    if events.len() == 0 {
        0
    } else {
        opened_elements(events.drop_last()) + if events.last() is Start || events.last() is Empty {
            1nat
        } else {
            0nat
        }
    }
}

/// How many of `events` close an element.
pub open spec fn closed_elements(events: Seq<XmlEvent>) -> nat
    decreases events.len(),
{
    if events.len() == 0 {
        0
    } else {
        closed_elements(events.drop_last()) + if events.last() is End || events.last() is Empty {
            1nat
        } else {
            0nat
        }
    }
}

impl Run {
    /// What a sequence of tokens does to the conversion, one after the
    /// other.
    pub open spec fn tokens(self, tokens: Seq<Token>) -> Run
        decreases tokens.len(),
    {
        if tokens.len() == 0 {
            self
        } else {
            self.tokens(tokens.drop_last()).token(tokens.last())
        }
    }

    /// Whether two conversions have written the same and ended alike. The
    /// warnings are left aside.
    pub open spec fn same_output(self, other: Run) -> bool {
        self.document == other.document && self.result == other.result
    }
}

proof fn lemma_tokens_in_sequence(run: Run, first: Seq<Token>, second: Seq<Token>)
    ensures
        run.tokens(first + second) == run.tokens(first).tokens(second),
    decreases second.len(),
{
    if second.len() == 0 {
        assert(first + second =~= first);
    } else {
        assert((first + second).drop_last() =~= first + second.drop_last());
        assert((first + second).last() == second.last());
        lemma_tokens_in_sequence(run, first, second.drop_last());
    }
}

proof fn lemma_one_token(run: Run, token: Token)
    ensures
        run.tokens(seq![token]) == run.token(token),
{
    assert(seq![token].drop_last() =~= Seq::<Token>::empty());
    assert(run.tokens(Seq::<Token>::empty()) == run);
}

proof fn lemma_tags_in_sequence(first: Seq<Token>, second: Seq<Token>)
    ensures
        start_tags(first + second) == start_tags(first) + start_tags(second),
        end_tags(first + second) == end_tags(first) + end_tags(second),
    decreases second.len(),
{
    if second.len() == 0 {
        assert(first + second =~= first);
    } else {
        assert((first + second).drop_last() =~= first + second.drop_last());
        assert((first + second).last() == second.last());
        lemma_tags_in_sequence(first, second.drop_last());
    }
}

proof fn lemma_one_tag(token: Token)
    ensures
        start_tags(seq![token]) == if token is StartTag {
            1nat
        } else {
            0nat
        },
        end_tags(seq![token]) == if token is EndTag {
            1nat
        } else {
            0nat
        },
{
    assert(seq![token].drop_last() =~= Seq::<Token>::empty());
    assert(start_tags(Seq::<Token>::empty()) == 0);
    assert(end_tags(Seq::<Token>::empty()) == 0);
}

/// The same tokens have the same output, whatever the warnings.
proof fn lemma_tokens_output(one: Run, other: Run, tokens: Seq<Token>)
    requires
        one.same_output(other),
    ensures
        one.tokens(tokens).same_output(other.tokens(tokens)),
    decreases tokens.len(),
{
    if tokens.len() > 0 {
        lemma_tokens_output(one, other, tokens.drop_last());
    }
}

/// Attributes that were all written are readable, were written as their
/// tokens, and are no tags.
#[verifier::rlimit(40)]
proof fn lemma_attributes_are_their_tokens(
    run: Run,
    items: Seq<Result<XmlAttribute, AttrError>>,
)
    requires
        run.attributes(items).result is Ok,
    ensures
        run.result is Ok,
        attributes_readable(items),
        run.attributes(items).same_output(run.tokens(attribute_tokens(items))),
        start_tags(attribute_tokens(items)) == 0,
        end_tags(attribute_tokens(items)) == 0,
    decreases items.len(),
{
    if items.len() == 0 {
        assert(attribute_tokens(items) =~= Seq::<Token>::empty());
    } else {
        let next = run.attribute(items[0]);
        let rest = items.drop_first();
        if next.result is Err {
            lemma_failed_attributes(next, rest);
        }
        lemma_attributes_are_their_tokens(next, rest);
        assert(attributes_readable(items)) by {
            assert forall|i: int| 0 <= i < items.len() implies ((#[trigger] items[i]) matches Ok(
                attribute,
            ) && text_of(attribute.key@) is Ok && text_of(attribute.value@) is Ok) by {
                if i > 0 {
                    assert(items[i] == rest[i - 1]);
                }
            }
        }
        let attribute = items[0]->Ok_0;
        let token = Token::Attribute(
            text_of(attribute.key@)->Ok_0,
            inferred(text_of(attribute.value@)->Ok_0, attribute.double),
        );
        assert(attribute_tokens(items) =~= seq![token] + attribute_tokens(rest));
        assert(next.same_output(run.token(token)));
        lemma_one_token(run, token);
        lemma_tokens_in_sequence(run, seq![token], attribute_tokens(rest));
        lemma_tokens_output(next, run.token(token), attribute_tokens(rest));
        lemma_one_tag(token);
        lemma_tags_in_sequence(seq![token], attribute_tokens(rest));
    }
}

/// An event that was written is readable, was written as its tokens, and
/// among them are one start tag if it opens an element and one end tag if it
/// closes one.
#[verifier::rlimit(40)]
proof fn lemma_event_is_its_tokens(run: Run, event: XmlEvent, keep_whitespace: bool)
    requires
        run.event(event, keep_whitespace).result is Ok,
    ensures
        run.result is Ok,
        readable(event),
        run.event(event, keep_whitespace).same_output(
            run.tokens(event_tokens(event, keep_whitespace)),
        ),
        start_tags(event_tokens(event, keep_whitespace)) == if event is Start || event is Empty {
            1nat
        } else {
            0nat
        },
        end_tags(event_tokens(event, keep_whitespace)) == if event is End || event is Empty {
            1nat
        } else {
            0nat
        },
{
    let tokens = event_tokens(event, keep_whitespace);
    match event {
        XmlEvent::Start { name, attributes } => {
            lemma_element_is_its_tokens(run, name@, attributes@, false);
        },
        XmlEvent::Empty { name, attributes } => {
            lemma_element_is_its_tokens(run, name@, attributes@, true);
        },
        XmlEvent::Declaration { encoding } => {
            assert(tokens =~= Seq::<Token>::empty());
            assert(run.tokens(tokens) == run);
            assert(start_tags(tokens) == 0);
            assert(end_tags(tokens) == 0);
        },
        XmlEvent::Eof => {
            assert(tokens =~= Seq::<Token>::empty());
            assert(run.tokens(tokens) == run);
            assert(start_tags(tokens) == 0);
            assert(end_tags(tokens) == 0);
        },
        XmlEvent::Text { content } => {
            let text = text_of(content@)->Ok_0;
            if whitespace_only(text) && !keep_whitespace {
                assert(tokens =~= Seq::<Token>::empty());
                assert(run.tokens(tokens) == run);
                assert(start_tags(tokens) == 0);
                assert(end_tags(tokens) == 0);
            } else {
                lemma_one_token(run, tokens[0]);
                lemma_one_tag(tokens[0]);
                assert(tokens =~= seq![tokens[0]]);
            }
        },
        _ => {
            lemma_one_token(run, tokens[0]);
            lemma_one_tag(tokens[0]);
            assert(tokens =~= seq![tokens[0]]);
        },
    }
}

#[verifier::rlimit(40)]
proof fn lemma_element_is_its_tokens(
    run: Run,
    name: Seq<u8>,
    items: Seq<Result<XmlAttribute, AttrError>>,
    closed: bool,
)
    requires
        run.element(name, items, closed).result is Ok,
    ensures
        run.result is Ok,
        text_of(name) is Ok,
        attributes_readable(items),
        ({
            let text = text_of(name)->Ok_0;
            let tokens = seq![Token::StartTag(text)] + attribute_tokens(items) + if closed {
                seq![Token::EndTag(text)]
            } else {
                seq![]
            };
            &&& run.element(name, items, closed).same_output(run.tokens(tokens))
            &&& start_tags(tokens) == 1
            &&& end_tags(tokens) == if closed {
                1nat
            } else {
                0nat
            }
        }),
{
    let text = text_of(name)->Ok_0;
    let warned = run.warn_if(has_prefix(text), prefixed_element_warning(text));
    let tagged = warned.token(Token::StartTag(text));
    let open = tagged.attributes(items);
    if tagged.result is Err {
        lemma_failed_attributes(tagged, items);
    }
    lemma_attributes_are_their_tokens(tagged, items);
    let head = seq![Token::StartTag(text)];
    let middle = attribute_tokens(items);
    lemma_one_token(run, Token::StartTag(text));
    assert(tagged.same_output(run.tokens(head)));
    lemma_tokens_output(tagged, run.tokens(head), middle);
    lemma_tokens_in_sequence(run, head, middle);
    lemma_one_tag(Token::StartTag(text));
    lemma_tags_in_sequence(head, middle);
    if closed {
        let tail = seq![Token::EndTag(text)];
        lemma_one_token(run.tokens(head + middle), Token::EndTag(text));
        lemma_tokens_in_sequence(run, head + middle, tail);
        lemma_one_tag(Token::EndTag(text));
        lemma_tags_in_sequence(head + middle, tail);
    } else {
        assert(head + middle + Seq::<Token>::empty() =~= head + middle);
    }
}

/// A conversion that went well wrote its events as their tokens, one start
/// tag for every event that opens an element and one end tag for every
/// event that closes one. In a well-formed document the tags that open an
/// element and the tags that close one are equal in number, so a document
/// of N elements is written with N start tags and N end tags.
pub proof fn lemma_tags_match_elements(start: Run, events: Seq<XmlEvent>, keep_whitespace: bool)
    requires
        start.events(events, keep_whitespace).result is Ok,
    ensures
        start.result is Ok,
        forall|i: int| 0 <= i < events.len() ==> readable(#[trigger] events[i]),
        start.events(events, keep_whitespace).same_output(
            start.tokens(document_tokens(events, keep_whitespace)),
        ),
        start_tags(document_tokens(events, keep_whitespace)) == opened_elements(events),
        end_tags(document_tokens(events, keep_whitespace)) == closed_elements(events),
    decreases events.len(),
{
    if events.len() > 0 {
        let before = events.drop_last();
        let read = start.events(before, keep_whitespace);
        lemma_event_is_its_tokens(read, events.last(), keep_whitespace);
        lemma_tags_match_elements(start, before, keep_whitespace);
        let head = document_tokens(before, keep_whitespace);
        let tail = event_tokens(events.last(), keep_whitespace);
        lemma_tokens_output(read, start.tokens(head), tail);
        lemma_tokens_in_sequence(start, head, tail);
        lemma_tags_in_sequence(head, tail);
        assert forall|i: int| 0 <= i < events.len() implies readable(#[trigger] events[i]) by {
            if i < before.len() {
                assert(events[i] == before[i]);
            }
        }
    }
}

/// How many tags are open after an event: one more after a tag that opens
/// an element, one less after a tag that closes one, and none where none
/// was open.
pub open spec fn depth_after(depth: nat, event: XmlEvent) -> nat {
    match event {
        XmlEvent::Start { .. } => depth + 1,
        XmlEvent::End { .. } => if depth > 0 {
            (depth - 1) as nat
        } else {
            0
        },
        _ => depth,
    }
}

/// How many tags are open after a sequence of events.
pub open spec fn depth_after_all(depth: nat, events: Seq<XmlEvent>) -> nat
    decreases events.len(),
{
    if events.len() == 0 {
        depth
    } else {
        depth_after(depth_after_all(depth, events.drop_last()), events.last())
    }
}

/// Tokens that are no tags leave the record of open tags as it is.
proof fn lemma_untagged_tokens(run: Run, tokens: Seq<Token>)
    requires
        start_tags(tokens) == 0,
        end_tags(tokens) == 0,
    ensures
        run.tokens(tokens).document.open_tags == run.document.open_tags,
    decreases tokens.len(),
{
    reveal(Document::emit);
    if tokens.len() > 0 {
        lemma_untagged_tokens(run, tokens.drop_last());
    }
}

/// The record of open tags after the tokens of one event.
proof fn lemma_depth_after_event(run: Run, event: XmlEvent, keep_whitespace: bool)
    requires
        run.event(event, keep_whitespace).result is Ok,
    ensures
        run.event(event, keep_whitespace).document.open_tags.len() == depth_after(
            run.document.open_tags.len(),
            event,
        ),
{
    reveal(Document::emit);
    lemma_event_is_its_tokens(run, event, keep_whitespace);
    let tokens = event_tokens(event, keep_whitespace);
    match event {
        XmlEvent::Start { name, attributes } => {
            let tag = Token::StartTag(text_of(name@)->Ok_0);
            let rest = attribute_tokens(attributes@);
            lemma_element_is_its_tokens(run, name@, attributes@, false);
            assert(tokens =~= seq![tag] + rest);
            lemma_one_token(run, tag);
            lemma_one_tag(tag);
            lemma_tags_in_sequence(seq![tag], rest);
            lemma_tokens_in_sequence(run, seq![tag], rest);
            lemma_untagged_tokens(run.token(tag), rest);
        },
        XmlEvent::Empty { name, attributes } => {
            let tag = Token::StartTag(text_of(name@)->Ok_0);
            let end = Token::EndTag(text_of(name@)->Ok_0);
            let rest = attribute_tokens(attributes@);
            lemma_element_is_its_tokens(run, name@, attributes@, true);
            lemma_attributes_no_tags(attributes@);
            assert(tokens =~= seq![tag] + rest + seq![end]);
            lemma_one_token(run, tag);
            lemma_tokens_in_sequence(run, seq![tag], rest);
            lemma_untagged_tokens(run.token(tag), rest);
            lemma_tokens_in_sequence(run, seq![tag] + rest, seq![end]);
            lemma_one_token(run.tokens(seq![tag] + rest), end);
        },
        XmlEvent::End { name } => {
            lemma_one_token(run, tokens[0]);
            assert(tokens =~= seq![tokens[0]]);
        },
        _ => {
            lemma_untagged_tokens(run, tokens);
        },
    }
}

/// The tokens of attributes are no tags.
proof fn lemma_attributes_no_tags(items: Seq<Result<XmlAttribute, AttrError>>)
    ensures
        start_tags(attribute_tokens(items)) == 0,
        end_tags(attribute_tokens(items)) == 0,
    decreases items.len(),
{
    let tokens = attribute_tokens(items);
    if items.len() > 0 {
        lemma_attributes_no_tags(items.drop_last());
        assert(tokens.drop_last() =~= attribute_tokens(items.drop_last()));
    }
}

/// The record of open tags keeps count of the nesting. Where a conversion
/// went well, as many tags are open after it as the events that it read
/// leave open.
pub proof fn lemma_depth_follows_nesting(start: Run, events: Seq<XmlEvent>, keep_whitespace: bool)
    requires
        start.events(events, keep_whitespace).result is Ok,
    ensures
        start.events(events, keep_whitespace).document.open_tags.len() == depth_after_all(
            start.document.open_tags.len(),
            events,
        ),
    decreases events.len(),
{
    if events.len() > 0 {
        let read = start.events(events.drop_last(), keep_whitespace);
        lemma_event_is_its_tokens(read, events.last(), keep_whitespace);
        lemma_depth_follows_nesting(start, events.drop_last(), keep_whitespace);
        lemma_depth_after_event(read, events.last(), keep_whitespace);
    }
}

/// The warnings that the attributes of a tag raise: one for each that
/// declares a namespace or has a prefix in its name, in the order of the
/// document.
pub open spec fn attribute_warnings(items: Seq<Result<XmlAttribute, AttrError>>) -> Seq<
    WarningView,
>
    recommends
        attributes_readable(items),
    decreases items.len(),
{
    if items.len() == 0 {
        seq![]
    } else {
        let key = text_of(items[0]->Ok_0.key@)->Ok_0;
        let first = if is_namespace_attribute(key) {
            seq![namespace_attribute_warning(key)]
        } else {
            seq![]
        };
        first + attribute_warnings(items.drop_first())
    }
}

/// The warnings that an event raises: one for a tag with a prefix in its
/// name, one for each attribute that declares a namespace or has a prefix
/// in its name, and one for a declaration of an encoding other than UTF-8.
pub open spec fn event_warnings(event: XmlEvent) -> Seq<WarningView>
    recommends
        readable(event),
{
    match event {
        XmlEvent::Start { name, attributes } => element_warnings(name@, attributes@),
        XmlEvent::Empty { name, attributes } => element_warnings(name@, attributes@),
        XmlEvent::Declaration { encoding: Some(Ok(name)) } => {
            let encoding = text_of(name@)->Ok_0;
            if mentions_utf8(encoding) {
                seq![]
            } else {
                seq![declared_encoding_warning(encoding)]
            }
        },
        XmlEvent::ProcessingInstruction { target, content } => {
            if content@.len() > 0 && declares_other_encoding(
                text_of(target@)->Ok_0,
                Some(text_of(content@)->Ok_0),
            ) {
                seq![instruction_encoding_warning(text_of(content@)->Ok_0)]
            } else {
                seq![]
            }
        },
        _ => seq![],
    }
}

/// The warnings that a tag raises that opens an element.
pub open spec fn element_warnings(
    name: Seq<u8>,
    attributes: Seq<Result<XmlAttribute, AttrError>>,
) -> Seq<WarningView> {
    let text = text_of(name)->Ok_0;
    let first = if has_prefix(text) {
        seq![prefixed_element_warning(text)]
    } else {
        seq![]
    };
    first + attribute_warnings(attributes)
}

/// The warnings that a sequence of events raises.
pub open spec fn document_warnings(events: Seq<XmlEvent>) -> Seq<WarningView>
    decreases events.len(),
{
    if events.len() == 0 {
        seq![]
    } else {
        document_warnings(events.drop_last()) + event_warnings(events.last())
    }
}

proof fn lemma_attributes_raise_their_warnings(
    run: Run,
    items: Seq<Result<XmlAttribute, AttrError>>,
)
    requires
        run.attributes(items).result is Ok,
    ensures
        run.attributes(items).warnings == run.warnings + attribute_warnings(items),
    decreases items.len(),
{
    if items.len() == 0 {
        assert(run.warnings + attribute_warnings(items) =~= run.warnings);
    } else {
        let next = run.attribute(items[0]);
        let rest = items.drop_first();
        if next.result is Err {
            lemma_failed_attributes(next, rest);
        }
        lemma_attributes_raise_their_warnings(next, rest);
        assert(run.attributes(items).warnings =~= run.warnings + attribute_warnings(items));
    }
}

proof fn lemma_event_raises_its_warnings(run: Run, event: XmlEvent, keep_whitespace: bool)
    requires
        run.event(event, keep_whitespace).result is Ok,
    ensures
        run.event(event, keep_whitespace).warnings == run.warnings + event_warnings(event),
{
    match event {
        XmlEvent::Start { name, attributes } => {
            lemma_element_raises_its_warnings(run, name@, attributes@, false);
        },
        XmlEvent::Empty { name, attributes } => {
            lemma_element_raises_its_warnings(run, name@, attributes@, true);
        },
        _ => {
            assert(run.event(event, keep_whitespace).warnings =~= run.warnings + event_warnings(
                event,
            ));
        },
    }
}

proof fn lemma_element_raises_its_warnings(
    run: Run,
    name: Seq<u8>,
    items: Seq<Result<XmlAttribute, AttrError>>,
    closed: bool,
)
    requires
        run.element(name, items, closed).result is Ok,
    ensures
        run.element(name, items, closed).warnings == run.warnings + element_warnings(name, items),
{
    let text = text_of(name)->Ok_0;
    let warned = run.warn_if(has_prefix(text), prefixed_element_warning(text));
    let tagged = warned.token(Token::StartTag(text));
    if tagged.result is Err {
        lemma_failed_attributes(tagged, items);
    }
    lemma_attributes_raise_their_warnings(tagged, items);
    assert(run.element(name, items, closed).warnings =~= run.warnings + element_warnings(
        name,
        items,
    ));
}

/// Every name that has to do with namespaces raises exactly one warning.
/// Where a conversion went well, the warnings that it raised are those of
/// its events, in the order of the document: one for each tag with a prefix
/// in its name, one for each attribute that declares a namespace or has a
/// prefix in its name, one for each declaration of an encoding other than
/// UTF-8, and no other.
pub proof fn lemma_warnings_match_names(start: Run, events: Seq<XmlEvent>, keep_whitespace: bool)
    requires
        start.events(events, keep_whitespace).result is Ok,
    ensures
        start.events(events, keep_whitespace).warnings == start.warnings + document_warnings(
            events,
        ),
    decreases events.len(),
{
    if events.len() == 0 {
        assert(start.warnings + document_warnings(events) =~= start.warnings);
    } else {
        let before = events.drop_last();
        let read = start.events(before, keep_whitespace);
        lemma_event_is_its_tokens(read, events.last(), keep_whitespace);
        lemma_warnings_match_names(start, before, keep_whitespace);
        lemma_event_raises_its_warnings(read, events.last(), keep_whitespace);
        assert(start.events(events, keep_whitespace).warnings =~= start.warnings
            + document_warnings(events));
    }
}

/// A tag is written as its control byte and its name, the name through the
/// pool.
pub proof fn lemma_tags_intern_their_names(document: Document, name: Seq<char>)
    ensures
        document.written(Token::StartTag(name)) == document.stream.begin().byte(
            BinaryXmlSerializer::START_TAG | BinaryXmlSerializer::TYPE_STRING_INTERNED,
        ).interned(name),
        document.written(Token::EndTag(name)) == document.stream.begin().byte(
            BinaryXmlSerializer::END_TAG | BinaryXmlSerializer::TYPE_STRING_INTERNED,
        ).interned(name),
{
}

} // verus!
