//! The state of one formatting run: its options, the source text, the comment
//! table, the documents that were built already, and the flags that hold only
//! while a certain part of the tree is being formatted.
//!
//! A context is made when a run begins and dropped when it ends. Nothing in
//! it outlives the run or is shared with another run.

use vstd::prelude::*;
use crate::comments::Comments;
use crate::document::FormatElement;
use crate::error::InvariantViolation;
use crate::options::FormatOptions;
use crate::span::Span;
use oxc_allocator::Allocator;
use oxc_span::SourceType;
use rustc_hash::FxHashMap;

verus! {

/// The arena of `oxc_allocator` in which the tree of a run was parsed. The
/// context carries it for those who build new nodes; no decision reads it.
#[verifier::external_type_specification]
#[verifier::external_body]
pub struct ExAllocator(Allocator);

/// The language settings of `oxc_span` with which a text was parsed. The
/// context carries them; no decision reads them.
#[verifier::external_type_specification]
#[verifier::external_body]
pub struct ExSourceType(SourceType);

/// The key under which the document of a node is kept: the start of the
/// node's span in the upper half, its end in the lower half.
pub open spec fn spec_span_key(span: Span) -> u64 {
    (span.start * 0x1_0000_0000 + span.end) as u64
}

/// The key under which the document of a node is kept.
pub fn span_key(span: Span) -> (key: u64)
    ensures
        key == spec_span_key(span),
{
    span.start as u64 * 0x1_0000_0000 + span.end as u64
}

/// Two spans have the same key only if they are the same span.
pub proof fn lemma_span_key_injective(a: Span, b: Span)
    requires
        spec_span_key(a) == spec_span_key(b),
    ensures
        a == b,
{
}

/// The map of documents before any document is built.
pub open spec fn spec_no_documents() -> Map<u64, FormatElement> {
    Map::empty()
}

/// `FxHashMap::default`: a map that holds nothing.
#[verifier::external_body]
fn empty_cache() -> (cache: FxHashMap<u64, FormatElement>)
    ensures
        cache@ == spec_no_documents(),
{
    FxHashMap::default()
}

/// `HashMap::get` on the map of documents: the document kept under `key`,
/// or `None` where the map has no such key.
#[verifier::external_body]
fn cache_get(cache: &FxHashMap<u64, FormatElement>, key: u64) -> (found: Option<&FormatElement>)
    ensures
        match found {
            Some(element) => cache@.contains_key(key) && *element == cache@[key],
            None => !cache@.contains_key(key),
        },
{
    cache.get(&key)
}

/// `HashMap::insert` on the map of documents: afterwards `key` leads to
/// `element`, and every other key to what it led to before.
#[verifier::external_body]
fn cache_insert(cache: &mut FxHashMap<u64, FormatElement>, key: u64, element: FormatElement)
    ensures
        final(cache)@ == old(cache)@.insert(key, element),
{
    cache.insert(key, element);
}

/// The context as contracts see it.
pub ghost struct ContextView {
    pub options: FormatOptions,
    pub source_text: Seq<char>,
    /// The documents built so far, by the key of the node's span.
    pub cached: Map<u64, FormatElement>,
    /// Whether the arguments of a call are being formatted.
    pub in_call_arguments: bool,
}

/// Context object storing data relevant when formatting an object.
pub struct FormatContext<'ast> {
    options: FormatOptions,
    source_text: &'ast str,
    source_type: SourceType,
    comments: Comments,
    cached_elements: FxHashMap<u64, FormatElement>,
    in_call_arguments: bool,
    allocator: &'ast Allocator,
}

impl<'ast> View for FormatContext<'ast> {
    type V = ContextView;

    closed spec fn view(&self) -> ContextView {
        ContextView {
            options: self.options,
            source_text: self.source_text@,
            cached: self.cached_elements@,
            in_call_arguments: self.in_call_arguments,
        }
    }
}

impl<'ast> FormatContext<'ast> {
    /// The comment table of the run.
    pub closed spec fn spec_comments(&self) -> Comments {
        self.comments
    }

    /// The language settings that the text was parsed with.
    pub closed spec fn spec_source_type(&self) -> SourceType {
        self.source_type
    }

    /// The arena in which the tree was parsed.
    pub closed spec fn spec_allocator(&self) -> &'ast Allocator {
        self.allocator
    }

    /// The context of a new run: no document built, no flag set.
    pub fn new(
        source_text: &'ast str,
        source_type: SourceType,
        comments: Comments,
        allocator: &'ast Allocator,
        options: FormatOptions,
    ) -> (context: Self)
        ensures
            context@ == (ContextView {
                options,
                source_text: source_text@,
                cached: spec_no_documents(),
                in_call_arguments: false,
            }),
            context.spec_comments() == comments,
            context.spec_source_type() == source_type,
            context.spec_allocator() == allocator,
    {
        Self {
            options,
            source_text,
            source_type,
            comments,
            allocator,
            cached_elements: empty_cache(),
            in_call_arguments: false,
        }
    }

    /// Returns the formatting options
    pub fn options(&self) -> (options: &FormatOptions)
        ensures
            *options == self@.options,
    {
        &self.options
    }

    /// Returns a reference to the program's comments.
    pub fn comments(&self) -> (comments: &Comments)
        ensures
            *comments == self.spec_comments(),
    {
        &self.comments
    }

    /// Returns a reference to the program's comments, through which they
    /// can be marked as printed.
    pub fn comments_mut(&mut self) -> (comments: &mut Comments)
        ensures
            *comments == old(self).spec_comments(),
            final(self).spec_comments() == *final(comments),
            final(self)@ == old(self)@,
    {
        &mut self.comments
    }

    /// Returns the source text
    pub fn source_text(&self) -> (text: &'ast str)
        ensures
            text@ == self@.source_text,
    {
        self.source_text
    }

    /// Returns the source type
    pub fn source_type(&self) -> (source_type: SourceType)
        ensures
            source_type == self.spec_source_type(),
    {
        self.source_type
    }

    /// Returns the arena of the run.
    pub fn allocator(&self) -> (allocator: &'ast Allocator)
        ensures
            allocator == self.spec_allocator(),
    {
        self.allocator
    }

    /// Returns the cached formatted element for the node with the span
    /// `key`, if one was cached.
    pub fn get_cached_element(&self, key: Span) -> (found: Option<&FormatElement>)
        ensures
            match found {
                Some(element) => self@.cached.contains_key(spec_span_key(key)) && *element
                    == self@.cached[spec_span_key(key)],
                None => !self@.cached.contains_key(spec_span_key(key)),
            },
    {
        cache_get(&self.cached_elements, span_key(key))
    }

    /// Caches the formatted element for the node with the span `key`. A span
    /// is written once: where an element is cached for it already, that
    /// element stays and `false` is returned.
    pub fn cache_element(&mut self, key: Span, formatted: FormatElement) -> (written: bool)
        ensures
            written == !old(self)@.cached.contains_key(spec_span_key(key)),
            final(self)@ == (ContextView {
                cached: if written {
                    old(self)@.cached.insert(spec_span_key(key), formatted)
                } else {
                    old(self)@.cached
                },
                ..old(self)@
            }),
            final(self).spec_comments() == old(self).spec_comments(),
            final(self).spec_source_type() == old(self).spec_source_type(),
            final(self).spec_allocator() == old(self).spec_allocator(),
            forall|k: u64| #[trigger]
                old(self)@.cached.contains_key(k) ==> final(self)@.cached.contains_key(k)
                    && final(self)@.cached[k] == old(self)@.cached[k],
    {
        let key = span_key(key);
        if cache_get(&self.cached_elements, key).is_some() {
            return false;
        }
        cache_insert(&mut self.cached_elements, key, formatted);
        true
    }

    /// Records that the next unprinted comment has been printed.
    pub fn increment_printed_count(&mut self) -> (counted: Result<(), InvariantViolation>)
        requires
            old(self).spec_comments()@.wf(),
        ensures
            final(self)@ == old(self)@,
            final(self).spec_comments()@.wf(),
            final(self).spec_comments()@.comments == old(self).spec_comments()@.comments,
            match counted {
                Ok(_) => final(self).spec_comments()@.printed == old(self).spec_comments()@.printed
                    + 1,
                Err(_) => final(self).spec_comments()@ == old(self).spec_comments()@
                    && old(self).spec_comments()@.printed
                    == old(self).spec_comments()@.comments.len(),
            },
    {
        self.comments.increment_printed_count()
    }

    /// Check if we're currently formatting call arguments
    pub fn is_in_call_arguments(&self) -> (inside: bool)
        ensures
            inside == self@.in_call_arguments,
    {
        self.in_call_arguments
    }

    /// Set the call arguments formatting flag, and hand back what it was, so
    /// that the caller can put it back when it leaves the arguments.
    pub fn set_in_call_arguments(&mut self, value: bool) -> (previous: bool)
        ensures
            previous == old(self)@.in_call_arguments,
            final(self)@ == (ContextView { in_call_arguments: value, ..old(self)@ }),
            final(self).spec_comments() == old(self).spec_comments(),
            final(self).spec_source_type() == old(self).spec_source_type(),
            final(self).spec_allocator() == old(self).spec_allocator(),
    {
        let previous = self.in_call_arguments;
        self.in_call_arguments = value;
        previous
    }
}

/// Setting the flag for the arguments of a call and then putting back what
/// it was leaves the context as it was found, whatever the flag was.
pub proof fn lemma_flag_is_restored(before: ContextView, value: bool)
    ensures
        (ContextView {
            in_call_arguments: before.in_call_arguments,
            ..(ContextView { in_call_arguments: value, ..before })
        }) == before,
{
}

/// A document that has been cached for a span is found under that span and
/// under no other.
pub proof fn lemma_cached_under_its_span(cached: Map<u64, FormatElement>, key: Span, other: Span)
    requires
        cached.contains_key(spec_span_key(key)),
        !cached.contains_key(spec_span_key(other)),
    ensures
        key != other,
{
}

} // verus!
