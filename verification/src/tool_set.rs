//! A registry of tools: each tool's descriptor, and the handler that runs
//! it, synchronous or asynchronous, found by the tool's name.

use vstd::prelude::*;
use crate::definition::IAToolDefinition;
use crate::open_ai::IADescriptor;
use crate::string_map::{has_key, inserted, keys_distinct, lemma_lookup_after_insert, lookup, StringMap};

verus! {

/// The model of a tool set: its descriptors and its handlers, each as the
/// entries of a map keyed by tool name.
pub struct ToolSetModel<D, S, A> {
    pub descriptors: Seq<(Seq<char>, D)>,
    pub sync_handlers: Seq<(Seq<char>, S)>,
    pub async_handlers: Seq<(Seq<char>, A)>,
}

/// Where a call of a tool goes.
pub enum Dispatch<'a, S, A> {
    /// To the synchronous handler registered under the name.
    Sync(&'a S),
    /// To the asynchronous handler registered under the name.
    Async(&'a A),
    /// Nowhere: no tool has the name.
    NotFound,
}

/// Where a call goes, as a value of the model.
pub enum Target<S, A> {
    Sync(S),
    Async(A),
    NotFound,
}

/// A call of `name` goes to the synchronous handler of that name where
/// there is one, else to the asynchronous one, else nowhere.
pub open spec fn dispatch_target<D, S, A>(m: ToolSetModel<D, S, A>, name: Seq<char>) -> Target<S, A> {
    match lookup(m.sync_handlers, name) {
        Some(h) => Target::Sync(h),
        None => match lookup(m.async_handlers, name) {
            Some(h) => Target::Async(h),
            None => Target::NotFound,
        },
    }
}

/// A collection of tools, synchronous and asynchronous, each with a
/// descriptor of type `D`; `S` and `A` are the types of their handlers.
pub struct ToolSet<D, S, A> {
    tool_descriptors: StringMap<D>,
    sync_handlers: StringMap<S>,
    async_handlers: StringMap<A>,
}

impl<D, S, A> View for ToolSet<D, S, A> {
    type V = ToolSetModel<D, S, A>;

    closed spec fn view(&self) -> ToolSetModel<D, S, A> {
        ToolSetModel {
            descriptors: self.tool_descriptors@,
            sync_handlers: self.sync_handlers@,
            async_handlers: self.async_handlers@,
        }
    }
}

/// The message answered for a tool that is not in the set.
pub open spec fn tool_not_found_message() -> Seq<char> {
    "{ \"error\": \"Tool not found or cannot be dispatched\"}"@
}

/// The message answered for a tool result that cannot be serialized.
pub open spec fn serialization_failure_message() -> Seq<char> {
    "{ \"error\": \"Cannot serialize tool result\"}"@
}

/// The answer of a tool call whose result serialized to `serialized`, or
/// failed to serialize where it is `None`.
pub fn serialize_tool_result(serialized: Option<String>) -> (r: Result<String, String>)
    ensures
        match serialized {
            Some(s) => r == Ok::<String, String>(s),
            None => r is Err && r->Err_0@ == serialization_failure_message(),
        },
{
    match serialized {
        Some(json_string) => Ok(json_string),
        None => Err("{ \"error\": \"Cannot serialize tool result\"}".to_string()),
    }
}

/// The answer of a call of a tool that is not in the set.
pub fn tool_not_found() -> (r: String)
    ensures
        r@ == tool_not_found_message(),
{
    "{ \"error\": \"Tool not found or cannot be dispatched\"}".to_string()
}

impl<D, S, A> ToolSet<D, S, A> {
    /// An empty tool set.
    pub fn new() -> (r: Self)
        ensures
            r@.descriptors.len() == 0,
            r@.sync_handlers.len() == 0,
            r@.async_handlers.len() == 0,
    {
        ToolSet {
            tool_descriptors: StringMap::new(),
            sync_handlers: StringMap::new(),
            async_handlers: StringMap::new(),
        }
    }

    /// Adds a synchronous tool: its handler under its name, and its
    /// descriptor built from its definition, each replacing what the name
    /// had before.
    pub fn add_tool(&mut self, definition: IAToolDefinition, handler: S)
        where D: IADescriptor,
        ensures
            keys_distinct(old(self)@.sync_handlers),
            keys_distinct(old(self)@.async_handlers),
            final(self)@.sync_handlers == inserted(old(self)@.sync_handlers, definition.name@, handler),
            final(self)@.async_handlers == old(self)@.async_handlers,
            has_key(final(self)@.descriptors, definition.name@),
            call_ensures(
                D::from_ai_tool_definition,
                (definition,),
                lookup(final(self)@.descriptors, definition.name@)->Some_0,
            ),
            final(self)@.descriptors == inserted(
                old(self)@.descriptors,
                definition.name@,
                lookup(final(self)@.descriptors, definition.name@)->Some_0,
            ),
    {
        proof {
            use_type_invariant(&self.tool_descriptors);
            use_type_invariant(&self.sync_handlers);
            use_type_invariant(&self.async_handlers);
        }
        let name = definition.name.clone();
        self.sync_handlers.insert(name.clone(), handler);
        let descriptor = D::from_ai_tool_definition(definition);
        let ghost before = self.tool_descriptors@;
        self.tool_descriptors.insert(name, descriptor);
        proof {
            lemma_lookup_after_insert(before, name@, descriptor, name@);
        }
    }

    /// Adds an asynchronous tool: its handler under its name, and its
    /// descriptor built from its definition, each replacing what the name
    /// had before.
    pub fn add_async_tool(&mut self, definition: IAToolDefinition, handler: A)
        where D: IADescriptor,
        ensures
            keys_distinct(old(self)@.sync_handlers),
            keys_distinct(old(self)@.async_handlers),
            final(self)@.async_handlers == inserted(old(self)@.async_handlers, definition.name@, handler),
            final(self)@.sync_handlers == old(self)@.sync_handlers,
            has_key(final(self)@.descriptors, definition.name@),
            call_ensures(
                D::from_ai_tool_definition,
                (definition,),
                lookup(final(self)@.descriptors, definition.name@)->Some_0,
            ),
            final(self)@.descriptors == inserted(
                old(self)@.descriptors,
                definition.name@,
                lookup(final(self)@.descriptors, definition.name@)->Some_0,
            ),
    {
        proof {
            use_type_invariant(&self.tool_descriptors);
            use_type_invariant(&self.sync_handlers);
            use_type_invariant(&self.async_handlers);
        }
        let name = definition.name.clone();
        self.async_handlers.insert(name.clone(), handler);
        let descriptor = D::from_ai_tool_definition(definition);
        let ghost before = self.tool_descriptors@;
        self.tool_descriptors.insert(name, descriptor);
        proof {
            lemma_lookup_after_insert(before, name@, descriptor, name@);
        }
    }

    /// Where a call of the tool `function_name` goes: its synchronous
    /// handler where it has one, else its asynchronous handler, else
    /// nowhere.
    pub fn dispatch(&self, function_name: &String) -> (r: Dispatch<'_, S, A>)
        ensures
            match r {
                Dispatch::Sync(h) => dispatch_target(self@, function_name@) == Target::<S, A>::Sync(*h),
                Dispatch::Async(h) => dispatch_target(self@, function_name@) == Target::<S, A>::Async(*h),
                Dispatch::NotFound => dispatch_target(self@, function_name@) is NotFound,
            },
    {
        match self.sync_handlers.get(function_name) {
            Some(h) => Dispatch::Sync(h),
            None => match self.async_handlers.get(function_name) {
                Some(h) => Dispatch::Async(h),
                None => Dispatch::NotFound,
            },
        }
    }

    /// Copies of all the descriptors, in the order in which their names
    /// were first added.
    pub fn get_tools(&self) -> (r: Vec<D>)
        where D: Clone,
        ensures
            r@.len() == self@.descriptors.len(),
            forall|i: int|
                0 <= i < r@.len() ==> cloned(self@.descriptors[i].1, #[trigger] r@[i]),
    {
        let mut out: Vec<D> = Vec::new();
        let mut i: usize = 0;
        while i < self.tool_descriptors.len()
            invariant
                i <= self@.descriptors.len(),
                self@.descriptors == self.tool_descriptors@,
                out@.len() == i,
                forall|k: int| 0 <= k < i ==> cloned(self@.descriptors[k].1, #[trigger] out@[k]),
            decreases self@.descriptors.len() - i,
        {
            let d = self.tool_descriptors.value_at(i).clone();
            out.push(d);
            i = i + 1;
        }
        out
    }
}

/// After a synchronous tool is added under `name`, a call of `name` goes to
/// its handler; calls of other names go where they went before.
pub proof fn lemma_dispatch_after_add_tool<D, S, A>(
    before: ToolSetModel<D, S, A>,
    after: ToolSetModel<D, S, A>,
    name: Seq<char>,
    handler: S,
    other: Seq<char>,
)
    requires
        keys_distinct(before.sync_handlers),
        after.sync_handlers == inserted(before.sync_handlers, name, handler),
        after.async_handlers == before.async_handlers,
    ensures
        dispatch_target(after, name) == Target::<S, A>::Sync(handler),
        other != name ==> dispatch_target(after, other) == dispatch_target(before, other),
{
    lemma_lookup_after_insert(before.sync_handlers, name, handler, other);
}

/// After an asynchronous tool is added under `name`, a call of `name` goes
/// to its handler, unless a synchronous tool has the same name, which keeps
/// the call; calls of other names go where they went before.
pub proof fn lemma_dispatch_after_add_async_tool<D, S, A>(
    before: ToolSetModel<D, S, A>,
    after: ToolSetModel<D, S, A>,
    name: Seq<char>,
    handler: A,
    other: Seq<char>,
)
    requires
        keys_distinct(before.async_handlers),
        after.async_handlers == inserted(before.async_handlers, name, handler),
        after.sync_handlers == before.sync_handlers,
    ensures
        !has_key(before.sync_handlers, name) ==> dispatch_target(after, name) == Target::<S, A>::Async(handler),
        has_key(before.sync_handlers, name) ==> dispatch_target(after, name) == dispatch_target(before, name),
        other != name ==> dispatch_target(after, other) == dispatch_target(before, other),
{
    lemma_lookup_after_insert(before.async_handlers, name, handler, other);
}

} // verus!
