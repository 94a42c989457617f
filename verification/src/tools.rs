//! Tool declarations, and the choice of which ones the model may call.
//!
//! The tool array is part of every request's cached prefix, so it is fixed when
//! a [`crate::conversation::Conversation`] is built. Narrowing what the model
//! may call is a [`ToolChoice`], which leaves the array untouched.

use vstd::prelude::*;
use vstd::std_specs::cmp::PartialEqSpecImpl;

use crate::json::{
    field, group_json_view, items_view, lemma_members_view_ext, members_view, opt_field, push_field, push_str,
    key_rank, lemma_find_key_at, lemma_find_key_none, set_key, str_field, unsigned, Json, JsonV, Member, MemberV, Number, NumberV,
};
use crate::text::{precedes, same_text};
use crate::values::{ComputerEnvironment, ComputerSafetyPolicy, SearchType, ToolChoiceMode};

verus! {

broadcast use group_json_view;

/// A function the caller runs when the model calls it.
#[derive(Debug, Clone, PartialEq)]
pub struct Function {
    /// The name the model calls it by; unique within a conversation.
    pub name: String,
    /// What it does, for the model.
    pub description: Option<String>,
    /// The JSON Schema of its arguments object.
    pub parameters: Option<Vec<Member>>,
}

impl Function {
    /// A function with a description and a JSON Schema for its arguments.
    pub fn new(name: &str, description: &str, parameters: Vec<Member>) -> (r: Self)
        ensures
            r.name@ == name@,
            r.description matches Some(d) && d@ == description@,
            r.parameters == Some(parameters),
    {
        Function { name: name.to_owned(), description: Some(description.to_owned()), parameters: Some(parameters) }
    }
}

/// Where the model's Google Maps searches are centred.
///
/// The coordinates are JSON numbers as the wire carries them, such as
/// `Number::Float("48.85")` for 48.85 degrees.
#[derive(Debug, Clone, PartialEq)]
pub struct LatLng {
    /// Degrees north, in [-90, 90].
    pub latitude: Number,
    /// Degrees east, in [-180, 180].
    pub longitude: Number,
}

/// Headers sent to an MCP server: a value per name, each name once.
#[derive(Debug, Eq)]
pub struct Headers {
    entries: Vec<(String, String)>,
}

impl Headers {
    /// No two entries share a name.
    #[verifier::type_invariant]
    pub closed spec fn distinct(&self) -> bool {
        forall|i: int, j: int| 0 <= i < j < self.entries@.len() ==> #[trigger] self.entries@[i].0@ != #[trigger] self.entries@[j].0@
    }

    /// The value of each name.
    pub closed spec fn values(&self) -> Map<Seq<char>, Seq<char>> {
        Map::new(
            |k: Seq<char>| exists|i: int| 0 <= i < self.entries@.len() && #[trigger] self.entries@[i].0@ == k,
            |k: Seq<char>| self.entries@[choose|i: int| 0 <= i < self.entries@.len() && #[trigger] self.entries@[i].0@ == k].1@,
        )
    }

    /// The members the headers are written as; `insert` keeps them in name
    /// order.
    pub closed spec fn members(&self) -> Seq<MemberV> {
        Seq::new(self.entries@.len(), |i: int| str_field(self.entries@[i].0@, self.entries@[i].1@))
    }

    /// The entry at `i` is what the values hold for its name.
    proof fn lemma_entry(&self, i: int)
        requires
            self.distinct(),
            0 <= i < self.entries@.len(),
        ensures
            self.values().contains_key(self.entries@[i].0@),
            self.values()[self.entries@[i].0@] == self.entries@[i].1@,
    {
        let k = self.entries@[i].0@;
        assert(self.entries@[i].0@ == k);
        let j = choose|j: int| 0 <= j < self.entries@.len() && #[trigger] self.entries@[j].0@ == k;
        if j != i {
            if j < i {
                assert(self.entries@[j].0@ != self.entries@[i].0@);
            } else {
                assert(self.entries@[i].0@ != self.entries@[j].0@);
            }
        }
    }

    /// The members written are the values, each name once.
    pub proof fn lemma_members(&self)
        requires
            self.distinct(),
        ensures
            forall|i: int, j: int|
                0 <= i < j < self.members().len() ==> #[trigger] self.members()[i].key != #[trigger] self.members()[j].key,
            forall|i: int|
                0 <= i < self.members().len() ==> self.values().contains_key(#[trigger] self.members()[i].key)
                    && self.members()[i].value == JsonV::Str(self.values()[self.members()[i].key]),
            forall|k: Seq<char>| #[trigger] self.values().contains_key(k) ==> exists|i: int|
                0 <= i < self.members().len() && #[trigger] self.members()[i].key == k,
    {
        assert forall|i: int| 0 <= i < self.members().len() implies self.values().contains_key(
            #[trigger] self.members()[i].key,
        ) && self.members()[i].value == JsonV::Str(self.values()[self.members()[i].key]) by {
            self.lemma_entry(i);
        }
        assert forall|k: Seq<char>| #[trigger] self.values().contains_key(k) implies exists|i: int|
            0 <= i < self.members().len() && #[trigger] self.members()[i].key == k by {
            let i = choose|i: int| 0 <= i < self.entries@.len() && #[trigger] self.entries@[i].0@ == k;
            assert(self.members()[i].key == k);
        }
    }

    /// No headers.
    pub fn new() -> (r: Self)
        ensures
            r.values() == Map::<Seq<char>, Seq<char>>::empty(),
            r.members() == Seq::<MemberV>::empty(),
    {
        let r = Headers { entries: Vec::new() };
        assert(r.values() =~= Map::<Seq<char>, Seq<char>>::empty());
        assert(r.members() =~= Seq::<MemberV>::empty());
        r
    }

    /// How many names have a value.
    pub fn len(&self) -> (r: usize)
        ensures
            r == self.members().len(),
    {
        self.entries.len()
    }

    /// Sets the value of `name`: in place when it has one, else after the
    /// names that sort before it, as a map ordered by name keeps them.
    pub fn insert(&mut self, name: String, value: String)
        ensures
            final(self).values() == old(self).values().insert(name@, value@),
            final(self).members() == set_key(old(self).members(), name@, JsonV::Str(value@)),
    {
        proof {
            use_type_invariant(&*self);
        }
        let ghost old_self = *self;
        let ghost m0 = self.members();
        let mut i: usize = 0;
        while i < self.entries.len() && !same_text(self.entries[i].0.as_str(), name.as_str())
            invariant
                i <= self.entries@.len(),
                forall|j: int| 0 <= j < i ==> #[trigger] self.entries@[j].0@ != name@,
            decreases self.entries.len() - i,
        {
            i = i + 1;
        }
        let mut entries = Vec::new();
        std::mem::swap(&mut entries, &mut self.entries);
        let ghost e0 = entries@;
        proof {
            assert(m0.len() == e0.len());
            assert forall|j: int| 0 <= j < e0.len() implies #[trigger] m0[j].key == e0[j].0@ by {}
        }
        // Where the entry goes, and which old entry each new position holds.
        let ghost mut p: int = 0;
        if i < entries.len() {
            entries.set(i, (name, value));
            proof {
                p = i as int;
                assert(m0[i as int].key == name@);
                lemma_find_key_at(m0, name@, i as int);
                assert(Seq::new(entries@.len(), |k: int| str_field(entries@[k].0@, entries@[k].1@)) =~= set_key(
                    m0,
                    name@,
                    JsonV::Str(value@),
                ));
                assert forall|a: int, b: int| 0 <= a < b < entries@.len() implies #[trigger] entries@[a].0@
                    != #[trigger] entries@[b].0@ by {
                    if a != p && b != p {
                        assert(entries@[a] == e0[a] && entries@[b] == e0[b]);
                    } else if a == p {
                        assert(entries@[b] == e0[b]);
                    } else {
                        assert(entries@[a] == e0[a]);
                    }
                }
            }
        } else {
            let mut q: usize = 0;
            let mut k: usize = 0;
            while k < entries.len()
                invariant
                    k <= entries@.len(),
                    entries@ == e0,
                    m0.len() == e0.len(),
                    forall|j: int| 0 <= j < e0.len() ==> #[trigger] m0[j].key == e0[j].0@,
                    q as int == key_rank(m0.take(k as int), name@),
                    q <= k,
                decreases entries.len() - k,
            {
                proof {
                    assert(m0.take(k as int + 1).drop_last() =~= m0.take(k as int));
                    assert(m0.take(k as int + 1).last() == m0[k as int]);
                }
                if precedes(entries[k].0.as_str(), name.as_str()) {
                    q = q + 1;
                }
                k = k + 1;
            }
            proof {
                assert(m0.take(k as int) =~= m0);
                lemma_find_key_none(m0, name@);
                p = q as int;
            }
            entries.insert(q, (name, value));
            proof {
                e0.insert_ensures(p, entries@[p]);
                assert(entries@ == e0.insert(p, entries@[p]));
                let t = Seq::new(entries@.len(), |k: int| str_field(entries@[k].0@, entries@[k].1@));
                m0.insert_ensures(p, str_field(name@, value@));
                assert forall|x: int| 0 <= x < t.len() implies #[trigger] t[x] == m0.insert(p, str_field(name@, value@))[x] by {
                    if x > p {
                        assert(entries@[(x - 1) + 1] == e0[x - 1]);
                        assert(m0.insert(p, str_field(name@, value@))[(x - 1) + 1] == m0[x - 1]);
                    }
                }
                assert(t =~= set_key(m0, name@, JsonV::Str(value@)));
                assert forall|a: int, b: int| 0 <= a < b < entries@.len() implies #[trigger] entries@[a].0@
                    != #[trigger] entries@[b].0@ by {
                    let oa = if a < p { a } else { a - 1 };
                    let ob = if b < p { b } else { b - 1 };
                    if a != p {
                        assert(entries@[oa + if a < p { 0int } else { 1int }] == e0[oa]);
                    }
                    if b != p {
                        assert(entries@[ob + if b < p { 0int } else { 1int }] == e0[ob]);
                    }
                    if a != p && b != p {
                        assert(e0[oa].0@ != e0[ob].0@);
                    }
                }
            }
        }
        proof {
            assert(entries@[p].0@ == name@);
        }
        self.entries = entries;
        proof {
            assert(self.members() =~= set_key(m0, name@, JsonV::Str(value@)));
            assert forall|k: Seq<char>| #[trigger] self.values().contains_key(k) <==> old_self.values().insert(name@, value@).contains_key(k) by {
                if self.values().contains_key(k) {
                    let j = choose|j: int| 0 <= j < self.entries@.len() && #[trigger] self.entries@[j].0@ == k;
                    if k != name@ {
                        assert(self.members()[j].key == k);
                        assert(set_key(m0, name@, JsonV::Str(value@))[j].key == k);
                        if i < e0.len() {
                            assert(e0[j].0@ == k);
                        } else if j < p {
                            assert(e0[j].0@ == k);
                        } else {
                            assert(m0.insert(p, str_field(name@, value@))[(j - 1) + 1] == m0[j - 1]);
                            assert(e0[j - 1].0@ == k);
                        }
                    }
                }
                if old_self.values().contains_key(k) {
                    let j = choose|j: int| 0 <= j < e0.len() && #[trigger] e0[j].0@ == k;
                    if k != name@ {
                        if i < e0.len() || j < p {
                            assert(self.members()[j].key == k);
                            assert(self.entries@[j].0@ == k);
                        } else {
                            assert(m0.insert(p, str_field(name@, value@))[j + 1] == m0[j]);
                            assert(self.members()[j + 1].key == k);
                            assert(self.entries@[j + 1].0@ == k);
                        }
                    }
                }
                if k == name@ {
                    assert(self.entries@[p].0@ == k);
                }
            }
            assert forall|k: Seq<char>| #[trigger] self.values().contains_key(k) implies self.values()[k] == old_self.values().insert(name@, value@)[k] by {
                let j = choose|j: int| 0 <= j < self.entries@.len() && #[trigger] self.entries@[j].0@ == k;
                self.lemma_entry(j);
                if k != name@ {
                    assert(self.members()[j] == set_key(m0, name@, JsonV::Str(value@))[j]);
                    if i < e0.len() || j < p {
                        assert(self.members()[j] == m0[j]);
                        old_self.lemma_entry(j);
                    } else {
                        assert(m0.insert(p, str_field(name@, value@))[(j - 1) + 1] == m0[j - 1]);
                        old_self.lemma_entry(j - 1);
                    }
                }
            }
            assert(self.values() =~= old_self.values().insert(name@, value@));
        }
    }

    /// The value of `name`, if it has one.
    pub fn get(&self, name: &str) -> (r: Option<&str>)
        ensures
            match r {
                Some(v) => self.values().contains_key(name@) && self.values()[name@] == v@,
                None => !self.values().contains_key(name@),
            },
    {
        proof {
            use_type_invariant(self);
        }
        let mut i: usize = 0;
        while i < self.entries.len()
            invariant
                i <= self.entries@.len(),
                self.distinct(),
                forall|j: int| 0 <= j < i ==> #[trigger] self.entries@[j].0@ != name@,
            decreases self.entries.len() - i,
        {
            if same_text(self.entries[i].0.as_str(), name) {
                proof {
                    self.lemma_entry(i as int);
                }
                return Some(self.entries[i].1.as_str());
            }
            i = i + 1;
        }
        None
    }

    /// The members the headers are written as.
    fn to_members(&self) -> (r: Vec<Member>)
        ensures
            members_view(r@) == self.members(),
    {
        let mut out: Vec<Member> = Vec::new();
        let mut i: usize = 0;
        while i < self.entries.len()
            invariant
                i <= self.entries@.len(),
                members_view(out@) == self.members().take(i as int),
            decreases self.entries.len() - i,
        {
            push_str(&mut out, self.entries[i].0.as_str(), self.entries[i].1.as_str());
            proof {
                assert(self.members().take(i as int + 1) =~= self.members().take(i as int).push(
                    str_field(self.entries@[i as int].0@, self.entries@[i as int].1@),
                ));
            }
            i = i + 1;
        }
        proof {
            assert(self.members().take(i as int) =~= self.members());
        }
        out
    }

    /// Whether every name of `self` has the same value in `other`.
    fn covered_by(&self, other: &Self) -> (r: bool)
        ensures
            r == forall|k: Seq<char>| #[trigger] self.values().contains_key(k) ==> other.values().contains_key(k)
                && other.values()[k] == self.values()[k],
    {
        proof {
            use_type_invariant(self);
        }
        let mut i: usize = 0;
        while i < self.entries.len()
            invariant
                i <= self.entries@.len(),
                self.distinct(),
                forall|j: int| 0 <= j < i ==> other.values().contains_key(#[trigger] self.entries@[j].0@)
                    && other.values()[self.entries@[j].0@] == self.entries@[j].1@,
            decreases self.entries.len() - i,
        {
            proof {
                self.lemma_entry(i as int);
            }
            match other.get(self.entries[i].0.as_str()) {
                Some(v) => {
                    if !same_text(v, self.entries[i].1.as_str()) {
                        return false;
                    }
                },
                None => {
                    return false;
                },
            }
            i = i + 1;
        }
        proof {
            assert forall|k: Seq<char>| #[trigger] self.values().contains_key(k) implies other.values().contains_key(k)
                && other.values()[k] == self.values()[k] by {
                let j = choose|j: int| 0 <= j < self.entries@.len() && #[trigger] self.entries@[j].0@ == k;
                self.lemma_entry(j);
            }
        }
        true
    }
}

impl PartialEq for Headers {
    fn eq(&self, other: &Self) -> (r: bool) {
        let r = self.covered_by(other) && other.covered_by(self);
        proof {
            if r {
                assert(self.values() =~= other.values());
            }
        }
        r
    }
}

impl PartialEqSpecImpl for Headers {
    open spec fn obeys_eq_spec() -> bool {
        true
    }

    open spec fn eq_spec(&self, other: &Self) -> bool {
        self.values() == other.values()
    }
}

impl Clone for Headers {
    fn clone(&self) -> (r: Self)
        ensures
            r.values() == self.values(),
            r.members() == self.members(),
    {
        proof {
            use_type_invariant(self);
        }
        let mut entries: Vec<(String, String)> = Vec::new();
        let mut i: usize = 0;
        while i < self.entries.len()
            invariant
                i <= self.entries@.len(),
                entries@.len() == i,
                forall|j: int| 0 <= j < i ==> #[trigger] entries@[j].0@ == self.entries@[j].0@ && entries@[j].1@ == self.entries@[j].1@,
            decreases self.entries.len() - i,
        {
            entries.push((self.entries[i].0.clone(), self.entries[i].1.clone()));
            i = i + 1;
        }
        let r = Headers { entries };
        proof {
            assert(r.members() =~= self.members());
            assert forall|k: Seq<char>| #[trigger] r.values().contains_key(k) <==> self.values().contains_key(k) by {
                if r.values().contains_key(k) {
                    let j = choose|j: int| 0 <= j < r.entries@.len() && #[trigger] r.entries@[j].0@ == k;
                    assert(self.entries@[j].0@ == k);
                }
                if self.values().contains_key(k) {
                    let j = choose|j: int| 0 <= j < self.entries@.len() && #[trigger] self.entries@[j].0@ == k;
                    assert(r.entries@[j].0@ == k);
                }
            }
            assert forall|k: Seq<char>| #[trigger] r.values().contains_key(k) implies r.values()[k] == self.values()[k] by {
                let j = choose|j: int| 0 <= j < r.entries@.len() && #[trigger] r.entries@[j].0@ == k;
                r.lemma_entry(j);
                self.lemma_entry(j);
            }
            assert(r.values() =~= self.values());
        }
        r
    }
}

/// A remote MCP server whose tools the API calls on the model's behalf.
#[derive(Debug, Clone, PartialEq, Eq)]
pub struct McpServer {
    /// The server's name, as it appears in its tool steps.
    pub name: String,
    /// The streamable-HTTP endpoint.
    pub url: String,
    /// Headers sent to the server, such as authentication, one per name.
    pub headers: Headers,
    /// Which of its tools the model may call, when restricted.
    pub allowed_tools: Vec<AllowedTools>,
}

/// One tool the model may use.
#[derive(Debug, Clone, PartialEq)]
pub enum Tool {
    /// A function the caller runs.
    Function(Function),
    /// Python the server runs.
    CodeExecution,
    /// Google Search grounding.
    GoogleSearch {
        /// Which searches, when restricted; the server searches the web otherwise.
        search_types: Vec<SearchType>,
    },
    /// Fetching URLs named in the prompt.
    UrlContext,
    /// Google Maps grounding.
    GoogleMaps {
        /// The user's location, when known.
        location: Option<LatLng>,
        /// Whether to return a widget context token for rendering a map.
        enable_widget: Option<bool>,
    },
    /// Retrieval from file-search stores.
    FileSearch {
        /// `fileSearchStores/…` names to search.
        store_names: Vec<String>,
        /// A metadata filter over documents and chunks.
        metadata_filter: Option<String>,
        /// How many chunks to retrieve.
        top_k: Option<u32>,
    },
    /// A remote MCP server.
    McpServer(McpServer),
    /// Operating a computer through predefined actions.
    ComputerUse {
        /// The environment operated.
        environment: ComputerEnvironment,
        /// Predefined actions to leave out.
        excluded_predefined_functions: Vec<String>,
        /// Confirmation policies switched off.
        disabled_safety_policies: Vec<ComputerSafetyPolicy>,
        /// Whether to check requests for prompt injection.
        enable_prompt_injection_detection: Option<bool>,
    },
}

/// The name a tool choice refers to a tool by, for the tools that have one.
pub open spec fn tool_name(t: Tool) -> Option<Seq<char>> {
    match t {
        Tool::Function(f) => Some(f.name@),
        Tool::McpServer(s) => Some(s.name@),
        _ => None,
    }
}

/// A list of strings as a JSON array.
pub open spec fn strings_json(v: Seq<String>) -> JsonV {
    JsonV::Array(Seq::new(v.len(), |i: int| JsonV::Str(v[i]@)))
}

/// A member holding a list, written only when the list is not empty.
pub open spec fn nonempty_field(key: Seq<char>, len: nat, value: JsonV) -> Seq<MemberV> {
    if len == 0 {
        Seq::empty()
    } else {
        seq![field(key, value)]
    }
}

/// An optional boolean member.
pub open spec fn opt_bool_field(key: Seq<char>, value: Option<bool>) -> Seq<MemberV> {
    opt_field(
        key,
        match value {
            Some(b) => Some(JsonV::Bool(b)),
            None => None,
        },
    )
}

/// An optional string member.
pub open spec fn opt_str_field(key: Seq<char>, value: Option<String>) -> Seq<MemberV> {
    opt_field(
        key,
        match value {
            Some(s) => Some(JsonV::Str(s@)),
            None => None,
        },
    )
}

/// The object a restriction to named tools is written as.
pub open spec fn allowed_tools_json(a: AllowedTools) -> JsonV {
    JsonV::Object(seq![str_field("mode"@, a.restriction_mode().wire()), field("tools"@, strings_json(a.names()))])
}

/// The object a tool declaration is written as.
pub open spec fn tool_json(t: Tool) -> JsonV {
    JsonV::Object(
        match t {
            Tool::Function(f) => seq![str_field("type"@, "function"@), str_field("name"@, f.name@)]
                + opt_str_field("description"@, f.description) + opt_field(
                "parameters"@,
                match f.parameters {
                    Some(p) => Some(JsonV::Object(members_view(p@))),
                    None => None,
                },
            ),
            Tool::CodeExecution => seq![str_field("type"@, "code_execution"@)],
            Tool::GoogleSearch { search_types } => seq![str_field("type"@, "google_search"@)] + nonempty_field(
                "search_types"@,
                search_types@.len(),
                JsonV::Array(Seq::new(search_types@.len(), |i: int| JsonV::Str(search_types@[i].wire()))),
            ),
            Tool::UrlContext => seq![str_field("type"@, "url_context"@)],
            Tool::GoogleMaps { location, enable_widget } => seq![str_field("type"@, "google_maps"@)] + match location {
                Some(at) => seq![
                    field("latitude"@, JsonV::Number(at.latitude@)),
                    field("longitude"@, JsonV::Number(at.longitude@)),
                ],
                None => Seq::empty(),
            } + opt_bool_field("enable_widget"@, enable_widget),
            Tool::FileSearch { store_names, metadata_filter, top_k } => seq![
                str_field("type"@, "file_search"@),
                field("file_search_store_names"@, strings_json(store_names@)),
            ] + opt_str_field("metadata_filter"@, metadata_filter) + opt_field(
                "top_k"@,
                match top_k {
                    Some(k) => Some(JsonV::Number(NumberV::PosInt(k as u64))),
                    None => None,
                },
            ),
            Tool::McpServer(server) => seq![
                str_field("type"@, "mcp_server"@),
                str_field("name"@, server.name@),
                str_field("url"@, server.url@),
            ] + nonempty_field("headers"@, server.headers.members().len(), JsonV::Object(server.headers.members()))
                + nonempty_field(
                "allowed_tools"@,
                server.allowed_tools@.len(),
                JsonV::Array(
                    Seq::new(server.allowed_tools@.len(), |i: int| allowed_tools_json(server.allowed_tools@[i])),
                ),
            ),
            Tool::ComputerUse {
                environment,
                excluded_predefined_functions,
                disabled_safety_policies,
                enable_prompt_injection_detection,
            } => seq![str_field("type"@, "computer_use"@), str_field("environment"@, environment.wire())]
                + nonempty_field(
                "excluded_predefined_functions"@,
                excluded_predefined_functions@.len(),
                strings_json(excluded_predefined_functions@),
            ) + nonempty_field(
                "disabled_safety_policies"@,
                disabled_safety_policies@.len(),
                JsonV::Array(
                    Seq::new(disabled_safety_policies@.len(), |i: int| JsonV::Str(disabled_safety_policies@[i].wire())),
                ),
            ) + opt_bool_field("enable_prompt_injection_detection"@, enable_prompt_injection_detection),
        },
    )
}

/// A list of strings as a JSON array.
pub(crate) fn strings_to_json(v: &Vec<String>) -> (r: Json)
    ensures
        r@ == strings_json(v@),
{
    let mut items: Vec<Json> = Vec::new();
    let mut i: usize = 0;
    while i < v.len()
        invariant
            i <= v@.len(),
            items@.len() == i,
            forall|k: int| 0 <= k < i ==> #[trigger] items@[k]@ == JsonV::Str(v@[k]@),
        decreases v.len() - i,
    {
        items.push(Json::Str(v[i].clone()));
        i = i + 1;
    }
    proof {
        assert(items_view(items@) =~= strings_json(v@)->Array_0);
    }
    Json::Array(items)
}

fn number_json(n: &Number) -> (r: Json)
    ensures
        r@ == JsonV::Number(n@),
{
    Json::Number(n.clone())
}

impl Tool {
    /// The name a [`ToolChoice`] refers to it by, for the tools that have one.
    pub fn name(&self) -> (r: Option<&str>)
        ensures
            match r {
                Some(n) => tool_name(*self) == Some(n@),
                None => tool_name(*self) is None,
            },
    {
        match self {
            Tool::Function(f) => Some(f.name.as_str()),
            Tool::McpServer(s) => Some(s.name.as_str()),
            _ => None,
        }
    }

    /// The object this declaration is written as.
    pub fn to_json(&self) -> (r: Json)
        ensures
            r@ == tool_json(*self),
    {
        let mut m: Vec<Member> = Vec::new();
        match self {
            Tool::Function(f) => {
                push_str(&mut m, "type", "function");
                push_str(&mut m, "name", f.name.as_str());
                if let Some(description) = &f.description {
                    push_str(&mut m, "description", description.as_str());
                }
                if let Some(parameters) = &f.parameters {
                    let mut copy: Vec<Member> = Vec::new();
                    let mut i: usize = 0;
                    while i < parameters.len()
                        invariant
                            i <= parameters@.len(),
                            copy@.len() == i,
                            forall|k: int| 0 <= k < i ==> #[trigger] copy@[k]@ == parameters@[k]@,
                        decreases parameters.len() - i,
                    {
                        copy.push(parameters[i].clone());
                        i = i + 1;
                    }
                    proof {
                        lemma_members_view_ext(copy@, parameters@);
                    }
                    push_field(&mut m, "parameters", Json::Object(copy));
                }
            },
            Tool::CodeExecution => push_str(&mut m, "type", "code_execution"),
            Tool::GoogleSearch { search_types } => {
                push_str(&mut m, "type", "google_search");
                if search_types.len() > 0 {
                    let mut items: Vec<Json> = Vec::new();
                    let mut i: usize = 0;
                    while i < search_types.len()
                        invariant
                            i <= search_types@.len(),
                            items@.len() == i,
                            forall|k: int| 0 <= k < i ==> #[trigger] items@[k]@ == JsonV::Str(search_types@[k].wire()),
                        decreases search_types.len() - i,
                    {
                        items.push(Json::Str(search_types[i].as_str().to_owned()));
                        i = i + 1;
                    }
                    proof {
                        assert(items_view(items@) =~= Seq::new(
                            search_types@.len(),
                            |i: int| JsonV::Str(search_types@[i].wire()),
                        ));
                    }
                    push_field(&mut m, "search_types", Json::Array(items));
                }
            },
            Tool::UrlContext => push_str(&mut m, "type", "url_context"),
            Tool::GoogleMaps { location, enable_widget } => {
                push_str(&mut m, "type", "google_maps");
                if let Some(at) = location {
                    push_field(&mut m, "latitude", number_json(&at.latitude));
                    push_field(&mut m, "longitude", number_json(&at.longitude));
                }
                if let Some(widget) = enable_widget {
                    push_field(&mut m, "enable_widget", Json::Bool(*widget));
                }
            },
            Tool::FileSearch { store_names, metadata_filter, top_k } => {
                push_str(&mut m, "type", "file_search");
                push_field(&mut m, "file_search_store_names", strings_to_json(store_names));
                if let Some(filter) = metadata_filter {
                    push_str(&mut m, "metadata_filter", filter.as_str());
                }
                if let Some(k) = top_k {
                    push_field(&mut m, "top_k", unsigned(*k as u64));
                }
            },
            Tool::McpServer(server) => {
                push_str(&mut m, "type", "mcp_server");
                push_str(&mut m, "name", server.name.as_str());
                push_str(&mut m, "url", server.url.as_str());
                if server.headers.len() > 0 {
                    push_field(&mut m, "headers", Json::Object(server.headers.to_members()));
                }
                if server.allowed_tools.len() > 0 {
                    let mut items: Vec<Json> = Vec::new();
                    let mut i: usize = 0;
                    while i < server.allowed_tools.len()
                        invariant
                            i <= server.allowed_tools@.len(),
                            items@.len() == i,
                            forall|k: int| 0 <= k < i ==> #[trigger] items@[k]@ == allowed_tools_json(server.allowed_tools@[k]),
                        decreases server.allowed_tools.len() - i,
                    {
                        items.push(server.allowed_tools[i].to_json());
                        i = i + 1;
                    }
                    proof {
                        assert(items_view(items@) =~= Seq::new(
                            server.allowed_tools@.len(),
                            |i: int| allowed_tools_json(server.allowed_tools@[i]),
                        ));
                    }
                    push_field(&mut m, "allowed_tools", Json::Array(items));
                }
            },
            Tool::ComputerUse {
                environment,
                excluded_predefined_functions,
                disabled_safety_policies,
                enable_prompt_injection_detection,
            } => {
                push_str(&mut m, "type", "computer_use");
                push_str(&mut m, "environment", environment.as_str());
                if excluded_predefined_functions.len() > 0 {
                    push_field(
                        &mut m,
                        "excluded_predefined_functions",
                        strings_to_json(excluded_predefined_functions),
                    );
                }
                if disabled_safety_policies.len() > 0 {
                    let mut items: Vec<Json> = Vec::new();
                    let mut i: usize = 0;
                    while i < disabled_safety_policies.len()
                        invariant
                            i <= disabled_safety_policies@.len(),
                            items@.len() == i,
                            forall|k: int|
                                0 <= k < i ==> #[trigger] items@[k]@ == JsonV::Str(disabled_safety_policies@[k].wire()),
                        decreases disabled_safety_policies.len() - i,
                    {
                        items.push(Json::Str(disabled_safety_policies[i].as_str().to_owned()));
                        i = i + 1;
                    }
                    proof {
                        assert(items_view(items@) =~= Seq::new(
                            disabled_safety_policies@.len(),
                            |i: int| JsonV::Str(disabled_safety_policies@[i].wire()),
                        ));
                    }
                    push_field(&mut m, "disabled_safety_policies", Json::Array(items));
                }
                if let Some(detect) = enable_prompt_injection_detection {
                    push_field(&mut m, "enable_prompt_injection_detection", Json::Bool(*detect));
                }
            },
        }
        proof {
            assert(members_view(m@) =~= tool_json(*self)->Object_0);
        }
        Json::Object(m)
    }
}

/// A mode restricted to named tools.
///
/// For a conversation's own tools it is built by
/// [`crate::conversation::Conversation::allow_tools`], which checks every name
/// is declared.
#[derive(Debug, Clone, PartialEq, Eq)]
pub struct AllowedTools {
    mode: ToolChoiceMode,
    tools: Vec<String>,
}

impl AllowedTools {
    /// The mode inside the restriction.
    pub closed spec fn restriction_mode(&self) -> ToolChoiceMode {
        self.mode
    }

    /// The names allowed.
    pub closed spec fn names(&self) -> Seq<String> {
        self.tools@
    }

    /// A restriction whose names the caller vouches for, as for an MCP server's
    /// own tools, which the crate cannot see.
    pub fn unchecked(mode: ToolChoiceMode, tools: Vec<String>) -> (r: Self)
        ensures
            r.restriction_mode() == mode,
            r.names() == tools@,
    {
        AllowedTools { mode, tools }
    }

    /// The mode inside the restriction.
    pub fn mode(&self) -> (r: ToolChoiceMode)
        ensures
            r == self.restriction_mode(),
    {
        self.mode
    }

    /// The names allowed.
    pub fn tools(&self) -> (r: &[String])
        ensures
            r@ == self.names(),
    {
        self.tools.as_slice()
    }

    /// The object this restriction is written as: `mode`, then `tools`.
    pub fn to_json(&self) -> (r: Json)
        ensures
            r@ == allowed_tools_json(*self),
    {
        let mut m: Vec<Member> = Vec::new();
        push_str(&mut m, "mode", self.mode.as_str());
        push_field(&mut m, "tools", strings_to_json(&self.tools));
        proof {
            assert(members_view(m@) =~= allowed_tools_json(*self)->Object_0);
        }
        Json::Object(m)
    }
}

/// Whether, and which, tools the model may call this turn.
///
/// Per call, not part of the conversation: it changes nothing in the tool
/// array, so it can vary every turn without moving the cached prefix.
#[derive(Debug, Clone, PartialEq, Eq)]
pub enum ToolChoice {
    /// One mode over every declared tool.
    Mode(ToolChoiceMode),
    /// One mode over a subset.
    Allowed(AllowedTools),
}

/// The value a tool choice is written as: the mode's string, or an object
/// holding the restriction under `allowed_tools`.
pub open spec fn tool_choice_json(c: ToolChoice) -> JsonV {
    match c {
        ToolChoice::Mode(mode) => JsonV::Str(mode.wire()),
        ToolChoice::Allowed(allowed) => JsonV::Object(seq![field("allowed_tools"@, allowed_tools_json(allowed))]),
    }
}

impl ToolChoice {
    /// The value this choice is written as.
    pub fn to_json(&self) -> (r: Json)
        ensures
            r@ == tool_choice_json(*self),
    {
        match self {
            ToolChoice::Mode(mode) => Json::Str(mode.as_str().to_owned()),
            ToolChoice::Allowed(allowed) => {
                let mut m: Vec<Member> = Vec::new();
                push_field(&mut m, "allowed_tools", allowed.to_json());
                proof {
                    assert(members_view(m@) =~= tool_choice_json(*self)->Object_0);
                }
                Json::Object(m)
            },
        }
    }
}

} // verus!
