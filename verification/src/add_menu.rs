//! The search of the "add node" menu of the node graph: the registered node
//! types, the query typed, and the type ids it leaves listed.

use vstd::prelude::*;
use crate::geometry::{Point, Size};
use crate::file_dialog::is_unicode_whitespace;
use crate::graph::{Node, NodeView, Port, PortView};
use crate::combo_box::{contains_text, occurs_in, to_lowercase, unicode_lowercase};

verus! {

broadcast use vstd::string::group_string_axioms;

/// A port of a node type's schema.
pub struct AddMenuPortSpec {
    pub name: String,
}

/// One registered node type, without its schema.
pub struct RegistryEntry {
    pub type_id: String,
    pub display_name: String,
    pub category: String,
}

/// `s` without its leading and trailing Unicode white space.
pub open spec fn trimmed(s: Seq<char>) -> Seq<char>
    decreases s.len(),
{
    if s.len() > 0 && is_unicode_whitespace(s[0]) {
        trimmed(s.drop_first())
    } else if s.len() > 0 && is_unicode_whitespace(s.last()) {
        trimmed(s.drop_last())
    } else {
        s
    }
}

/// Calls `str::trim`, which drops leading and trailing white space as
/// Unicode's `White_Space` property (the set of `char::is_whitespace`)
/// defines it. Claimed: the result is [`trimmed`] of the argument.
#[verifier::external_body]
fn trim(s: &str) -> (r: String)
    ensures
        r@ == trimmed(s@),
{
    s.trim().to_string()
}

/// The mathematical content of a [`RegistryEntry`].
pub struct EntryView {
    pub type_id: Seq<char>,
    pub display_name: Seq<char>,
    pub category: Seq<char>,
}

pub open spec fn entry_view(e: RegistryEntry) -> EntryView {
    EntryView { type_id: e.type_id@, display_name: e.display_name@, category: e.category@ }
}

/// The type ids, among the first `k` entries, of those whose display name
/// contains `needle` once both are in lower case; all of them for an
/// empty needle.
pub open spec fn matching_ids(es: Seq<EntryView>, needle: Seq<char>, k: int) -> Seq<Seq<char>>
    decreases k,
{
    if k <= 0 {
        seq![]
    } else if needle.len() == 0 || occurs_in(needle, unicode_lowercase(es[k - 1].display_name)) {
        matching_ids(es, needle, k - 1).push(es[k - 1].type_id)
    } else {
        matching_ids(es, needle, k - 1)
    }
}

/// The needle a query searches for: trimmed, in lower case.
pub open spec fn needle_of(query: Seq<char>) -> Seq<char> {
    unicode_lowercase(trimmed(query))
}

/// The mathematical state of an [`AddNodeMenuState`].
pub struct AddMenuView {
    pub position: Point,
    pub search_text: Seq<char>,
    pub selected: Option<usize>,
    pub filtered: Seq<Seq<char>>,
    pub entries: Seq<EntryView>,
}

pub open spec fn texts(s: Seq<String>) -> Seq<Seq<char>> {
    s.map_values(|t: String| t@)
}

/// The add-node menu: where it was opened (in world coordinates), the
/// query, the selected row and the type ids listed.
pub struct AddNodeMenuState {
    pub position: Point,
    pub search_text: String,
    pub selected_idx: Option<usize>,
    pub filtered: Vec<String>,
    pub all_entries: Vec<RegistryEntry>,
}

impl AddNodeMenuState {
    pub open spec fn view(&self) -> AddMenuView {
        AddMenuView {
            position: self.position,
            search_text: self.search_text@,
            selected: self.selected_idx,
            filtered: texts(self.filtered@),
            entries: self.all_entries@.map_values(|e: RegistryEntry| entry_view(e)),
        }
    }

    /// A menu at `position` listing every entry of the registry, `entries`
    /// being what the registry lists.
    pub fn new(position: Point, entries: Vec<RegistryEntry>) -> (m: AddNodeMenuState)
        ensures
            m.view().position == position,
            m.view().search_text == Seq::<char>::empty(),
            m.view().selected is None,
            m.view().entries == entries@.map_values(|e: RegistryEntry| entry_view(e)),
            m.view().filtered == m.view().entries.map_values(|e: EntryView| e.type_id),
    {
        let mut filtered: Vec<String> = Vec::new();
        let mut i: usize = 0;
        while i < entries.len()
            invariant
                i <= entries@.len(),
                filtered@.len() == i,
                forall|j: int| 0 <= j < i ==> (#[trigger] filtered@[j])@ == entries@[j].type_id@,
            decreases entries@.len() - i,
        {
            filtered.push(entries[i].type_id.clone());
            i = i + 1;
        }
        let m = AddNodeMenuState { position, search_text: String::new(), selected_idx: None, filtered, all_entries: entries };
        assert(m.view().filtered =~= m.view().entries.map_values(|e: EntryView| e.type_id));
        m
    }

    /// Takes `query` and lists the type ids whose display name contains it
    /// (trimmed, ignoring case); see [`matching_ids`]. The selection is
    /// cleared.
    pub fn update_search(&mut self, query: &str)
        ensures
            final(self).view() == (AddMenuView {
                search_text: query@,
                selected: None,
                filtered: matching_ids(old(self).view().entries, needle_of(query@), old(self).view().entries.len() as int),
                ..old(self).view()
            }),
    {
        let ghost v = self.view();
        self.search_text = query.to_string();
        let trimmed = trim(query);
        let needle = to_lowercase(trimmed.as_str());
        self.selected_idx = None;
        let empty = needle.as_str().unicode_len() == 0;
        let mut filtered: Vec<String> = Vec::new();
        let mut i: usize = 0;
        while i < self.all_entries.len()
            invariant
                self.view().entries == v.entries,
                self.view().entries == self.all_entries@.map_values(|e: RegistryEntry| entry_view(e)),
                needle@ == needle_of(query@),
                empty == (needle@.len() == 0),
                i <= v.entries.len(),
                texts(filtered@) == matching_ids(v.entries, needle@, i as int),
            decreases v.entries.len() - i,
        {
            let e = &self.all_entries[i];
            assert(v.entries[i as int] == entry_view(*e));
            let keep = if empty {
                true
            } else {
                let name = to_lowercase(e.display_name.as_str());
                contains_text(name.as_str(), needle.as_str())
            };
            if keep {
                filtered.push(e.type_id.clone());
                assert(texts(filtered@) =~= matching_ids(v.entries, needle@, i as int).push(v.entries[i as int].type_id));
            }
            i = i + 1;
        }
        self.filtered = filtered;
    }

    /// The type id about to be inserted: the selected row's, else the first
    /// listed; none when that row does not exist.
    pub fn resolve_selection(&self) -> (r: Option<String>)
        ensures
            ({
                let idx: int = match self.view().selected { Some(i) => i as int, None => 0 };
                match r {
                    Some(t) => idx < self.view().filtered.len() && t@ == self.view().filtered[idx],
                    None => idx >= self.view().filtered.len(),
                }
            }),
    {
        let idx = match self.selected_idx {
            Some(i) => i,
            None => 0,
        };
        if idx < self.filtered.len() {
            Some(self.filtered[idx].clone())
        } else {
            None
        }
    }
}

/// Whether some entry among the first `k` with type id `t` matches
/// `needle`.
pub open spec fn has_matching_entry(es: Seq<EntryView>, needle: Seq<char>, k: int, t: Seq<char>) -> bool {
    exists|j: int|
        0 <= j < k && #[trigger] es[j].type_id == t && (needle.len() == 0 || occurs_in(
            needle,
            unicode_lowercase(es[j].display_name),
        ))
}

/// An empty query lists every registered type; any other lists only types
/// whose display name contains it.
pub proof fn law_search_lists_matches(es: Seq<EntryView>, needle: Seq<char>, k: int)
    requires
        0 <= k <= es.len(),
    ensures
        needle.len() == 0 ==> matching_ids(es, needle, k).len() == k,
        needle.len() == 0 ==> forall|i: int| 0 <= i < k ==> #[trigger] matching_ids(es, needle, k)[i] == es[i].type_id,
        forall|i: int| 0 <= i < matching_ids(es, needle, k).len() ==>
            has_matching_entry(es, needle, k, #[trigger] matching_ids(es, needle, k)[i]),
    decreases k,
{
    if k > 0 {
        law_search_lists_matches(es, needle, k - 1);
        let prev = matching_ids(es, needle, k - 1);
        let r = matching_ids(es, needle, k);
        if needle.len() == 0 || occurs_in(needle, unicode_lowercase(es[k - 1].display_name)) {
            assert(r == prev.push(es[k - 1].type_id));
            assert forall|i: int| 0 <= i < r.len() implies has_matching_entry(es, needle, k, #[trigger] r[i]) by {
                if i < prev.len() {
                    assert(r[i] == prev[i]);
                    assert(has_matching_entry(es, needle, k - 1, prev[i]));
                    let j = choose|j: int|
                        0 <= j < k - 1 && #[trigger] es[j].type_id == prev[i] && (needle.len() == 0 || occurs_in(
                            needle,
                            unicode_lowercase(es[j].display_name),
                        ));
                    assert(es[j].type_id == r[i]);
                } else {
                    assert(es[k - 1].type_id == r[i]);
                }
            }
            if needle.len() == 0 {
                assert forall|i: int| 0 <= i < k implies #[trigger] r[i] == es[i].type_id by {
                    if i < k - 1 {
                        assert(r[i] == prev[i]);
                    }
                }
            }
        } else {
            assert(r == prev);
            assert forall|i: int| 0 <= i < r.len() implies has_matching_entry(es, needle, k, #[trigger] r[i]) by {
                assert(has_matching_entry(es, needle, k - 1, prev[i]));
                let j = choose|j: int|
                    0 <= j < k - 1 && #[trigger] es[j].type_id == prev[i] && (needle.len() == 0 || occurs_in(
                        needle,
                        unicode_lowercase(es[j].display_name),
                    ));
                assert(es[j].type_id == r[i]);
            }
        }
    }
}

/// What the registry tells of a node type the menu inserts: its name,
/// category and ports. The defaults of its editable fields go to the host,
/// which keeps field values by node id.
pub struct AddMenuSchema {
    pub display_name: String,
    pub category: String,
    pub inputs: Vec<AddMenuPortSpec>,
    pub outputs: Vec<AddMenuPortSpec>,
}

/// The ports of a schema, numbered from 0 in order.
pub open spec fn schema_ports(ps: Seq<AddMenuPortSpec>, is_input: bool) -> Seq<PortView> {
    Seq::new(ps.len(), |i: int| PortView { id: i as usize, label: ps[i].name@, is_input })
}

/// The node inserted for type `type_id` with schema `s` at world point
/// `position`: titled by the schema's name, 220 by 140, with the schema's
/// ports, and an id of 0 for the graph to assign.
pub open spec fn schema_node(type_id: Seq<char>, s: AddMenuSchema, position: Point) -> NodeView {
    NodeView {
        id: 0,
        title: s.display_name@,
        position,
        size: Size { width: 220, height: 140 },
        inputs: schema_ports(s.inputs@, true),
        outputs: schema_ports(s.outputs@, false),
        component_type: Some(type_id),
    }
}

fn ports_from(ps: &Vec<AddMenuPortSpec>, is_input: bool) -> (r: Vec<Port>)
    ensures
        crate::graph::port_views(r@) == schema_ports(ps@, is_input),
{
    let mut out: Vec<Port> = Vec::new();
    let mut i: usize = 0;
    while i < ps.len()
        invariant
            i <= ps@.len(),
            out@.len() == i,
            forall|j: int| 0 <= j < i ==> (#[trigger] out@[j])@ == (PortView { id: j as usize, label: ps@[j].name@, is_input }),
        decreases ps@.len() - i,
    {
        out.push(Port { id: i, label: ps[i].name.clone(), is_input });
        i = i + 1;
    }
    assert(crate::graph::port_views(out@) =~= schema_ports(ps@, is_input));
    out
}

/// The node for type `type_id` with schema `schema` at `position`; see
/// [`schema_node`].
pub fn node_from_schema(type_id: &str, schema: &AddMenuSchema, position: Point) -> (n: Node)
    ensures
        n@ == schema_node(type_id@, *schema, position),
{
    Node {
        id: 0,
        title: schema.display_name.clone(),
        position,
        size: Size::new(220, 140),
        inputs: ports_from(&schema.inputs, true),
        outputs: ports_from(&schema.outputs, false),
        component_type: Some(type_id.to_string()),
    }
}

impl AddNodeMenuState {
    /// The node to insert for the type of [`AddNodeMenuState::resolve_selection`],
    /// `schema` being what the registry gives for that type id: placed where
    /// the menu was opened. None without a selected type or a schema.
    pub fn select(&self, schema: Option<AddMenuSchema>) -> (r: Option<Node>)
        ensures
            ({
                let idx: int = match self.view().selected { Some(i) => i as int, None => 0 };
                match r {
                    Some(n) => idx < self.view().filtered.len() && schema is Some
                        && n@ == schema_node(self.view().filtered[idx], schema->0, self.view().position),
                    None => idx >= self.view().filtered.len() || schema is None,
                }
            }),
    {
        match self.resolve_selection() {
            None => None,
            Some(t) => match schema {
                None => None,
                Some(s) => Some(node_from_schema(t.as_str(), &s, self.position)),
            },
        }
    }
}

/// Whether entry `e` is listed for `needle`.
pub open spec fn listed_for(e: EntryView, needle: Seq<char>) -> bool {
    needle.len() == 0 || occurs_in(needle, unicode_lowercase(e.display_name))
}

/// Every entry whose lower-case display name contains the query (every
/// entry, for an empty query) has its type listed.
pub proof fn law_search_lists_every_match(es: Seq<EntryView>, needle: Seq<char>, k: int)
    requires
        0 <= k <= es.len(),
    ensures
        forall|j: int| 0 <= j < k && listed_for(#[trigger] es[j], needle) ==> matching_ids(es, needle, k).contains(es[j].type_id),
    decreases k,
{
    if k > 0 {
        law_search_lists_every_match(es, needle, k - 1);
        let prev = matching_ids(es, needle, k - 1);
        if listed_for(es[k - 1], needle) {
            let r = prev.push(es[k - 1].type_id);
            assert forall|j: int| 0 <= j < k && listed_for(#[trigger] es[j], needle) implies r.contains(es[j].type_id) by {
                if j < k - 1 {
                    let t = choose|t: int| 0 <= t < prev.len() && prev[t] == es[j].type_id;
                    assert(r[t] == prev[t]);
                } else {
                    assert(r[prev.len() as int] == es[j].type_id);
                }
            }
        }
    }
}

} // verus!
