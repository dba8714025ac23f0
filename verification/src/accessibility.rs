//! The accessibility tree: a node per widget with its role, label, state,
//! children and the actions it supports, the focused node, and the
//! announcements a screen reader is to speak.

use vstd::prelude::*;
use crate::geometry::{Rect, WidgetId};

verus! {

broadcast use vstd::string::group_string_axioms;

#[derive(Clone, Copy, Debug, PartialEq, Eq, Structural)]
pub enum AccessibilityRole {
    Button,
    CheckBox,
    RadioButton,
    TextInput,
    Label,
    Link,
    Menu,
    MenuItem,
    Tab,
    TabPanel,
    Tree,
    TreeItem,
    List,
    ListItem,
    ComboBox,
    Slider,
    ProgressBar,
    Dialog,
    Alert,
    ToolBar,
    ToolTip,
    ScrollBar,
    Separator,
    Window,
    Document,
    Application,
}

/// The state a node exposes. Every part is optional.
pub struct AccessibilityState {
    pub checked: Option<bool>,
    pub selected: Option<bool>,
    pub expanded: Option<bool>,
    pub disabled: Option<bool>,
    pub focused: Option<bool>,
    pub pressed: Option<bool>,
    pub value: Option<String>,
    pub level: Option<i32>,
    pub item_count: Option<i32>,
    pub item_index: Option<i32>,
}

/// The mathematical content of an [`AccessibilityState`].
pub struct StateView {
    pub checked: Option<bool>,
    pub selected: Option<bool>,
    pub expanded: Option<bool>,
    pub disabled: Option<bool>,
    pub focused: Option<bool>,
    pub pressed: Option<bool>,
    pub value: Option<Seq<char>>,
    pub level: Option<i32>,
    pub item_count: Option<i32>,
    pub item_index: Option<i32>,
}

pub open spec fn opt_text(s: Option<String>) -> Option<Seq<char>> {
    match s {
        Some(t) => Some(t@),
        None => None,
    }
}

pub open spec fn state_view(s: AccessibilityState) -> StateView {
    StateView {
        checked: s.checked,
        selected: s.selected,
        expanded: s.expanded,
        disabled: s.disabled,
        focused: s.focused,
        pressed: s.pressed,
        value: opt_text(s.value),
        level: s.level,
        item_count: s.item_count,
        item_index: s.item_index,
    }
}

impl Default for AccessibilityState {
    fn default() -> (s: AccessibilityState)
        ensures
            state_view(s) == (StateView {
                checked: None,
                selected: None,
                expanded: None,
                disabled: None,
                focused: None,
                pressed: None,
                value: None,
                level: None,
                item_count: None,
                item_index: None,
            }),
    {
        AccessibilityState {
            checked: None,
            selected: None,
            expanded: None,
            disabled: None,
            focused: None,
            pressed: None,
            value: None,
            level: None,
            item_count: None,
            item_index: None,
        }
    }
}

pub enum AccessibilityAction {
    Click,
    Focus,
    Expand,
    Collapse,
    Check,
    Uncheck,
    Select,
    SetValue(String),
    ScrollIntoView,
}

/// Which action an [`AccessibilityAction`] is, without its argument.
#[derive(Clone, Copy, Debug, PartialEq, Eq, Structural)]
pub enum ActionKind {
    Click,
    Focus,
    Expand,
    Collapse,
    Check,
    Uncheck,
    Select,
    SetValue,
    ScrollIntoView,
}

pub open spec fn action_kind(a: AccessibilityAction) -> ActionKind {
    match a {
        AccessibilityAction::Click => ActionKind::Click,
        AccessibilityAction::Focus => ActionKind::Focus,
        AccessibilityAction::Expand => ActionKind::Expand,
        AccessibilityAction::Collapse => ActionKind::Collapse,
        AccessibilityAction::Check => ActionKind::Check,
        AccessibilityAction::Uncheck => ActionKind::Uncheck,
        AccessibilityAction::Select => ActionKind::Select,
        AccessibilityAction::SetValue(_) => ActionKind::SetValue,
        AccessibilityAction::ScrollIntoView => ActionKind::ScrollIntoView,
    }
}

fn kind_of(a: &AccessibilityAction) -> (k: ActionKind)
    ensures
        k == action_kind(*a),
{
    match a {
        AccessibilityAction::Click => ActionKind::Click,
        AccessibilityAction::Focus => ActionKind::Focus,
        AccessibilityAction::Expand => ActionKind::Expand,
        AccessibilityAction::Collapse => ActionKind::Collapse,
        AccessibilityAction::Check => ActionKind::Check,
        AccessibilityAction::Uncheck => ActionKind::Uncheck,
        AccessibilityAction::Select => ActionKind::Select,
        AccessibilityAction::SetValue(_) => ActionKind::SetValue,
        AccessibilityAction::ScrollIntoView => ActionKind::ScrollIntoView,
    }
}

/// A node of the tree.
pub struct AccessibilityNode {
    pub id: WidgetId,
    pub role: AccessibilityRole,
    pub label: String,
    pub description: Option<String>,
    pub bounds: Rect,
    pub state: AccessibilityState,
    pub children: Vec<WidgetId>,
    pub parent: Option<WidgetId>,
    pub actions: Vec<AccessibilityAction>,
}

/// The mathematical content of an [`AccessibilityNode`].
pub struct NodeView {
    pub id: WidgetId,
    pub role: AccessibilityRole,
    pub label: Seq<char>,
    pub description: Option<Seq<char>>,
    pub bounds: Rect,
    pub state: StateView,
    pub children: Seq<WidgetId>,
    pub parent: Option<WidgetId>,
    pub actions: Seq<ActionKind>,
}

pub open spec fn node_view(n: AccessibilityNode) -> NodeView {
    NodeView {
        id: n.id,
        role: n.role,
        label: n.label@,
        description: opt_text(n.description),
        bounds: n.bounds,
        state: state_view(n.state),
        children: n.children@,
        parent: n.parent,
        actions: n.actions@.map_values(|a: AccessibilityAction| action_kind(a)),
    }
}

/// The mathematical state of an [`AccessibilityManager`].
pub struct AccessView {
    pub nodes: Seq<NodeView>,
    pub focus: Option<WidgetId>,
    pub announcements: Seq<Seq<char>>,
}

/// The first index from `k` on of node `id`, `-1` if none.
pub open spec fn find_node(ns: Seq<NodeView>, id: WidgetId, k: int) -> int
    decreases ns.len() - k,
{
    if k < 0 || k >= ns.len() {
        -1
    } else if ns[k].id == id {
        k
    } else {
        find_node(ns, id, k + 1)
    }
}

/// What a screen reader says of a role after the label.
pub open spec fn role_suffix(r: AccessibilityRole) -> Seq<char> {
    match r {
        AccessibilityRole::Button => " button"@,
        AccessibilityRole::CheckBox => " checkbox"@,
        AccessibilityRole::RadioButton => " radio button"@,
        AccessibilityRole::TextInput => " edit"@,
        AccessibilityRole::ComboBox => " combo box"@,
        AccessibilityRole::Slider => " slider"@,
        _ => seq![],
    }
}

/// The announcement made when a node takes the focus: its label, role,
/// checked, selected, expanded and disabled states, and its description.
pub open spec fn focus_text(n: NodeView) -> Seq<char> {
    n.label + role_suffix(n.role) + checked_part(n) + selected_part(n) + expanded_part(n) + disabled_part(n)
        + description_part(n)
}

pub open spec fn checked_part(n: NodeView) -> Seq<char> {
    match n.state.checked {
        Some(true) => " checked"@,
        Some(false) => " not checked"@,
        None => seq![],
    }
}

pub open spec fn selected_part(n: NodeView) -> Seq<char> {
    if n.state.selected == Some(true) { " selected"@ } else { seq![] }
}

pub open spec fn expanded_part(n: NodeView) -> Seq<char> {
    match n.state.expanded {
        Some(true) => " expanded"@,
        Some(false) => " collapsed"@,
        None => seq![],
    }
}

pub open spec fn disabled_part(n: NodeView) -> Seq<char> {
    if n.state.disabled == Some(true) { " disabled"@ } else { seq![] }
}

pub open spec fn description_part(n: NodeView) -> Seq<char> {
    match n.description {
        Some(d) => ". "@ + d,
        None => seq![],
    }
}

/// The announcements made when a node labelled `label` goes from state
/// `old` to `new`: a checked, expanded or value state that changed to a
/// value is spoken.
pub open spec fn change_texts(label: Seq<char>, new: StateView, old: StateView) -> Seq<Seq<char>> {
    checked_change(label, new, old) + expanded_change(label, new, old) + value_change(label, new, old)
}

pub open spec fn checked_change(label: Seq<char>, new: StateView, old: StateView) -> Seq<Seq<char>> {
    if new.checked != old.checked && new.checked is Some {
        seq![label + (if new.checked == Some(true) { " checked"@ } else { " unchecked"@ })]
    } else {
        seq![]
    }
}

pub open spec fn expanded_change(label: Seq<char>, new: StateView, old: StateView) -> Seq<Seq<char>> {
    if new.expanded != old.expanded && new.expanded is Some {
        seq![label + (if new.expanded == Some(true) { " expanded"@ } else { " collapsed"@ })]
    } else {
        seq![]
    }
}

pub open spec fn value_change(label: Seq<char>, new: StateView, old: StateView) -> Seq<Seq<char>> {
    match new.value {
        Some(val) => if new.value != old.value { seq![label + " "@ + val] } else { seq![] },
        None => seq![],
    }
}

/// What performing an action of kind `k` on a node labelled `label`
/// announces.
pub open spec fn action_text(label: Seq<char>, k: ActionKind) -> Seq<Seq<char>> {
    match k {
        ActionKind::Click => seq![label + " clicked"@],
        ActionKind::Check => seq![label + " checked"@],
        ActionKind::Uncheck => seq![label + " unchecked"@],
        ActionKind::Expand => seq![label + " expanded"@],
        ActionKind::Collapse => seq![label + " collapsed"@],
        _ => seq![],
    }
}

/// The manager after `n` is registered: it is listed as a child of its
/// parent, if that is registered and does not list it yet, and then
/// replaces the node with its id or is added last.
pub open spec fn register_spec(v: AccessView, n: NodeView) -> AccessView {
    let ns1 = match n.parent {
        Some(pid) => {
            let p = find_node(v.nodes, pid, 0);
            if p >= 0 && !v.nodes[p].children.contains(n.id) {
                v.nodes.update(p, NodeView { children: v.nodes[p].children.push(n.id), ..v.nodes[p] })
            } else {
                v.nodes
            }
        },
        None => v.nodes,
    };
    let i = find_node(ns1, n.id, 0);
    AccessView { nodes: if i >= 0 { ns1.update(i, n) } else { ns1.push(n) }, ..v }
}

/// `s` without any `id`.
pub open spec fn without_id(s: Seq<WidgetId>, id: WidgetId) -> Seq<WidgetId>
    decreases s.len(),
{
    if s.len() == 0 {
        s
    } else if s.last() == id {
        without_id(s.drop_last(), id)
    } else {
        without_id(s.drop_last(), id).push(s.last())
    }
}

/// The manager after node `id` is unregistered: it leaves the tree and
/// its parent's children, and loses the focus if it had it.
pub open spec fn unregister_spec(v: AccessView, id: WidgetId) -> AccessView {
    let i = find_node(v.nodes, id, 0);
    if i < 0 {
        v
    } else {
        let ns = v.nodes.remove(i);
        let ns2 = match v.nodes[i].parent {
            Some(pid) => {
                let p = find_node(ns, pid, 0);
                if p >= 0 { ns.update(p, NodeView { children: without_id(ns[p].children, id), ..ns[p] }) } else { ns }
            },
            None => ns,
        };
        AccessView { nodes: ns2, focus: if v.focus == Some(id) { None } else { v.focus }, ..v }
    }
}

/// Nodes are registered once each.
pub open spec fn access_wf(v: AccessView) -> bool {
    &&& forall|i: int, j: int| 0 <= i < j < v.nodes.len() ==> v.nodes[i].id != v.nodes[j].id
    &&& v.nodes.len() < usize::MAX
}


proof fn lemma_find_node(ns: Seq<NodeView>, id: WidgetId, k: int)
    requires
        0 <= k,
    ensures
        find_node(ns, id, k) == -1 ==> forall|j: int| k <= j < ns.len() ==> ns[j].id != id,
        find_node(ns, id, k) != -1 ==> k <= find_node(ns, id, k) < ns.len() && ns[find_node(ns, id, k)].id == id,
    decreases ns.len() - k,
{
    if k < ns.len() && ns[k].id != id {
        lemma_find_node(ns, id, k + 1);
    }
}

proof fn lemma_without_id_len(s: Seq<WidgetId>, id: WidgetId)
    ensures
        without_id(s, id).len() <= s.len(),
    decreases s.len(),
{
    if s.len() > 0 {
        lemma_without_id_len(s.drop_last(), id);
    }
}

fn opt_bool_eq(a: Option<bool>, b: Option<bool>) -> (r: bool)
    ensures
        r == (a == b),
{
    match a {
        Some(x) => match b {
            Some(y) => x == y,
            None => false,
        },
        None => b.is_none(),
    }
}

fn opt_string_eq(a: &Option<String>, b: &Option<String>) -> (r: bool)
    ensures
        r == (opt_text(*a) == opt_text(*b)),
{
    match a {
        Some(x) => match b {
            Some(y) => *x == *y,
            None => false,
        },
        None => b.is_none(),
    }
}

fn ids_contain(v: &Vec<WidgetId>, id: WidgetId) -> (b: bool)
    ensures
        b == v@.contains(id),
{
    let mut i: usize = 0;
    while i < v.len()
        invariant
            i <= v@.len(),
            forall|j: int| 0 <= j < i ==> v@[j] != id,
        decreases v@.len() - i,
    {
        if v[i] == id {
            assert(v@[i as int] == id);
            return true;
        }
        i = i + 1;
    }
    false
}

fn ids_without(s: &Vec<WidgetId>, id: WidgetId) -> (r: Vec<WidgetId>)
    ensures
        r@ == without_id(s@, id),
{
    let mut r: Vec<WidgetId> = Vec::new();
    let mut i: usize = 0;
    while i < s.len()
        invariant
            i <= s@.len(),
            r@ == without_id(s@.take(i as int), id),
        decreases s@.len() - i,
    {
        let ghost t = s@.take(i as int + 1);
        assert(t.drop_last() =~= s@.take(i as int));
        proof {
            lemma_without_id_len(s@.take(i as int), id);
        }
        if s[i] != id {
            r.push(s[i]);
        }
        i = i + 1;
    }
    assert(s@.take(s@.len() as int) =~= s@);
    r
}

/// The accessibility tree of an application.
pub struct AccessibilityManager {
    nodes: Vec<AccessibilityNode>,
    focus_id: Option<WidgetId>,
    announcements: Vec<String>,
}

pub open spec fn texts(v: Seq<String>) -> Seq<Seq<char>> {
    v.map_values(|s: String| s@)
}

impl AccessibilityManager {
    pub closed spec fn view(&self) -> AccessView {
        AccessView {
            nodes: self.nodes@.map_values(|n: AccessibilityNode| node_view(n)),
            focus: self.focus_id,
            announcements: texts(self.announcements@),
        }
    }

    /// An empty tree.
    pub fn new() -> (m: AccessibilityManager)
        ensures
            access_wf(m.view()),
            m.view() == (AccessView { nodes: Seq::empty(), focus: None, announcements: Seq::empty() }),
    {
        let m = AccessibilityManager { nodes: Vec::new(), focus_id: None, announcements: Vec::new() };
        assert(m.view().nodes =~= Seq::<NodeView>::empty());
        assert(m.view().announcements =~= Seq::<Seq<char>>::empty());
        m
    }

    fn find_index(&self, id: WidgetId) -> (r: Option<usize>)
        ensures
            match r {
                Some(i) => i == find_node(self.view().nodes, id, 0) && i < self.view().nodes.len(),
                None => find_node(self.view().nodes, id, 0) == -1,
            },
    {
        let ghost ns = self.view().nodes;
        let mut i: usize = 0;
        while i < self.nodes.len()
            invariant
                ns == self.view().nodes,
                ns == self.nodes@.map_values(|n: AccessibilityNode| node_view(n)),
                i <= ns.len(),
                find_node(ns, id, 0) == find_node(ns, id, i as int),
            decreases ns.len() - i,
        {
            assert(ns[i as int] == node_view(self.nodes@[i as int]));
            if self.nodes[i].id == id {
                return Some(i);
            }
            i = i + 1;
        }
        None
    }

    /// Adds `node` (replacing one with the same id) and lists it under its
    /// parent; see [`register_spec`].
    pub fn register_node(&mut self, node: AccessibilityNode)
        requires
            access_wf(old(self).view()),
            old(self).view().nodes.len() + 1 < usize::MAX,
            forall|j: int| 0 <= j < old(self).view().nodes.len() ==> #[trigger] old(self).view().nodes[j].children.len() + 1 < usize::MAX,
        ensures
            access_wf(final(self).view()),
            final(self).view() == register_spec(old(self).view(), node_view(node)),
    {
        let ghost v = self.view();
        let id = node.id;
        match node.parent {
            Some(pid) => {
                proof {
                    lemma_find_node(v.nodes, pid, 0);
                }
                match self.find_index(pid) {
                    Some(p) => {
                        assert(v.nodes[p as int] == node_view(self.nodes@[p as int]));
                        if !ids_contain(&self.nodes[p].children, id) {
                            let mut parent = self.nodes.remove(p);
                            parent.children.push(id);
                            self.nodes.insert(p, parent);
                            assert(self.view().nodes =~= v.nodes.update(
                                p as int,
                                NodeView { children: v.nodes[p as int].children.push(id), ..v.nodes[p as int] },
                            ));
                        }
                    },
                    None => {},
                }
            },
            None => {},
        }
        let ghost ns1 = self.view().nodes;
        assert(forall|i: int, j: int| 0 <= i < j < ns1.len() ==> ns1[i].id != ns1[j].id);
        proof {
            lemma_find_node(ns1, id, 0);
        }
        match self.find_index(id) {
            Some(i) => {
                self.nodes.set(i, node);
                assert(self.view().nodes =~= ns1.update(i as int, node_view(node)));
            },
            None => {
                self.nodes.push(node);
                assert(self.view().nodes =~= ns1.push(node_view(node)));
            },
        }
    }

    /// Removes node `id`; see [`unregister_spec`].
    pub fn unregister_node(&mut self, id: WidgetId)
        requires
            access_wf(old(self).view()),
        ensures
            access_wf(final(self).view()),
            final(self).view() == unregister_spec(old(self).view(), id),
    {
        let ghost v = self.view();
        proof {
            lemma_find_node(v.nodes, id, 0);
        }
        let i = match self.find_index(id) {
            Some(i) => i,
            None => {
                return;
            },
        };
        let node = self.nodes.remove(i);
        let ghost ns = v.nodes.remove(i as int);
        assert(self.view().nodes =~= ns);
        assert(node_view(node) == v.nodes[i as int]);
        match node.parent {
            Some(pid) => {
                proof {
                    lemma_find_node(ns, pid, 0);
                }
                match self.find_index(pid) {
                    Some(p) => {
                        assert(ns[p as int] == node_view(self.nodes@[p as int]));
                        let mut parent = self.nodes.remove(p);
                        parent.children = ids_without(&parent.children, id);
                        self.nodes.insert(p, parent);
                        assert(self.view().nodes =~= ns.update(
                            p as int,
                            NodeView { children: without_id(ns[p as int].children, id), ..ns[p as int] },
                        ));
                    },
                    None => {},
                }
            },
            None => {},
        }
        if self.focus_id == Some(id) {
            self.focus_id = None;
        }
    }

    fn push_announcement(&mut self, message: String)
        ensures
            final(self).view() == (AccessView {
                announcements: old(self).view().announcements.push(message@),
                ..old(self).view()
            }),
    {
        self.announcements.push(message);
        assert(self.view().announcements =~= old(self).view().announcements.push(message@));
    }

    /// Sets the state of node `id`, announcing the changes; see
    /// [`change_texts`]. An unknown id changes nothing.
    pub fn update_node_state(&mut self, id: WidgetId, state: AccessibilityState)
        requires
            access_wf(old(self).view()),
        ensures
            access_wf(final(self).view()),
            ({
                let v = old(self).view();
                let i = find_node(v.nodes, id, 0);
                final(self).view() == (if i >= 0 {
                    AccessView {
                        nodes: v.nodes.update(i, NodeView { state: state_view(state), ..v.nodes[i] }),
                        announcements: v.announcements + change_texts(v.nodes[i].label, state_view(state), v.nodes[i].state),
                        ..v
                    }
                } else {
                    v
                })
            }),
    {
        let ghost v = self.view();
        proof {
            lemma_find_node(v.nodes, id, 0);
        }
        let i = match self.find_index(id) {
            Some(i) => i,
            None => {
                return;
            },
        };
        let mut node = self.nodes.remove(i);
        assert(node_view(node) == v.nodes[i as int]);
        let old_state = node.state;
        let label = node.label.clone();
        node.state = state;
        let ghost nv = node_view(node);
        self.nodes.insert(i, node);
        assert(self.view().nodes =~= v.nodes.update(i as int, nv));
        let new_state = &self.nodes[i].state;
        assert(state_view(*new_state) == state_view(state));
        let ghost base = self.view().announcements;
        let ghost sv = state_view(*new_state);
        let ghost ov = state_view(old_state);
        if !opt_bool_eq(new_state.checked, old_state.checked) {
            match new_state.checked {
                Some(c) => {
                    let mut msg = label.clone();
                    if c {
                        msg.append(" checked");
                    } else {
                        msg.append(" unchecked");
                    }
                    assert(seq![msg@] =~= checked_change(label@, sv, ov));
                    self.push_announcement(msg);
                },
                None => {},
            }
        }
        assert(self.view().announcements =~= base + checked_change(label@, sv, ov));
        let ghost base2 = self.view().announcements;
        assert(self.view().nodes[i as int] == node_view(self.nodes@[i as int]));
        let new_state = &self.nodes[i].state;
        assert(state_view(*new_state) == sv);
        if !opt_bool_eq(new_state.expanded, old_state.expanded) {
            match new_state.expanded {
                Some(e) => {
                    let mut msg = label.clone();
                    if e {
                        msg.append(" expanded");
                    } else {
                        msg.append(" collapsed");
                    }
                    assert(seq![msg@] =~= expanded_change(label@, sv, ov));
                    self.push_announcement(msg);
                },
                None => {},
            }
        }
        assert(self.view().announcements =~= base2 + expanded_change(label@, sv, ov));
        let ghost base3 = self.view().announcements;
        assert(self.view().nodes[i as int] == node_view(self.nodes@[i as int]));
        let new_state = &self.nodes[i].state;
        assert(state_view(*new_state) == sv);
        if !opt_string_eq(&new_state.value, &old_state.value) {
            match &new_state.value {
                Some(val) => {
                    let mut msg = label.clone();
                    msg.append(" ");
                    msg.append(val.as_str());
                    self.push_announcement(msg);
                },
                None => {},
            }
        }
        assert(self.view().announcements =~= base3 + value_change(label@, sv, ov));
        assert(self.view().announcements =~= base + change_texts(label@, sv, ov));
    }

    /// Sets the label of node `id`, if registered.
    pub fn update_node_label(&mut self, id: WidgetId, label: String)
        requires
            access_wf(old(self).view()),
        ensures
            access_wf(final(self).view()),
            ({
                let v = old(self).view();
                let i = find_node(v.nodes, id, 0);
                final(self).view() == (if i >= 0 {
                    AccessView { nodes: v.nodes.update(i, NodeView { label: label@, ..v.nodes[i] }), ..v }
                } else {
                    v
                })
            }),
    {
        let ghost v = self.view();
        proof {
            lemma_find_node(v.nodes, id, 0);
        }
        match self.find_index(id) {
            Some(i) => {
                let mut node = self.nodes.remove(i);
                assert(node_view(node) == v.nodes[i as int]);
                node.label = label;
                let ghost nv = node_view(node);
                self.nodes.insert(i, node);
                assert(self.view().nodes =~= v.nodes.update(i as int, nv));
            },
            None => {},
        }
    }

    #[verifier::rlimit(30)]
    fn focus_announcement(node: &AccessibilityNode) -> (s: String)
        ensures
            s@ == focus_text(node_view(*node)),
    {
        let ghost n = node_view(*node);
        let mut a = node.label.clone();
        match node.role {
            AccessibilityRole::Button => a.append(" button"),
            AccessibilityRole::CheckBox => a.append(" checkbox"),
            AccessibilityRole::RadioButton => a.append(" radio button"),
            AccessibilityRole::TextInput => a.append(" edit"),
            AccessibilityRole::ComboBox => a.append(" combo box"),
            AccessibilityRole::Slider => a.append(" slider"),
            _ => {},
        }
        let ghost s1 = a@;
        assert(s1 =~= n.label + role_suffix(n.role));
        match node.state.checked {
            Some(true) => a.append(" checked"),
            Some(false) => a.append(" not checked"),
            None => {},
        }
        let ghost s2 = a@;
        assert(s2 =~= s1 + checked_part(n));
        match node.state.selected {
            Some(true) => a.append(" selected"),
            _ => {},
        }
        let ghost s3 = a@;
        assert(s3 =~= s2 + selected_part(n));
        match node.state.expanded {
            Some(true) => a.append(" expanded"),
            Some(false) => a.append(" collapsed"),
            None => {},
        }
        let ghost s4 = a@;
        assert(s4 =~= s3 + expanded_part(n));
        match node.state.disabled {
            Some(true) => a.append(" disabled"),
            _ => {},
        }
        let ghost s5 = a@;
        assert(s5 =~= s4 + disabled_part(n));
        match &node.description {
            Some(d) => {
                a.append(". ");
                a.append(d.as_str());
            },
            None => {},
        }
        assert(a@ =~= s5 + description_part(n));
        a
    }

    /// Gives the focus to node `id` (or to nobody); a registered node
    /// announces itself, see [`focus_text`].
    pub fn set_focus(&mut self, id: Option<WidgetId>)
        requires
            access_wf(old(self).view()),
        ensures
            access_wf(final(self).view()),
            ({
                let v = old(self).view();
                let spoken: Seq<Seq<char>> = match id {
                    Some(k) => if find_node(v.nodes, k, 0) >= 0 {
                        seq![focus_text(v.nodes[find_node(v.nodes, k, 0)])]
                    } else {
                        seq![]
                    },
                    None => seq![],
                };
                final(self).view() == (AccessView { focus: id, announcements: v.announcements + spoken, ..v })
            }),
    {
        let ghost v = self.view();
        self.focus_id = id;
        match id {
            Some(k) => {
                proof {
                    lemma_find_node(v.nodes, k, 0);
                }
                match self.find_index(k) {
                    Some(i) => {
                        assert(v.nodes[i as int] == node_view(self.nodes@[i as int]));
                        let text = Self::focus_announcement(&self.nodes[i]);
                        self.push_announcement(text);
                        assert(self.view().announcements =~= v.announcements + seq![focus_text(v.nodes[i as int])]);
                    },
                    None => {
                        assert(v.announcements + Seq::<Seq<char>>::empty() =~= v.announcements);
                    },
                }
            },
            None => {
                assert(v.announcements + Seq::<Seq<char>>::empty() =~= v.announcements);
            },
        }
    }

    /// The focused node, if it is registered.
    pub fn get_focused_node(&self) -> (r: Option<&AccessibilityNode>)
        ensures
            match r {
                Some(n) => self.view().focus == Some(n.id) && find_node(self.view().nodes, n.id, 0) >= 0
                    && node_view(*n) == self.view().nodes[find_node(self.view().nodes, n.id, 0)],
                None => match self.view().focus {
                    Some(k) => find_node(self.view().nodes, k, 0) == -1,
                    None => true,
                },
            },
    {
        match self.focus_id {
            Some(k) => match self.find_index(k) {
                Some(i) => {
                    proof {
                        lemma_find_node(self.view().nodes, k, 0);
                    }
                    assert(self.view().nodes[i as int] == node_view(self.nodes@[i as int]));
                    Some(&self.nodes[i])
                },
                None => None,
            },
            None => None,
        }
    }

    /// Queues `message` for the screen reader.
    pub fn announce(&mut self, message: String)
        ensures
            final(self).view() == (AccessView {
                announcements: old(self).view().announcements.push(message@),
                ..old(self).view()
            }),
    {
        self.push_announcement(message);
    }

    /// Hands out the queued announcements, oldest first, and empties the
    /// queue.
    pub fn get_announcements(&mut self) -> (r: Vec<String>)
        ensures
            texts(r@) == old(self).view().announcements,
            final(self).view() == (AccessView { announcements: Seq::empty(), ..old(self).view() }),
    {
        let mut r: Vec<String> = Vec::new();
        std::mem::swap(&mut r, &mut self.announcements);
        assert(self.view().announcements =~= Seq::<Seq<char>>::empty());
        r
    }

    /// Performs `action` on node `id` if the node supports an action of
    /// that kind; see [`action_text`] for what is announced. Returns
    /// whether the action was supported.
    pub fn perform_action(&mut self, id: WidgetId, action: AccessibilityAction) -> (b: bool)
        requires
            access_wf(old(self).view()),
        ensures
            access_wf(final(self).view()),
            ({
                let v = old(self).view();
                let i = find_node(v.nodes, id, 0);
                let ok = i >= 0 && v.nodes[i].actions.contains(action_kind(action));
                &&& b == ok
                &&& final(self).view() == (if ok {
                    AccessView { announcements: v.announcements + action_text(v.nodes[i].label, action_kind(action)), ..v }
                } else {
                    v
                })
            }),
    {
        let ghost v = self.view();
        proof {
            lemma_find_node(v.nodes, id, 0);
        }
        let i = match self.find_index(id) {
            Some(i) => i,
            None => {
                return false;
            },
        };
        assert(v.nodes[i as int] == node_view(self.nodes@[i as int]));
        let kind = kind_of(&action);
        let ghost acts = v.nodes[i as int].actions;
        let mut supported = false;
        let mut k: usize = 0;
        while k < self.nodes[i].actions.len()
            invariant
                v == self.view(),
                0 <= i < v.nodes.len(),
                acts == v.nodes[i as int].actions,
                acts == self.nodes@[i as int].actions@.map_values(|a: AccessibilityAction| action_kind(a)),
                kind == action_kind(action),
                k <= acts.len(),
                supported == exists|j: int| 0 <= j < k && acts[j] == kind,
            decreases acts.len() - k,
        {
            assert(acts[k as int] == action_kind(self.nodes@[i as int].actions@[k as int]));
            if kind_of(&self.nodes[i].actions[k]) == kind {
                supported = true;
            }
            k = k + 1;
        }
        assert(supported == acts.contains(kind));
        if !supported {
            return false;
        }
        let label = self.nodes[i].label.clone();
        let suffix: Option<&str> = match kind {
            ActionKind::Click => Some(" clicked"),
            ActionKind::Check => Some(" checked"),
            ActionKind::Uncheck => Some(" unchecked"),
            ActionKind::Expand => Some(" expanded"),
            ActionKind::Collapse => Some(" collapsed"),
            _ => None,
        };
        match suffix {
            Some(sfx) => {
                let mut msg = label;
                msg.append(sfx);
                self.push_announcement(msg);
                assert(self.view().announcements =~= v.announcements + action_text(v.nodes[i as int].label, kind));
            },
            None => {
                assert(v.announcements + action_text(v.nodes[i as int].label, kind) =~= v.announcements);
            },
        }
        true
    }
}

/// Registering a node under a registered parent lists it there exactly
/// once, however often it is registered.
pub proof fn law_child_listed_once(v: AccessView, n: NodeView, pid: WidgetId)
    requires
        access_wf(v),
        n.parent == Some(pid),
        n.id != pid,
        find_node(v.nodes, pid, 0) >= 0,
        forall|i: int, j: int| 0 <= i < j < v.nodes[find_node(v.nodes, pid, 0)].children.len()
            ==> v.nodes[find_node(v.nodes, pid, 0)].children[i] != v.nodes[find_node(v.nodes, pid, 0)].children[j],
    ensures
        ({
            let r = register_spec(v, n);
            let p = find_node(r.nodes, pid, 0);
            &&& p >= 0
            &&& r.nodes[p].children.contains(n.id)
            &&& forall|i: int, j: int| 0 <= i < j < r.nodes[p].children.len() ==> r.nodes[p].children[i] != r.nodes[p].children[j]
        }),
{
    let p0 = find_node(v.nodes, pid, 0);
    lemma_find_node(v.nodes, pid, 0);
    let ns1 = register_spec(v, n).nodes;
    let c = v.nodes[p0].children;
    let mid = if !c.contains(n.id) {
        v.nodes.update(p0, NodeView { children: c.push(n.id), ..v.nodes[p0] })
    } else {
        v.nodes
    };
    assert forall|j: int| 0 <= j < mid.len() implies (#[trigger] mid[j]).id == v.nodes[j].id by {}
    assert(mid.len() == v.nodes.len());
    assert forall|i: int, j: int| 0 <= i < j < mid.len() implies mid[i].id != mid[j].id by {
        assert(mid[i].id == v.nodes[i].id && mid[j].id == v.nodes[j].id);
    }
    assert(mid[p0].id == pid);
    lemma_find_node(mid, pid, 0);
    lemma_find_node(mid, n.id, 0);
    let q = find_node(mid, n.id, 0);
    assert(find_node(mid, pid, 0) == p0) by {
        let f = find_node(mid, pid, 0);
        if f != p0 {
            assert(mid[f].id == v.nodes[f].id);
        }
    }
    if q >= 0 {
        assert(q != p0);
        let r = mid.update(q, n);
        lemma_find_node(r, pid, 0);
        assert(find_node(r, pid, 0) == p0) by {
            let f = find_node(r, pid, 0);
            if f != p0 {
                if f == -1 {
                    assert(r[p0].id == mid[p0].id);
                } else if f == q {
                } else {
                    assert(r[f].id == mid[f].id);
                    assert(mid[f].id == v.nodes[f].id);
                }
            }
        }
    } else {
        let r = mid.push(n);
        lemma_find_node(r, pid, 0);
        assert(find_node(r, pid, 0) == p0) by {
            let f = find_node(r, pid, 0);
            if f != p0 {
                if f == -1 {
                    assert(r[p0].id == mid[p0].id);
                } else if f < mid.len() {
                    assert(r[f].id == mid[f].id);
                    assert(mid[f].id == v.nodes[f].id);
                }
            }
        }
    }
    if !c.contains(n.id) {
        let c2 = c.push(n.id);
        assert(c2[c.len() as int] == n.id);
        assert forall|i: int, j: int| 0 <= i < j < c2.len() implies c2[i] != c2[j] by {
            if j == c.len() {
                assert(c2[i] == c[i]);
            } else {
                assert(c2[i] == c[i] && c2[j] == c[j]);
            }
        }
    }
}

/// Unregistering the focused node drops the focus.
pub proof fn law_unregister_drops_focus(v: AccessView, id: WidgetId)
    requires
        v.focus == Some(id),
        find_node(v.nodes, id, 0) >= 0,
    ensures
        unregister_spec(v, id).focus is None,
{
}

} // verus!
