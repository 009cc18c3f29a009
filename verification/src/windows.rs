//! The windows, as Hyprland and Sway list them.
use crate::json::{lemma_items_smaller, parse_json, parsed_text, Json, JsonTree};
use crate::platform::{
    fails_with, lemma_fails_with, window_views, NovaError, Reason, WindowInfo, WindowView,
};
use crate::text::{decimal, decimal_text, lemma_decimal_injective, same_text};
use vstd::prelude::*;
use vstd::string::*;

verus! {

/* ── Reading documents ──────────────────────────────────────────── */

/// The `i32` with the same low 32 bits.
pub open spec fn wrapped(value: int) -> i32 {
    let low = value % 0x1_0000_0000;
    if low >= 0x8000_0000 {
        (low - 0x1_0000_0000) as i32
    } else {
        low as i32
    }
}

fn wrap(value: i64) -> (low: i32)
    ensures
        low == wrapped(value as int),
{
    let shifted: u64 = (value as i128 + 0x8000_0000_0000_0000) as u64;
    let low: u64 = shifted % 0x1_0000_0000;
    assert(low == value as int % 0x1_0000_0000);
    if low >= 0x8000_0000 {
        (low as i64 - 0x1_0000_0000) as i32
    } else {
        low as i32
    }
}

/// The coordinate or size that a document gives; zero if it gives none.
pub open spec fn measure(tree: JsonTree) -> i32 {
    match tree.as_i64() {
        Some(value) => wrapped(value as int),
        None => 0,
    }
}

/// The coordinate or size at an index of a list; zero if there is none.
pub open spec fn measure_at(list: JsonTree, index: int) -> i32 {
    match list {
        JsonTree::Array(items) => if 0 <= index < items.len() {
            measure(items[index])
        } else {
            0
        },
        _ => 0,
    }
}

fn read_measure(json: Option<&Json>) -> (value: i32)
    ensures
        value == match json {
            Some(json) => measure(json.tree()),
            None => 0,
        },
{
    match json {
        Some(json) => match json.as_i64() {
            Some(value) => wrap(value),
            None => 0,
        },
        None => 0,
    }
}

fn read_measure_at(json: Option<&Json>, index: usize) -> (value: i32)
    ensures
        value == match json {
            Some(json) => measure_at(json.tree(), index as int),
            None => 0,
        },
{
    match json {
        Some(json) => match json.as_array() {
            Some(items) => if index < items.len() {
                assert(items@[index as int].tree() == json.tree()->Array_0[index as int]);
                read_measure(Some(&items[index]))
            } else {
                0
            },
            None => 0,
        },
        None => 0,
    }
}

fn read_text(json: Option<&Json>) -> (text: String)
    ensures
        text@ == match json {
            Some(json) => json.tree().text_or_empty(),
            None => Seq::<char>::empty(),
        },
{
    match json {
        Some(json) => match json.as_str() {
            Some(text) => text.to_owned(),
            None => String::new(),
        },
        None => String::new(),
    }
}

/* ── Hyprland ───────────────────────────────────────────────────── */

/// A window as Hyprland describes it, where the window at address `active` has the focus.
pub open spec fn hyprland_window(client: JsonTree, active: Seq<char>) -> WindowView {
    let address = client.at("address"@).text_or_empty();
    WindowView {
        id: address,
        title: client.at("title"@).text_or_empty(),
        app: client.at("class"@).text_or_empty(),
        x: measure_at(client.at("at"@), 0),
        y: measure_at(client.at("at"@), 1),
        w: measure_at(client.at("size"@), 0),
        h: measure_at(client.at("size"@), 1),
        focused: address.len() > 0 && address == active,
    }
}

/// The windows that Hyprland lists, in its order. Anything but a list has none.
pub open spec fn hyprland_list(clients: JsonTree, active: Seq<char>) -> Seq<WindowView> {
    match clients {
        JsonTree::Array(items) => items.map_values(|c: JsonTree| hyprland_window(c, active)),
        _ => Seq::empty(),
    }
}

fn read_client(client: &Json, active: &str) -> (window: WindowInfo)
    ensures
        window@ == hyprland_window(client.tree(), active@),
{
    let id = read_text(client.get("address"));
    let at = client.get("at");
    let size = client.get("size");
    let focused = !id.as_str().is_empty() && same_text(id.as_str(), active);
    WindowInfo {
        focused,
        id,
        title: read_text(client.get("title")),
        app: read_text(client.get("class")),
        x: read_measure_at(at, 0),
        y: read_measure_at(at, 1),
        w: read_measure_at(size, 0),
        h: read_measure_at(size, 1),
    }
}

/// The windows in a list of Hyprland's clients, where the one at address `active` has the focus.
pub fn hyprland_clients(clients: &Json, active: &str) -> (windows: Vec<WindowInfo>)
    ensures
        window_views(windows@) == hyprland_list(clients.tree(), active@),
{
    let mut windows: Vec<WindowInfo> = Vec::new();
    let ghost all = hyprland_list(clients.tree(), active@);
    match clients.as_array() {
        Some(items) => {
            let mut i: usize = 0;
            assert(window_views(windows@) =~= all.take(0));
            while i < items.len()
                invariant
                    i <= items@.len(),
                    all == hyprland_list(clients.tree(), active@),
                    all.len() == items@.len(),
                    clients.tree() is Array,
                    forall|k: int|
                        0 <= k < items@.len() ==> #[trigger] items@[k].tree()
                            == clients.tree()->Array_0[k],
                    window_views(windows@) == all.take(i as int),
                decreases items.len() - i,
            {
                let ghost before = windows@;
                let window = read_client(&items[i], active);
                assert(items@[i as int].tree() == clients.tree()->Array_0[i as int]);
                windows.push(window);
                i = i + 1;
                assert(window_views(windows@) =~= window_views(before).push(window@));
                assert(all.take(i as int) =~= all.take(i - 1).push(all[i - 1]));
            }
            assert(all.take(i as int) =~= all);
        },
        None => {
            assert(window_views(windows@) =~= all);
        },
    }
    windows
}

/// The address that Hyprland's answer to `activewindow` gives; the empty text if there is no
/// answer, or none that can be read.
pub open spec fn active_address(answer: Option<JsonTree>) -> Seq<char> {
    match answer {
        Some(tree) => tree.at("address"@).text_or_empty(),
        None => Seq::empty(),
    }
}

/// What Hyprland's answers to `clients` and `activewindow` come to, once they have been read.
pub open spec fn hyprland_result(
    clients: Result<JsonTree, Seq<char>>,
    active: Option<JsonTree>,
) -> Result<Seq<WindowView>, Reason> {
    match clients {
        Ok(tree) => Ok(hyprland_list(tree, active_address(active))),
        Err(words) => Err(Reason::Message("could not parse hyprctl output: "@ + words)),
    }
}

/// The windows in Hyprland's answers to `clients` and `activewindow`, once they have been read.
pub fn hyprland_read(clients: Result<Json, String>, active: Option<Json>) -> (windows: Result<
    Vec<WindowInfo>,
    NovaError,
>)
    ensures
        hyprland_result(
            match clients {
                Ok(json) => Ok(json.tree()),
                Err(words) => Err(words@),
            },
            match active {
                Some(json) => Some(json.tree()),
                None => None,
            },
        ) == match windows {
            Ok(windows) => Ok::<Seq<WindowView>, Reason>(window_views(windows@)),
            Err(error) => Err::<Seq<WindowView>, Reason>(error@),
        },
{
    let address = match &active {
        Some(json) => read_text(json.get("address")),
        None => String::new(),
    };
    match clients {
        Ok(json) => Ok(hyprland_clients(&json, address.as_str())),
        Err(words) => {
            let mut message = "could not parse hyprctl output: ".to_owned();
            message.append(words.as_str());
            Err(NovaError::Message(message))
        },
    }
}

/// The document that an answer holds, if there is one and it can be read.
pub open spec fn readable(answer: Option<Seq<char>>) -> Option<JsonTree> {
    match answer {
        Some(text) => match parsed_text(text) {
            Ok(tree) => Some(tree),
            Err(_) => None,
        },
        None => None,
    }
}

/// What Hyprland's answers to `clients` and `activewindow` come to.
pub open spec fn hyprland_outcome(clients: Seq<char>, active: Option<Seq<char>>) -> Result<
    Seq<WindowView>,
    Reason,
> {
    hyprland_result(parsed_text(clients), readable(active))
}

/// The windows in Hyprland's answers to `clients` and `activewindow`.
pub fn hyprland_windows(clients: &str, active: Option<&str>) -> (windows: Result<
    Vec<WindowInfo>,
    NovaError,
>)
    ensures
        hyprland_outcome(
            clients@,
            match active {
                Some(text) => Some(text@),
                None => None,
            },
        ) == match windows {
            Ok(windows) => Ok::<Seq<WindowView>, Reason>(window_views(windows@)),
            Err(error) => Err::<Seq<WindowView>, Reason>(error@),
        },
{
    let active = match active {
        Some(text) => match parse_json(text) {
            Ok(json) => Some(json),
            Err(_) => None,
        },
        None => None,
    };
    hyprland_read(parse_json(clients), active)
}

/// Every client of Hyprland is listed, in its order, and nothing else is.
pub proof fn lemma_hyprland_lists_every_client(clients: Seq<JsonTree>, active: Seq<char>, i: int)
    requires
        0 <= i < clients.len(),
    ensures
        hyprland_list(JsonTree::Array(clients), active).len() == clients.len(),
        hyprland_list(JsonTree::Array(clients), active)[i] == hyprland_window(clients[i], active),
{
}

/// A window of Hyprland is tagged as focused exactly if it has the active address; where the
/// active window is not known, none is.
pub proof fn lemma_hyprland_focus_follows_address(
    clients: JsonTree,
    answer: Option<JsonTree>,
    i: int,
)
    requires
        0 <= i < hyprland_list(clients, active_address(answer)).len(),
    ensures
        ({
            let active = active_address(answer);
            let window = hyprland_list(clients, active)[i];
            &&& window.focused <==> active.len() > 0 && window.id == active
            &&& answer is None ==> !window.focused
        }),
{
}

/* ── Sway ───────────────────────────────────────────────────────── */

/// Whether a document is a list with an item in it.
pub open spec fn has_items(tree: JsonTree) -> bool {
    tree is Array && tree->Array_0.len() > 0
}

/// Whether a node of the tree is a leaf: one without tiled or floating children.
pub open spec fn is_leaf(node: JsonTree) -> bool {
    !has_items(node.at("nodes"@)) && !has_items(node.at("floating_nodes"@))
}

/// Whether a node of the tree is a window: a leaf container that belongs to an application.
pub open spec fn is_view(node: JsonTree) -> bool {
    &&& is_leaf(node)
    &&& node.at("type"@) == JsonTree::Text("con"@) || node.at("type"@) == JsonTree::Text(
        "floating_con"@,
    )
    &&& (node.get("app_id"@) is Some && !(node.at("app_id"@) is Null)) || node.get(
        "window_properties"@,
    ) is Some
}

/// The application that a node of the tree belongs to.
pub open spec fn app_name(node: JsonTree) -> Seq<char> {
    match node.at("app_id"@) {
        JsonTree::Text(app) => app,
        _ => node.at("window_properties"@).at("class"@).text_or_empty(),
    }
}

/// The identifier of a node of the tree; zero if it has none.
pub open spec fn node_id(node: JsonTree) -> i64 {
    match node.at("id"@).as_i64() {
        Some(id) => id,
        None => 0,
    }
}

/// The window that a node of the tree is, where the node `focused` has the focus.
pub open spec fn sway_window(node: JsonTree, focused: i64) -> WindowView {
    let rect = node.at("rect"@);
    WindowView {
        id: decimal(node_id(node) as int),
        title: node.at("name"@).text_or_empty(),
        app: app_name(node),
        x: measure(rect.at("x"@)),
        y: measure(rect.at("y"@)),
        w: measure(rect.at("width"@)),
        h: measure(rect.at("height"@)),
        focused: node_id(node) == focused,
    }
}

/// The windows below some nodes of the tree, in order.
pub open spec fn sway_list_below(nodes: Seq<JsonTree>, focused: i64) -> Seq<WindowView>
    decreases nodes, 0nat,
{
    if nodes.len() == 0 {
        Seq::empty()
    } else {
        sway_list_below(nodes.drop_last(), focused) + sway_list(nodes.last(), focused)
    }
}

/// The windows below the children that a node of the tree has under a name.
pub open spec fn sway_list_under(node: JsonTree, name: Seq<char>, focused: i64) -> Seq<WindowView>
    decreases node, 0nat,
{
    match node.at(name) {
        JsonTree::Array(nodes) => {
            proof {
                lemma_items_smaller(node, name);
            }
            sway_list_below(nodes, focused)
        },
        _ => Seq::empty(),
    }
}

/// The window that a node of the tree is itself, if it is one.
pub open spec fn own_window(node: JsonTree, focused: i64) -> Seq<WindowView> {
    if is_view(node) {
        seq![sway_window(node, focused)]
    } else {
        Seq::empty()
    }
}

/// The windows of the tree: the node itself, if it is a window, then those below its tiled
/// children, then those below its floating children.
pub open spec fn sway_list(node: JsonTree, focused: i64) -> Seq<WindowView>
    decreases node, 1nat,
{
    own_window(node, focused) + sway_list_under(node, "nodes"@, focused) + sway_list_under(
        node,
        "floating_nodes"@,
        focused,
    )
}

/// The identifier that some nodes of the tree give for the focused one, the first first.
pub open spec fn focused_below(nodes: Seq<JsonTree>) -> Option<i64>
    decreases nodes,
{
    if nodes.len() == 0 {
        None
    } else {
        match focused_node(nodes[0]) {
            Some(id) => Some(id),
            None => focused_below(nodes.skip(1)),
        }
    }
}

/// The identifier of the focused node: that of the node itself, if it is marked, else what its
/// tiled children give, else what its floating children give.
pub open spec fn focused_node(node: JsonTree) -> Option<i64>
    decreases node,
{
    if node.at("focused"@) == JsonTree::Bool(true) {
        node.at("id"@).as_i64()
    } else {
        let tiled = match node.at("nodes"@) {
            JsonTree::Array(nodes) => {
                proof {
                    lemma_items_smaller(node, "nodes"@);
                }
                focused_below(nodes)
            },
            _ => None,
        };
        match tiled {
            Some(id) => Some(id),
            None => match node.at("floating_nodes"@) {
                JsonTree::Array(nodes) => {
                    proof {
                        lemma_items_smaller(node, "floating_nodes"@);
                    }
                    focused_below(nodes)
                },
                _ => None,
            },
        }
    }
}

fn empty_below(node: &Json, name: &str) -> (yes: bool)
    ensures
        yes == !has_items(node.tree().at(name@)),
{
    match node.get(name) {
        Some(children) => match children.as_array() {
            Some(items) => items.len() == 0,
            None => true,
        },
        None => true,
    }
}

fn view_node(node: &Json) -> (yes: bool)
    ensures
        yes == is_view(node.tree()),
{
    let container = match node.get("type") {
        Some(kind) => match kind.as_str() {
            Some(kind) => same_text(kind, "con") || same_text(kind, "floating_con"),
            None => false,
        },
        None => false,
    };
    let has_app = match node.get("app_id") {
        Some(Json::Null) => node.get("window_properties").is_some(),
        Some(_) => true,
        None => node.get("window_properties").is_some(),
    };
    container && has_app && empty_below(node, "nodes") && empty_below(node, "floating_nodes")
}

fn read_app(node: &Json) -> (app: String)
    ensures
        app@ == app_name(node.tree()),
{
    let direct = match node.get("app_id") {
        Some(app) => app.as_str(),
        None => None,
    };
    match direct {
        Some(app) => app.to_owned(),
        None => match node.get("window_properties") {
            Some(properties) => read_text(properties.get("class")),
            None => String::new(),
        },
    }
}

fn read_id(node: &Json) -> (id: i64)
    ensures
        id == node_id(node.tree()),
{
    match node.get("id") {
        Some(id) => match id.as_i64() {
            Some(id) => id,
            None => 0,
        },
        None => 0,
    }
}

fn read_node(node: &Json, focused_id: i64) -> (window: WindowInfo)
    ensures
        window@ == sway_window(node.tree(), focused_id),
{
    let id = read_id(node);
    let null = Json::Null;
    let rect = match node.get("rect") {
        Some(rect) => rect,
        None => &null,
    };
    WindowInfo {
        id: decimal_text(id),
        title: read_text(node.get("name")),
        app: read_app(node),
        x: read_measure(rect.get("x")),
        y: read_measure(rect.get("y")),
        w: read_measure(rect.get("width")),
        h: read_measure(rect.get("height")),
        focused: id == focused_id,
    }
}

proof fn lemma_window_views_push(list: Seq<WindowInfo>, window: WindowInfo)
    ensures
        window_views(list.push(window)) == window_views(list).push(window@),
{
    assert(window_views(list.push(window)) =~= window_views(list).push(window@));
}

fn sway_collect_below(
    nodes: &Vec<Json>,
    focused_id: i64,
    out: &mut Vec<WindowInfo>,
    Ghost(trees): Ghost<Seq<JsonTree>>,
)
    requires
        trees.len() == nodes@.len(),
        forall|i: int| 0 <= i < nodes@.len() ==> #[trigger] nodes@[i].tree() == trees[i],
    ensures
        window_views(final(out)@) == window_views(old(out)@) + sway_list_below(trees, focused_id),
    decreases trees,
{
    let ghost front = window_views(out@);
    let mut i: usize = 0;
    assert(front + sway_list_below(trees.take(0), focused_id) =~= front);
    while i < nodes.len()
        invariant
            trees.len() == nodes@.len(),
            forall|i: int| 0 <= i < nodes@.len() ==> #[trigger] nodes@[i].tree() == trees[i],
            i <= nodes@.len(),
            window_views(out@) == front + sway_list_below(trees.take(i as int), focused_id),
        decreases nodes.len() - i,
    {
        assert(nodes@[i as int].tree() == trees[i as int]);
        assert(decreases_to!(trees => trees[i as int]));
        sway_collect(&nodes[i], focused_id, out);
        i = i + 1;
        assert(trees.take(i as int).drop_last() =~= trees.take(i - 1));
        assert(window_views(out@) =~= front + sway_list_below(trees.take(i as int), focused_id));
    }
    assert(trees.take(i as int) =~= trees);
}

/// Walks the Sway tree and collects its leaf views.
pub fn sway_collect(node: &Json, focused_id: i64, out: &mut Vec<WindowInfo>)
    ensures
        window_views(final(out)@) == window_views(old(out)@) + sway_list(node.tree(), focused_id),
    decreases node.tree(),
{
    let ghost tree = node.tree();
    let ghost front = window_views(out@);
    if view_node(node) {
        let window = read_node(node, focused_id);
        proof {
            lemma_window_views_push(out@, window);
        }
        out.push(window);
    }
    let ghost own = own_window(tree, focused_id);
    let ghost tiled = sway_list_under(tree, "nodes"@, focused_id);
    let ghost floating = sway_list_under(tree, "floating_nodes"@, focused_id);
    assert(window_views(out@) =~= front + own);
    if let Some(children) = node.get("nodes") {
        if let Some(nodes) = children.as_array() {
            proof {
                lemma_items_smaller(tree, "nodes"@);
            }
            sway_collect_below(nodes, focused_id, out, Ghost(tree.at("nodes"@)->Array_0));
        }
    }
    assert(window_views(out@) =~= front + own + tiled);
    if let Some(children) = node.get("floating_nodes") {
        if let Some(nodes) = children.as_array() {
            proof {
                lemma_items_smaller(tree, "floating_nodes"@);
            }
            sway_collect_below(nodes, focused_id, out, Ghost(tree.at("floating_nodes"@)->Array_0));
        }
    }
    assert(window_views(out@) =~= front + own + tiled + floating);
    assert(window_views(out@) =~= front + sway_list(tree, focused_id));
}

fn find_focused_below(nodes: &Vec<Json>, Ghost(trees): Ghost<Seq<JsonTree>>) -> (id: Option<i64>)
    requires
        trees.len() == nodes@.len(),
        forall|i: int| 0 <= i < nodes@.len() ==> #[trigger] nodes@[i].tree() == trees[i],
    ensures
        id == focused_below(trees),
    decreases trees,
{
    let mut i: usize = 0;
    assert(trees.skip(0) =~= trees);
    while i < nodes.len()
        invariant
            trees.len() == nodes@.len(),
            forall|i: int| 0 <= i < nodes@.len() ==> #[trigger] nodes@[i].tree() == trees[i],
            i <= nodes@.len(),
            focused_below(trees) == focused_below(trees.skip(i as int)),
        decreases nodes.len() - i,
    {
        assert(nodes@[i as int].tree() == trees[i as int]);
        assert(decreases_to!(trees => trees[i as int]));
        assert(trees.skip(i as int)[0] == trees[i as int]);
        assert(trees.skip(i as int).skip(1) =~= trees.skip(i + 1));
        if let Some(id) = find_focused(&nodes[i]) {
            return Some(id);
        }
        i = i + 1;
    }
    None
}

/// The identifier of the focused node of the Sway tree.
pub fn find_focused(node: &Json) -> (id: Option<i64>)
    ensures
        id == focused_node(node.tree()),
    decreases node.tree(),
{
    let ghost tree = node.tree();
    if let Some(Json::Bool(true)) = node.get("focused") {
        return match node.get("id") {
            Some(id) => id.as_i64(),
            None => None,
        };
    }
    if let Some(children) = node.get("nodes") {
        if let Some(nodes) = children.as_array() {
            proof {
                lemma_items_smaller(tree, "nodes"@);
            }
            if let Some(id) = find_focused_below(nodes, Ghost(tree.at("nodes"@)->Array_0)) {
                return Some(id);
            }
        }
    }
    if let Some(children) = node.get("floating_nodes") {
        if let Some(nodes) = children.as_array() {
            proof {
                lemma_items_smaller(tree, "floating_nodes"@);
            }
            return find_focused_below(nodes, Ghost(tree.at("floating_nodes"@)->Array_0));
        }
    }
    None
}

/// The identifier that marks the focused window: that of the focused node, or -1.
pub open spec fn focus_mark(tree: JsonTree) -> i64 {
    match focused_node(tree) {
        Some(id) => id,
        None => -1i64,
    }
}

/// The windows of a Sway tree. The tree marks the focused node inline, so it is found first and
/// the walk can tag the right window.
pub fn sway_tree_windows(tree: &Json) -> (windows: Vec<WindowInfo>)
    ensures
        window_views(windows@) == sway_list(tree.tree(), focus_mark(tree.tree())),
{
    let focused_id = match find_focused(tree) {
        Some(id) => id,
        None => -1,
    };
    let mut windows: Vec<WindowInfo> = Vec::new();
    assert(window_views(windows@) =~= Seq::<WindowView>::empty());
    sway_collect(tree, focused_id, &mut windows);
    assert(window_views(windows@) =~= sway_list(tree.tree(), focused_id));
    windows
}

/// What Sway's answer to `get_tree` comes to, once it has been read.
pub open spec fn sway_result(answer: Result<JsonTree, Seq<char>>) -> Result<
    Seq<WindowView>,
    Reason,
> {
    match answer {
        Ok(tree) => Ok(sway_list(tree, focus_mark(tree))),
        Err(words) => Err(Reason::Message("could not parse swaymsg output: "@ + words)),
    }
}

/// The windows in Sway's answer to `get_tree`, once it has been read.
pub fn sway_read(answer: Result<Json, String>) -> (windows: Result<Vec<WindowInfo>, NovaError>)
    ensures
        sway_result(
            match answer {
                Ok(json) => Ok(json.tree()),
                Err(words) => Err(words@),
            },
        ) == match windows {
            Ok(windows) => Ok::<Seq<WindowView>, Reason>(window_views(windows@)),
            Err(error) => Err::<Seq<WindowView>, Reason>(error@),
        },
{
    match answer {
        Ok(json) => Ok(sway_tree_windows(&json)),
        Err(words) => {
            let mut message = "could not parse swaymsg output: ".to_owned();
            message.append(words.as_str());
            Err(NovaError::Message(message))
        },
    }
}

/// What Sway's answer to `get_tree` comes to.
pub open spec fn sway_outcome(answer: Seq<char>) -> Result<Seq<WindowView>, Reason> {
    sway_result(parsed_text(answer))
}

/// The windows in Sway's answer to `get_tree`.
pub fn sway_windows(answer: &str) -> (windows: Result<Vec<WindowInfo>, NovaError>)
    ensures
        sway_outcome(answer@) == match windows {
            Ok(windows) => Ok::<Seq<WindowView>, Reason>(window_views(windows@)),
            Err(error) => Err::<Seq<WindowView>, Reason>(error@),
        },
{
    sway_read(parse_json(answer))
}

/* ── What the Sway list holds ───────────────────────────────────── */

/// Whether a node lies at or below one of some nodes of the tree.
pub open spec fn reaches_below(nodes: Seq<JsonTree>, node: JsonTree) -> bool
    decreases nodes,
{
    nodes.len() > 0 && (reaches(nodes.last(), node) || reaches_below(nodes.drop_last(), node))
}

/// Whether a node lies at or below another, by way of tiled and floating children.
pub open spec fn reaches(from: JsonTree, node: JsonTree) -> bool
    decreases from,
{
    ||| from == node
    ||| match from.at("nodes"@) {
        JsonTree::Array(nodes) => {
            proof {
                lemma_items_smaller(from, "nodes"@);
            }
            reaches_below(nodes, node)
        },
        _ => false,
    }
    ||| match from.at("floating_nodes"@) {
        JsonTree::Array(nodes) => {
            proof {
                lemma_items_smaller(from, "floating_nodes"@);
            }
            reaches_below(nodes, node)
        },
        _ => false,
    }
}

/// Every window of a Sway tree is listed.
pub proof fn lemma_sway_lists_every_window(tree: JsonTree, focused: i64, node: JsonTree)
    requires
        reaches(tree, node),
        is_view(node),
    ensures
        sway_list(tree, focused).contains(sway_window(node, focused)),
    decreases tree,
{
    let all = sway_list(tree, focused);
    let window = sway_window(node, focused);
    let own = own_window(tree, focused);
    let tiled = sway_list_under(tree, "nodes"@, focused);
    let floating = sway_list_under(tree, "floating_nodes"@, focused);
    if tree == node {
        assert(all[0] == window);
    } else if tree.at("nodes"@) is Array && reaches_below(tree.at("nodes"@)->Array_0, node) {
        lemma_items_smaller(tree, "nodes"@);
        lemma_sway_lists_every_window_below(tree.at("nodes"@)->Array_0, focused, node);
        let i = choose|i: int| 0 <= i < tiled.len() && tiled[i] == window;
        assert(all[own.len() + i] == window);
    } else {
        lemma_items_smaller(tree, "floating_nodes"@);
        lemma_sway_lists_every_window_below(tree.at("floating_nodes"@)->Array_0, focused, node);
        let i = choose|i: int| 0 <= i < floating.len() && floating[i] == window;
        assert(all[own.len() + tiled.len() + i] == window);
    }
}

proof fn lemma_sway_lists_every_window_below(nodes: Seq<JsonTree>, focused: i64, node: JsonTree)
    requires
        reaches_below(nodes, node),
        is_view(node),
    ensures
        sway_list_below(nodes, focused).contains(sway_window(node, focused)),
    decreases nodes,
{
    let all = sway_list_below(nodes, focused);
    let before = sway_list_below(nodes.drop_last(), focused);
    let window = sway_window(node, focused);
    if reaches(nodes.last(), node) {
        lemma_sway_lists_every_window(nodes.last(), focused, node);
        let last = sway_list(nodes.last(), focused);
        let i = choose|i: int| 0 <= i < last.len() && last[i] == window;
        assert(all[before.len() + i] == window);
    } else {
        lemma_sway_lists_every_window_below(nodes.drop_last(), focused, node);
        let i = choose|i: int| 0 <= i < before.len() && before[i] == window;
        assert(all[i] == window);
    }
}

/// Nothing but the windows of a Sway tree is listed.
pub proof fn lemma_sway_lists_only_windows(tree: JsonTree, focused: i64, i: int)
    requires
        0 <= i < sway_list(tree, focused).len(),
    ensures
        exists|node: JsonTree|
            #[trigger] reaches(tree, node) && is_view(node) && sway_list(tree, focused)[i]
                == sway_window(node, focused),
    decreases tree,
{
    let all = sway_list(tree, focused);
    let own = own_window(tree, focused);
    let tiled = sway_list_under(tree, "nodes"@, focused);
    let floating = sway_list_under(tree, "floating_nodes"@, focused);
    if i < own.len() {
        assert(reaches(tree, tree));
        assert(all[i] == sway_window(tree, focused));
    } else if i < own.len() + tiled.len() {
        let nodes = tree.at("nodes"@)->Array_0;
        lemma_items_smaller(tree, "nodes"@);
        lemma_sway_lists_only_windows_below(nodes, focused, i - own.len());
        let node = choose|node: JsonTree|
            #[trigger] reaches_below(nodes, node) && is_view(node) && tiled[i - own.len()]
                == sway_window(node, focused);
        assert(reaches(tree, node));
        assert(all[i] == tiled[i - own.len()]);
    } else {
        let nodes = tree.at("floating_nodes"@)->Array_0;
        let k = i - own.len() - tiled.len();
        lemma_items_smaller(tree, "floating_nodes"@);
        lemma_sway_lists_only_windows_below(nodes, focused, k);
        let node = choose|node: JsonTree|
            #[trigger] reaches_below(nodes, node) && is_view(node) && floating[k] == sway_window(
                node,
                focused,
            );
        assert(reaches(tree, node));
        assert(all[i] == floating[k]);
    }
}

proof fn lemma_sway_lists_only_windows_below(nodes: Seq<JsonTree>, focused: i64, i: int)
    requires
        0 <= i < sway_list_below(nodes, focused).len(),
    ensures
        exists|node: JsonTree|
            #[trigger] reaches_below(nodes, node) && is_view(node) && sway_list_below(
                nodes,
                focused,
            )[i] == sway_window(node, focused),
    decreases nodes,
{
    let before = sway_list_below(nodes.drop_last(), focused);
    let last = sway_list(nodes.last(), focused);
    if i < before.len() {
        lemma_sway_lists_only_windows_below(nodes.drop_last(), focused, i);
        let node = choose|node: JsonTree|
            #[trigger] reaches_below(nodes.drop_last(), node) && is_view(node) && before[i]
                == sway_window(node, focused);
        assert(reaches_below(nodes, node));
    } else {
        lemma_sway_lists_only_windows(nodes.last(), focused, i - before.len());
        let node = choose|node: JsonTree|
            #[trigger] reaches(nodes.last(), node) && is_view(node) && last[i - before.len()]
                == sway_window(node, focused);
        assert(reaches_below(nodes, node));
    }
}

proof fn lemma_reaches_from_front(nodes: Seq<JsonTree>, node: JsonTree)
    requires
        nodes.len() > 0,
        reaches(nodes[0], node) || reaches_below(nodes.skip(1), node),
    ensures
        reaches_below(nodes, node),
    decreases nodes.len(),
{
    let rest = nodes.skip(1);
    if rest.len() == 0 {
        assert(nodes.last() == nodes[0]);
    } else {
        assert(rest.last() == nodes.last());
        assert(rest.drop_last() =~= nodes.drop_last().skip(1));
        if !reaches(nodes.last(), node) {
            assert(nodes.drop_last()[0] == nodes[0]);
            lemma_reaches_from_front(nodes.drop_last(), node);
        }
    }
}

/// The focused node that is found is a node of the tree that is marked as focused.
pub proof fn lemma_focused_node_is_marked(tree: JsonTree)
    requires
        focused_node(tree) is Some,
    ensures
        exists|node: JsonTree|
            #[trigger] reaches(tree, node) && node.at("focused"@) == JsonTree::Bool(true)
                && node.at("id"@).as_i64() == focused_node(tree),
    decreases tree,
{
    if tree.at("focused"@) == JsonTree::Bool(true) {
        assert(reaches(tree, tree));
    } else if tree.at("nodes"@) is Array && focused_below(tree.at("nodes"@)->Array_0) is Some {
        let nodes = tree.at("nodes"@)->Array_0;
        lemma_items_smaller(tree, "nodes"@);
        lemma_focused_below_is_marked(nodes);
        let node = choose|node: JsonTree|
            #[trigger] reaches_below(nodes, node) && node.at("focused"@) == JsonTree::Bool(true)
                && node.at("id"@).as_i64() == focused_below(nodes);
        assert(reaches(tree, node));
    } else {
        let nodes = tree.at("floating_nodes"@)->Array_0;
        lemma_items_smaller(tree, "floating_nodes"@);
        lemma_focused_below_is_marked(nodes);
        let node = choose|node: JsonTree|
            #[trigger] reaches_below(nodes, node) && node.at("focused"@) == JsonTree::Bool(true)
                && node.at("id"@).as_i64() == focused_below(nodes);
        assert(reaches(tree, node));
    }
}

proof fn lemma_focused_below_is_marked(nodes: Seq<JsonTree>)
    requires
        focused_below(nodes) is Some,
    ensures
        exists|node: JsonTree|
            #[trigger] reaches_below(nodes, node) && node.at("focused"@) == JsonTree::Bool(true)
                && node.at("id"@).as_i64() == focused_below(nodes),
    decreases nodes,
{
    if focused_node(nodes[0]) is Some {
        lemma_focused_node_is_marked(nodes[0]);
        let node = choose|node: JsonTree|
            #[trigger] reaches(nodes[0], node) && node.at("focused"@) == JsonTree::Bool(true)
                && node.at("id"@).as_i64() == focused_node(nodes[0]);
        lemma_reaches_from_front(nodes, node);
    } else {
        lemma_focused_below_is_marked(nodes.skip(1));
        let node = choose|node: JsonTree|
            #[trigger] reaches_below(nodes.skip(1), node) && node.at("focused"@)
                == JsonTree::Bool(true) && node.at("id"@).as_i64() == focused_below(nodes.skip(1));
        lemma_reaches_from_front(nodes, node);
    }
}

/// In a Sway list, a window is tagged as focused exactly if it has the identifier of the focused
/// node.
pub proof fn lemma_sway_focus_follows_identifier(tree: JsonTree, focused: i64, i: int)
    requires
        0 <= i < sway_list(tree, focused).len(),
    ensures
        sway_list(tree, focused)[i].focused <==> sway_list(tree, focused)[i].id == decimal(
            focused as int,
        ),
{
    lemma_sway_lists_only_windows(tree, focused, i);
    let node = choose|node: JsonTree|
        #[trigger] reaches(tree, node) && is_view(node) && sway_list(tree, focused)[i]
            == sway_window(node, focused);
    if decimal(node_id(node) as int) == decimal(focused as int) {
        lemma_decimal_injective(node_id(node) as int, focused as int);
    }
}

/* ── What a window tells ────────────────────────────────────────── */

/// A coordinate or size is the number that the document gives, if an `i32` can hold it; otherwise it
/// differs from that number by a multiple of 2^32. What is no integer counts as zero.
pub proof fn lemma_measure_is_the_number(tree: JsonTree)
    ensures
        match tree.as_i64() {
            Some(value) => {
                &&& (measure(tree) - value) % 0x1_0000_0000 == 0
                &&& i32::MIN <= value <= i32::MAX ==> measure(tree) == value
            },
            None => measure(tree) == 0,
        },
{
}

/// Whether a document is a text, or else some text is empty.
pub open spec fn tells(tree: JsonTree, text: Seq<char>) -> bool {
    match tree {
        JsonTree::Text(told) => text == told,
        _ => text.len() == 0,
    }
}

/// Whether an item of a list is a number that some measure is, or else the measure is zero.
pub open spec fn measures(list: JsonTree, index: int, value: i32) -> bool {
    match list {
        JsonTree::Array(items) => if index < items.len() {
            value == measure(items[index])
        } else {
            value == 0
        },
        _ => value == 0,
    }
}

/// A window of Hyprland has the identifier, title, application, position and size that the client
/// gives under `address`, `title`, `class`, `at` and `size`, and it has the focus exactly if its
/// address is not empty and is the active one.
pub proof fn lemma_hyprland_window_tells(client: JsonTree, active: Seq<char>)
    ensures
        ({
            let window = hyprland_window(client, active);
            &&& tells(client.at("address"@), window.id)
            &&& tells(client.at("title"@), window.title)
            &&& tells(client.at("class"@), window.app)
            &&& measures(client.at("at"@), 0, window.x)
            &&& measures(client.at("at"@), 1, window.y)
            &&& measures(client.at("size"@), 0, window.w)
            &&& measures(client.at("size"@), 1, window.h)
            &&& window.focused <==> client.at("address"@) == JsonTree::Text(active)
                && active.len() > 0
        }),
{
    if let JsonTree::Text(address) = client.at("address"@) {
        if address == active {
            assert(client.at("address"@) == JsonTree::Text(active));
        }
    }
}

/// A window of Sway has the identifier, title, position and size that its node gives under `id`,
/// `name` and `rect`. Its application is the `app_id`, or else the class of its X11 properties. It
/// has the focus exactly if its identifier is that of the focused node.
pub proof fn lemma_sway_window_tells(node: JsonTree, focused: i64)
    ensures
        ({
            let window = sway_window(node, focused);
            let rect = node.at("rect"@);
            &&& node.at("id"@).as_i64() matches Some(id) ==> window.id == decimal(id as int) && (
            window.focused <==> id == focused)
            &&& node.at("id"@).as_i64() is None ==> window.id == decimal(0) && (window.focused
                <==> focused == 0)
            &&& tells(node.at("name"@), window.title)
            &&& node.at("app_id"@) is Text ==> JsonTree::Text(window.app) == node.at("app_id"@)
            &&& !(node.at("app_id"@) is Text) ==> tells(
                node.at("window_properties"@).at("class"@),
                window.app,
            )
            &&& window.x == measure(rect.at("x"@))
            &&& window.y == measure(rect.at("y"@))
            &&& window.w == measure(rect.at("width"@))
            &&& window.h == measure(rect.at("height"@))
        }),
{
}

/// Whether a node is a child that another has under a name.
pub open spec fn is_child(node: JsonTree, name: Seq<char>, child: JsonTree) -> bool {
    match node.at(name) {
        JsonTree::Array(nodes) => nodes.contains(child),
        _ => false,
    }
}

/// A node is a window exactly if it is a container, tiled or floating, has no children of either
/// kind, and belongs to an application: it has an `app_id` that is not null, or X11 properties.
pub proof fn lemma_what_a_window_is(node: JsonTree)
    ensures
        ({
            let container = node.at("type"@) == JsonTree::Text("con"@) || node.at("type"@)
                == JsonTree::Text("floating_con"@);
            let native = node.get("app_id"@) is Some && node.get("app_id"@)
                != Some(JsonTree::Null);
            let x11 = node.get("window_properties"@) is Some;
            let parent = (exists|child: JsonTree| is_child(node, "nodes"@, child)) || (exists|
                child: JsonTree,
            | is_child(node, "floating_nodes"@, child));
            is_view(node) <==> container && (native || x11) && !parent
        }),
{
    if has_items(node.at("nodes"@)) {
        assert(is_child(node, "nodes"@, node.at("nodes"@)->Array_0[0]));
    }
    if has_items(node.at("floating_nodes"@)) {
        assert(is_child(node, "floating_nodes"@, node.at("floating_nodes"@)->Array_0[0]));
    }
}

/* ── The Sway tree in order ─────────────────────────────────────── */

/// Some nodes of the tree and all below them, in order.
pub open spec fn all_nodes_below(nodes: Seq<JsonTree>) -> Seq<JsonTree>
    decreases nodes, 0nat,
{
    if nodes.len() == 0 {
        Seq::empty()
    } else {
        all_nodes_below(nodes.drop_last()) + all_nodes(nodes.last())
    }
}

/// The children that a node has under a name and all below them, in order.
pub open spec fn all_nodes_under(node: JsonTree, name: Seq<char>) -> Seq<JsonTree>
    decreases node, 0nat,
{
    match node.at(name) {
        JsonTree::Array(nodes) => {
            proof {
                lemma_items_smaller(node, name);
            }
            all_nodes_below(nodes)
        },
        _ => Seq::empty(),
    }
}

/// A node of the tree and all below it: first the node, then its tiled children and all below them,
/// then its floating children and all below them.
pub open spec fn all_nodes(node: JsonTree) -> Seq<JsonTree>
    decreases node, 1nat,
{
    seq![node] + all_nodes_under(node, "nodes"@) + all_nodes_under(node, "floating_nodes"@)
}

/// The windows among some nodes, in order.
pub open spec fn windows_among(nodes: Seq<JsonTree>, focused: i64) -> Seq<WindowView> {
    nodes.filter(|n: JsonTree| is_view(n)).map_values(|n: JsonTree| sway_window(n, focused))
}

proof fn lemma_windows_among_add(a: Seq<JsonTree>, b: Seq<JsonTree>, focused: i64)
    ensures
        windows_among(a + b, focused) == windows_among(a, focused) + windows_among(b, focused),
{
    let views = |n: JsonTree| is_view(n);
    Seq::filter_distributes_over_add(a, b, views);
    assert(windows_among(a + b, focused) =~= windows_among(a, focused) + windows_among(b, focused));
}

/// The windows of a Sway tree are those of its nodes that are windows: each once, in the order of
/// the tree, and nothing else.
pub proof fn lemma_sway_lists_the_tree(tree: JsonTree, focused: i64)
    ensures
        sway_list(tree, focused) == windows_among(all_nodes(tree), focused),
    decreases tree, 1nat,
{
    lemma_sway_lists_the_tree_under(tree, "nodes"@, focused);
    lemma_sway_lists_the_tree_under(tree, "floating_nodes"@, focused);
    let (own, tiled, floating) = (
        seq![tree],
        all_nodes_under(tree, "nodes"@),
        all_nodes_under(tree, "floating_nodes"@),
    );
    lemma_windows_among_add(own + tiled, floating, focused);
    lemma_windows_among_add(own, tiled, focused);
    reveal(Seq::filter);
    assert(own.drop_last() =~= Seq::<JsonTree>::empty());
    let views = |n: JsonTree| is_view(n);
    assert(own.drop_last().filter(views) =~= Seq::<JsonTree>::empty());
    assert(own.filter(views) =~= if is_view(tree) {
        seq![tree]
    } else {
        Seq::empty()
    });
    assert(windows_among(own, focused) =~= own_window(tree, focused));
}

proof fn lemma_sway_lists_the_tree_under(tree: JsonTree, name: Seq<char>, focused: i64)
    ensures
        sway_list_under(tree, name, focused) == windows_among(
            all_nodes_under(tree, name),
            focused,
        ),
    decreases tree, 0nat,
{
    if tree.at(name) is Array {
        lemma_items_smaller(tree, name);
        lemma_sway_lists_the_tree_below(tree.at(name)->Array_0, focused);
    } else {
        reveal(Seq::filter);
        assert(windows_among(Seq::empty(), focused) =~= Seq::<WindowView>::empty());
    }
}

proof fn lemma_sway_lists_the_tree_below(nodes: Seq<JsonTree>, focused: i64)
    ensures
        sway_list_below(nodes, focused) == windows_among(all_nodes_below(nodes), focused),
    decreases nodes, 0nat,
{
    if nodes.len() == 0 {
        reveal(Seq::filter);
        assert(windows_among(Seq::empty(), focused) =~= Seq::<WindowView>::empty());
    } else {
        lemma_sway_lists_the_tree_below(nodes.drop_last(), focused);
        lemma_sway_lists_the_tree(nodes.last(), focused);
        lemma_windows_among_add(
            all_nodes_below(nodes.drop_last()),
            all_nodes(nodes.last()),
            focused,
        );
    }
}

proof fn lemma_all_nodes_reached(tree: JsonTree, node: JsonTree)
    ensures
        all_nodes(tree).contains(node) <==> reaches(tree, node),
    decreases tree, 1nat,
{
    let (own, tiled, floating) = (
        seq![tree],
        all_nodes_under(tree, "nodes"@),
        all_nodes_under(tree, "floating_nodes"@),
    );
    let all = all_nodes(tree);
    if tree.at("nodes"@) is Array {
        lemma_items_smaller(tree, "nodes"@);
        lemma_all_nodes_reached_below(tree.at("nodes"@)->Array_0, node);
    }
    if tree.at("floating_nodes"@) is Array {
        lemma_items_smaller(tree, "floating_nodes"@);
        lemma_all_nodes_reached_below(tree.at("floating_nodes"@)->Array_0, node);
    }
    if all.contains(node) {
        let i = choose|i: int| 0 <= i < all.len() && all[i] == node;
        if i > 0 {
            if i < 1 + tiled.len() {
                assert(tiled[i - 1] == node);
            } else {
                assert(floating[i - 1 - tiled.len()] == node);
            }
        }
    }
    if tree == node {
        assert(all[0] == node);
    }
    if tiled.contains(node) {
        let i = choose|i: int| 0 <= i < tiled.len() && tiled[i] == node;
        assert(all[1 + i] == node);
    }
    if floating.contains(node) {
        let i = choose|i: int| 0 <= i < floating.len() && floating[i] == node;
        assert(all[1 + tiled.len() + i] == node);
    }
}

proof fn lemma_all_nodes_reached_below(nodes: Seq<JsonTree>, node: JsonTree)
    ensures
        all_nodes_below(nodes).contains(node) <==> reaches_below(nodes, node),
    decreases nodes, 0nat,
{
    if nodes.len() > 0 {
        let before = all_nodes_below(nodes.drop_last());
        let last = all_nodes(nodes.last());
        let all = all_nodes_below(nodes);
        lemma_all_nodes_reached_below(nodes.drop_last(), node);
        lemma_all_nodes_reached(nodes.last(), node);
        if all.contains(node) {
            let i = choose|i: int| 0 <= i < all.len() && all[i] == node;
            if i < before.len() {
                assert(before[i] == node);
            } else {
                assert(last[i - before.len()] == node);
            }
        }
        if before.contains(node) {
            let i = choose|i: int| 0 <= i < before.len() && before[i] == node;
            assert(all[i] == node);
        }
        if last.contains(node) {
            let i = choose|i: int| 0 <= i < last.len() && last[i] == node;
            assert(all[before.len() + i] == node);
        }
    }
}

proof fn lemma_all_nodes_from_front(nodes: Seq<JsonTree>)
    requires
        nodes.len() > 0,
    ensures
        all_nodes_below(nodes) == all_nodes(nodes[0]) + all_nodes_below(nodes.skip(1)),
    decreases nodes.len(),
{
    let rest = nodes.skip(1);
    if rest.len() == 0 {
        assert(nodes.drop_last() =~= Seq::<JsonTree>::empty());
        assert(nodes.last() == nodes[0]);
        assert(all_nodes_below(nodes.drop_last()) =~= Seq::<JsonTree>::empty());
        assert(all_nodes_below(rest) =~= Seq::<JsonTree>::empty());
        assert(all_nodes_below(nodes) =~= all_nodes(nodes[0]) + all_nodes_below(rest));
    } else {
        assert(rest.last() == nodes.last());
        assert(rest.drop_last() =~= nodes.drop_last().skip(1));
        assert(nodes.drop_last()[0] == nodes[0]);
        lemma_all_nodes_from_front(nodes.drop_last());
        assert(all_nodes_below(nodes) =~= all_nodes(nodes[0]) + all_nodes_below(rest));
    }
}

/// Whether a node is marked as focused.
pub open spec fn is_marked(node: JsonTree) -> bool {
    node.at("focused"@) == JsonTree::Bool(true)
}

/// Whether every marked node among some has an integer as its identifier.
pub open spec fn marks_have_ids(nodes: Seq<JsonTree>) -> bool {
    forall|i: int|
        0 <= i < nodes.len() && is_marked(#[trigger] nodes[i]) ==> nodes[i].at("id"@).as_i64()
            is Some
}

/// Whether an identifier is that of the first marked node among some; there is none if no node is
/// marked.
pub open spec fn is_first_mark(nodes: Seq<JsonTree>, id: Option<i64>) -> bool {
    match id {
        Some(_) => exists|k: int|
            {
                &&& 0 <= k < nodes.len()
                &&& is_marked(#[trigger] nodes[k])
                &&& nodes[k].at("id"@).as_i64() == id
                &&& forall|i: int| 0 <= i < k ==> !is_marked(#[trigger] nodes[i])
            },
        None => forall|i: int| 0 <= i < nodes.len() ==> !is_marked(#[trigger] nodes[i]),
    }
}

proof fn lemma_first_mark_add(
    a: Seq<JsonTree>,
    b: Seq<JsonTree>,
    first: Option<i64>,
    second: Option<i64>,
)
    requires
        is_first_mark(a, first),
        first is None ==> is_first_mark(b, second),
    ensures
        is_first_mark(
            a + b,
            if first is Some {
                first
            } else {
                second
            },
        ),
{
    let all = a + b;
    if first is Some {
        let k = choose|k: int|
            {
                &&& 0 <= k < a.len()
                &&& is_marked(#[trigger] a[k])
                &&& a[k].at("id"@).as_i64() == first
                &&& forall|i: int| 0 <= i < k ==> !is_marked(#[trigger] a[i])
            };
        assert(all[k] == a[k]);
        assert forall|i: int| 0 <= i < k implies !is_marked(#[trigger] all[i]) by {
            assert(all[i] == a[i]);
        }
    } else {
        assert forall|i: int| 0 <= i < a.len() implies !is_marked(#[trigger] all[i]) by {
            assert(all[i] == a[i]);
        }
        if second is Some {
            let k = choose|k: int|
                {
                    &&& 0 <= k < b.len()
                    &&& is_marked(#[trigger] b[k])
                    &&& b[k].at("id"@).as_i64() == second
                    &&& forall|i: int| 0 <= i < k ==> !is_marked(#[trigger] b[i])
                };
            let at = a.len() + k;
            assert(all[at] == b[k]);
            assert forall|i: int| 0 <= i < at implies !is_marked(#[trigger] all[i]) by {
                if i >= a.len() {
                    assert(all[i] == b[i - a.len()]);
                }
            }
        } else {
            assert forall|i: int| 0 <= i < all.len() implies !is_marked(#[trigger] all[i]) by {
                if i >= a.len() {
                    assert(all[i] == b[i - a.len()]);
                }
            }
        }
    }
}

proof fn lemma_marks_split(a: Seq<JsonTree>, b: Seq<JsonTree>)
    requires
        marks_have_ids(a + b),
    ensures
        marks_have_ids(a),
        marks_have_ids(b),
{
    assert forall|i: int| 0 <= i < a.len() && is_marked(#[trigger] a[i]) implies a[i].at(
        "id"@,
    ).as_i64() is Some by {
        assert((a + b)[i] == a[i]);
    }
    assert forall|i: int| 0 <= i < b.len() && is_marked(#[trigger] b[i]) implies b[i].at(
        "id"@,
    ).as_i64() is Some by {
        assert((a + b)[a.len() + i] == b[i]);
    }
}

/// Where every marked node has an integer as its identifier, the focused node is the first marked
/// one in the order of the tree, wherever in the tree it stands, and none is found only if none is
/// marked.
pub proof fn lemma_first_marked_node_is_focused(tree: JsonTree)
    requires
        marks_have_ids(all_nodes(tree)),
    ensures
        is_first_mark(all_nodes(tree), focused_node(tree)),
    decreases tree, 1nat,
{
    let (own, tiled, floating) = (
        seq![tree],
        all_nodes_under(tree, "nodes"@),
        all_nodes_under(tree, "floating_nodes"@),
    );
    let all = all_nodes(tree);
    assert(all[0] == tree);
    if is_marked(tree) {
        assert(is_first_mark(all, focused_node(tree)));
    } else {
        lemma_marks_split(own + tiled, floating);
        lemma_marks_split(own, tiled);
        let first = if tree.at("nodes"@) is Array {
            lemma_items_smaller(tree, "nodes"@);
            lemma_first_marked_below_is_focused(tree.at("nodes"@)->Array_0);
            focused_below(tree.at("nodes"@)->Array_0)
        } else {
            None
        };
        let second = if tree.at("floating_nodes"@) is Array {
            lemma_items_smaller(tree, "floating_nodes"@);
            lemma_first_marked_below_is_focused(tree.at("floating_nodes"@)->Array_0);
            focused_below(tree.at("floating_nodes"@)->Array_0)
        } else {
            None
        };
        assert(is_first_mark(own, None));
        assert(is_first_mark(tiled, first));
        assert(is_first_mark(floating, second));
        lemma_first_mark_add(own, tiled, None, first);
        lemma_first_mark_add(own + tiled, floating, first, second);
    }
}

proof fn lemma_first_marked_below_is_focused(nodes: Seq<JsonTree>)
    requires
        marks_have_ids(all_nodes_below(nodes)),
    ensures
        is_first_mark(all_nodes_below(nodes), focused_below(nodes)),
    decreases nodes, 0nat,
{
    if nodes.len() > 0 {
        let rest = nodes.skip(1);
        lemma_all_nodes_from_front(nodes);
        lemma_marks_split(all_nodes(nodes[0]), all_nodes_below(rest));
        lemma_first_marked_node_is_focused(nodes[0]);
        lemma_first_marked_below_is_focused(rest);
        lemma_first_mark_add(
            all_nodes(nodes[0]),
            all_nodes_below(rest),
            focused_node(nodes[0]),
            focused_below(rest),
        );
    }
}

/// Whether every marked node that a tree reaches has an integer as its identifier.
pub open spec fn reached_marks_have_ids(tree: JsonTree) -> bool {
    forall|node: JsonTree| #[trigger]
        reaches(tree, node) && is_marked(node) ==> node.at("id"@).as_i64() is Some
}

proof fn lemma_reached_marks(tree: JsonTree)
    requires
        reached_marks_have_ids(tree),
    ensures
        marks_have_ids(all_nodes(tree)),
{
    let all = all_nodes(tree);
    assert forall|i: int| 0 <= i < all.len() && is_marked(#[trigger] all[i]) implies all[i].at(
        "id"@,
    ).as_i64() is Some by {
        assert(all.contains(all[i]));
        lemma_all_nodes_reached(tree, all[i]);
    }
}

/// A marked node that is reached from the root, by tiled or by floating children, does not go
/// unnoticed: a focused node is found.
pub proof fn lemma_marked_node_is_found(tree: JsonTree, node: JsonTree)
    requires
        reached_marks_have_ids(tree),
        reaches(tree, node),
        is_marked(node),
    ensures
        focused_node(tree) is Some,
{
    lemma_reached_marks(tree);
    lemma_first_marked_node_is_focused(tree);
    lemma_all_nodes_reached(tree, node);
    let all = all_nodes(tree);
    let i = choose|i: int| 0 <= i < all.len() && all[i] == node;
    assert(is_marked(all[i]));
}

/// The window whose node is the only marked one is listed with the focus, and a window with another
/// identifier is listed without it.
pub proof fn lemma_only_marked_window_has_focus(tree: JsonTree, node: JsonTree, other: JsonTree)
    requires
        reaches(tree, node),
        is_view(node),
        is_marked(node),
        node.at("id"@).as_i64() is Some,
        forall|n: JsonTree| #[trigger] reaches(tree, n) && is_marked(n) ==> n == node,
        reaches(tree, other),
        is_view(other),
        other.at("id"@).as_i64() is Some,
        other.at("id"@).as_i64() != node.at("id"@).as_i64(),
    ensures
        ({
            let list = sway_list(tree, focus_mark(tree));
            &&& exists|i: int|
                0 <= i < list.len() && (#[trigger] list[i]).focused && list[i].id == decimal(
                    node.at("id"@).as_i64()->0 as int,
                ) && tells(node.at("name"@), list[i].title)
            &&& forall|i: int|
                0 <= i < list.len() && (#[trigger] list[i]).id == decimal(
                    other.at("id"@).as_i64()->0 as int,
                ) ==> !list[i].focused
        }),
{
    let id = node.at("id"@).as_i64()->0;
    let list = sway_list(tree, focus_mark(tree));
    lemma_marked_node_is_found(tree, node);
    lemma_focused_node_is_marked(tree);
    assert(focus_mark(tree) == id);
    lemma_sway_lists_every_window(tree, id, node);
    let k = choose|k: int| 0 <= k < list.len() && list[k] == sway_window(node, id);
    assert(list[k].focused);
    assert forall|i: int|
        0 <= i < list.len() && (#[trigger] list[i]).id == decimal(
            other.at("id"@).as_i64()->0 as int,
        ) implies !list[i].focused by {
        lemma_sway_focus_follows_identifier(tree, id, i);
        if list[i].focused {
            lemma_decimal_injective(id as int, other.at("id"@).as_i64()->0 as int);
        }
    }
}

/// Where no node is marked, none is found, and only a window with the identifier -1 could be taken
/// for the focused one.
pub proof fn lemma_unmarked_tree_has_no_focus(tree: JsonTree, i: int)
    requires
        forall|n: JsonTree| #[trigger] reaches(tree, n) ==> !is_marked(n),
        0 <= i < sway_list(tree, focus_mark(tree)).len(),
        sway_list(tree, focus_mark(tree))[i].id != decimal(-1),
    ensures
        focused_node(tree) is None,
        !sway_list(tree, focus_mark(tree))[i].focused,
{
    if focused_node(tree) is Some {
        lemma_focused_node_is_marked(tree);
    }
    lemma_sway_focus_follows_identifier(tree, focus_mark(tree), i);
}

/* ── What the answers come to ───────────────────────────────────── */

/// Hyprland's answers come to one window for each client, in order. A window has the focus exactly
/// if the answer to `activewindow` gives its address, and the address is not empty.
pub proof fn lemma_hyprland_answers_are_listed(
    clients: Seq<JsonTree>,
    active: Option<JsonTree>,
    i: int,
)
    requires
        0 <= i < clients.len(),
    ensures
        ({
            let result = hyprland_result(Ok(JsonTree::Array(clients)), active);
            let window = result->Ok_0[i];
            let address = clients[i].at("address"@);
            &&& result is Ok
            &&& result->Ok_0.len() == clients.len()
            &&& tells(address, window.id)
            &&& tells(clients[i].at("title"@), window.title)
            &&& tells(clients[i].at("class"@), window.app)
            &&& measures(clients[i].at("at"@), 0, window.x)
            &&& measures(clients[i].at("at"@), 1, window.y)
            &&& measures(clients[i].at("size"@), 0, window.w)
            &&& measures(clients[i].at("size"@), 1, window.h)
            &&& window.focused <==> active is Some && address is Text && address
                != JsonTree::Text(Seq::empty()) && active->0.at("address"@) == address
        }),
{
    let told = active_address(active);
    let window = hyprland_window(clients[i], told);
    lemma_hyprland_window_tells(clients[i], told);
    if window.focused {
        assert(active->0.at("address"@) is Text);
    }
    if let JsonTree::Text(address) = clients[i].at("address"@) {
        if address.len() == 0 {
            assert(address =~= Seq::<char>::empty());
        }
    }
}

/// What Hyprland lists is empty where its answer is no list, and where the answer cannot be read,
/// the failure repeats why.
pub proof fn lemma_hyprland_answer_without_list(
    clients: JsonTree,
    words: Seq<char>,
    active: Option<JsonTree>,
)
    requires
        !(clients is Array),
    ensures
        hyprland_result(Ok(clients), active) matches Ok(list) && list.len() == 0,
        hyprland_result(Err(words), active) matches Err(Reason::Message(message)) && fails_with(
            message,
            "could not parse hyprctl output: "@,
            words,
            Seq::empty(),
        ),
{
    lemma_fails_with("could not parse hyprctl output: "@, words, Seq::empty());
}

/// Sway's answer comes to the windows of its tree, in order, where the focused one is known by the
/// identifier of the focused node; where the answer cannot be read, the failure repeats why.
pub proof fn lemma_sway_answer_is_listed(tree: JsonTree, words: Seq<char>)
    ensures
        sway_result(Ok(tree)) matches Ok(list) && list == windows_among(
            all_nodes(tree),
            if focused_node(tree) is Some {
                focused_node(tree)->0
            } else {
                -1i64
            },
        ),
        sway_result(Err(words)) matches Err(Reason::Message(message)) && fails_with(
            message,
            "could not parse swaymsg output: "@,
            words,
            Seq::empty(),
        ),
{
    lemma_sway_lists_the_tree(tree, focus_mark(tree));
    lemma_fails_with("could not parse swaymsg output: "@, words, Seq::empty());
}

/// The answers are read as documents before anything is made of them. An answer to `activewindow`
/// that cannot be read is as good as none.
pub proof fn lemma_answers_are_documents(clients: Seq<char>, active: Seq<char>)
    ensures
        hyprland_outcome(clients, None) == hyprland_result(parsed_text(clients), None),
        parsed_text(active) matches Ok(tree) ==> hyprland_outcome(clients, Some(active))
            == hyprland_result(parsed_text(clients), Some(tree)),
        parsed_text(active) is Err ==> hyprland_outcome(clients, Some(active))
            == hyprland_outcome(clients, None),
        sway_outcome(clients) == sway_result(parsed_text(clients)),
{
}

} // verus!
