use nova_wayland::json::{parse_json, Json};
use nova_wayland::platform::{NovaError, WindowInfo};
use nova_wayland::windows::{
    find_focused, hyprland_clients, hyprland_read, hyprland_windows, sway_collect, sway_read,
    sway_tree_windows, sway_windows,
};

fn text(s: &str) -> Json {
    Json::Text(s.to_string())
}

fn number(n: i64) -> Json {
    Json::Number(Some(n))
}

fn object(members: Vec<(&str, Json)>) -> Json {
    Json::Object(members.into_iter().map(|(name, json)| (name.to_string(), json)).collect())
}

fn window(id: &str, title: &str, app: &str, at: [i32; 4], focused: bool) -> WindowInfo {
    WindowInfo {
        id: id.to_string(),
        title: title.to_string(),
        app: app.to_string(),
        x: at[0],
        y: at[1],
        w: at[2],
        h: at[3],
        focused,
    }
}

/* ── Documents ──────────────────────────────────────────────────── */

#[test]
fn documents_are_read() {
    assert_eq!(
        parse_json(r#" {"b": [1, -2, 1.5, 9223372036854775808, 1e2], "a": null, "c": "x\n"} "#),
        Ok(object(vec![
            ("a", Json::Null),
            (
                "b",
                Json::Array(vec![
                    number(1),
                    number(-2),
                    Json::Number(None),
                    Json::Number(None),
                    Json::Number(None),
                ])
            ),
            ("c", text("x\n")),
        ]))
    );
    assert_eq!(parse_json("true"), Ok(Json::Bool(true)));
}

#[test]
fn last_of_two_members_with_one_name_counts() {
    assert_eq!(parse_json(r#"{"a": 1, "a": 2}"#), Ok(object(vec![("a", number(2))])));
}

#[test]
fn words_of_an_error_are_those_of_the_parser() {
    for broken in ["", "{", "[1,]", "nope", "1 2"] {
        let words = serde_json::from_str::<serde_json::Value>(broken).unwrap_err().to_string();
        assert_eq!(parse_json(broken), Err(words));
    }
}

#[test]
fn values_are_looked_up() {
    let json = object(vec![("a", number(5)), ("b", text("x")), ("c", Json::Array(vec![Json::Null]))]);
    assert_eq!(json.get("a").unwrap().as_i64(), Some(5));
    assert_eq!(json.get("b").unwrap().as_str(), Some("x"));
    assert_eq!(json.get("c").unwrap().as_array(), Some(&vec![Json::Null]));
    assert_eq!(json.get("d"), None);
    assert_eq!(number(1).get("a"), None);
    assert_eq!(text("x").as_i64(), None);
    assert_eq!(number(1).as_str(), None);
    assert_eq!(Json::Null.as_array(), None);
}

/* ── Hyprland ───────────────────────────────────────────────────── */

const CLIENTS: &str = r#"[
    {"address": "0x1", "at": [10, 20], "size": [300, 400], "title": "One", "class": "foot"},
    {"address": "0x2", "at": [-5], "size": "big", "title": 7},
    {"title": "Nameless"},
    12
]"#;

#[test]
fn hyprland_lists_its_clients() {
    assert_eq!(
        hyprland_windows(CLIENTS, Some(r#"{"address": "0x2"}"#)),
        Ok(vec![
            window("0x1", "One", "foot", [10, 20, 300, 400], false),
            window("0x2", "", "", [-5, 0, 0, 0], true),
            window("", "Nameless", "", [0, 0, 0, 0], false),
            window("", "", "", [0, 0, 0, 0], false),
        ])
    );
}

#[test]
fn hyprland_focus_needs_an_active_window() {
    for active in [None, Some(""), Some("{}"), Some("nope"), Some(r#"{"address": 1}"#)] {
        let windows = hyprland_windows(CLIENTS, active).unwrap();
        assert_eq!(windows.len(), 4);
        assert!(windows.iter().all(|w| !w.focused));
    }
}

#[test]
fn hyprland_output_that_is_no_list_has_no_windows() {
    assert_eq!(hyprland_windows("{}", None), Ok(vec![]));
    assert_eq!(hyprland_windows("[]", None), Ok(vec![]));
}

#[test]
fn hyprland_output_that_is_no_document_fails() {
    let words = serde_json::from_str::<serde_json::Value>("[1").unwrap_err().to_string();
    assert_eq!(
        hyprland_windows("[1", None),
        Err(NovaError::msg(&format!("could not parse hyprctl output: {words}")))
    );
}

#[test]
fn hyprland_measures_wrap() {
    let client = object(vec![
        ("at", Json::Array(vec![number(4294967295), number(2147483648)])),
        ("size", Json::Array(vec![number(i64::MIN), number(i64::MAX)])),
    ]);
    assert_eq!(
        hyprland_clients(&Json::Array(vec![client]), ""),
        vec![window("", "", "", [-1, i32::MIN, 0, -1], false)]
    );
}

#[test]
fn hyprland_answers_are_read_once_they_are_documents() {
    let clients = || Json::Array(vec![object(vec![("address", text("0x1"))])]);
    let active = object(vec![("address", text("0x1"))]);
    assert_eq!(
        hyprland_read(Ok(clients()), Some(active)),
        Ok(vec![window("0x1", "", "", [0, 0, 0, 0], true)])
    );
    assert_eq!(
        hyprland_read(Ok(clients()), None),
        Ok(vec![window("0x1", "", "", [0, 0, 0, 0], false)])
    );
    assert_eq!(
        hyprland_read(Err("bad".to_string()), None),
        Err(NovaError::msg("could not parse hyprctl output: bad"))
    );
}

/* ── Sway ───────────────────────────────────────────────────────── */

const TREE: &str = r#"{
    "id": 1, "type": "root", "focused": false,
    "nodes": [
        {
            "id": 2, "type": "workspace", "app_id": "no window",
            "nodes": [
                {
                    "id": 3, "type": "con", "app_id": "foot", "name": "Shell", "focused": true,
                    "rect": {"x": 1, "y": 2, "width": 3, "height": 4}
                },
                {
                    "id": 4, "type": "con", "app_id": null,
                    "window_properties": {"class": "Firefox"}, "name": null
                },
                {"id": 5, "type": "con", "app_id": null},
                {
                    "type": "con", "app_id": 6,
                    "nodes": [{"id": 7, "type": "con", "app_id": "inner", "name": "Deep"}]
                }
            ],
            "floating_nodes": [
                {"id": 8, "type": "floating_con", "app_id": "pavu", "name": "Sound"}
            ]
        }
    ],
    "floating_nodes": "none"
}"#;

fn sway_expected() -> Vec<WindowInfo> {
    vec![
        window("3", "Shell", "foot", [1, 2, 3, 4], true),
        window("4", "", "Firefox", [0, 0, 0, 0], false),
        window("7", "Deep", "inner", [0, 0, 0, 0], false),
        window("8", "Sound", "pavu", [0, 0, 0, 0], false),
    ]
}

#[test]
fn sway_lists_its_views() {
    assert_eq!(sway_windows(TREE), Ok(sway_expected()));
    assert_eq!(sway_tree_windows(&parse_json(TREE).unwrap()), sway_expected());
}

#[test]
fn sway_collects_behind_what_is_there() {
    let mut out = vec![window("x", "", "", [0, 0, 0, 0], false)];
    sway_collect(&parse_json(TREE).unwrap(), 8, &mut out);
    assert_eq!(out.len(), 5);
    assert_eq!(out[0].id, "x");
    let focused: Vec<&str> =
        out.iter().filter(|w| w.focused).map(|w| w.id.as_str()).collect();
    assert_eq!(focused, vec!["8"]);
}

#[test]
fn sway_collects_leaves_only() {
    let inner = || object(vec![("type", text("con")), ("id", number(2)), ("app_id", text("b"))]);
    for name in ["nodes", "floating_nodes"] {
        let outer = object(vec![
            ("type", text("con")),
            ("id", number(1)),
            ("app_id", text("a")),
            (name, Json::Array(vec![inner()])),
        ]);
        let mut out = Vec::new();
        sway_collect(&outer, 2, &mut out);
        assert_eq!(out, vec![window("2", "", "b", [0, 0, 0, 0], true)]);
    }
}

#[test]
fn sway_leaf_may_have_empty_lists_of_children() {
    let leaf = object(vec![
        ("type", text("con")),
        ("id", number(1)),
        ("app_id", text("a")),
        ("nodes", Json::Array(vec![])),
        ("floating_nodes", Json::Array(vec![])),
    ]);
    assert_eq!(sway_tree_windows(&leaf), vec![window("1", "", "a", [0, 0, 0, 0], false)]);
}

#[test]
fn sway_focus_is_found() {
    assert_eq!(find_focused(&parse_json(TREE).unwrap()), Some(3));
    assert_eq!(find_focused(&Json::Null), None);
    let floating = object(vec![(
        "floating_nodes",
        Json::Array(vec![object(vec![("focused", Json::Bool(true)), ("id", number(9))])]),
    )]);
    assert_eq!(find_focused(&floating), Some(9));
}

#[test]
fn sway_focus_without_an_identifier_hides_what_is_below() {
    let below = object(vec![("focused", Json::Bool(true)), ("id", number(9))]);
    let marked = object(vec![
        ("focused", Json::Bool(true)),
        ("nodes", Json::Array(vec![below])),
    ]);
    assert_eq!(find_focused(&marked), None);
    let after = object(vec![("focused", Json::Bool(true)), ("id", number(4))]);
    let tree = object(vec![("nodes", Json::Array(vec![marked, after]))]);
    assert_eq!(find_focused(&tree), Some(4));
}

#[test]
fn sway_without_a_focus_marks_the_node_minus_one() {
    let tree = object(vec![("id", number(-1)), ("type", text("con")), ("app_id", text("a"))]);
    assert_eq!(sway_tree_windows(&tree), vec![window("-1", "", "a", [0, 0, 0, 0], true)]);
}

#[test]
fn sway_properties_may_be_null() {
    let tree = object(vec![("type", text("con")), ("window_properties", Json::Null)]);
    assert_eq!(sway_tree_windows(&tree), vec![window("0", "", "", [0, 0, 0, 0], false)]);
}

#[test]
fn sway_output_that_is_no_document_fails() {
    let words = serde_json::from_str::<serde_json::Value>("{").unwrap_err().to_string();
    assert_eq!(
        sway_windows("{"),
        Err(NovaError::msg(&format!("could not parse swaymsg output: {words}")))
    );
}

#[test]
fn sway_answer_is_read_once_it_is_a_document() {
    assert_eq!(sway_read(parse_json(TREE)), Ok(sway_expected()));
    assert_eq!(
        sway_read(Err("bad".to_string())),
        Err(NovaError::msg("could not parse swaymsg output: bad"))
    );
}
