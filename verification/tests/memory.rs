use std::collections::HashMap;

use goose::json::Json;
use goose::memory::args::MemoryArgs;
use goose::memory::router::{
    category_of, memory_file_name, show_memories, CategoryFile, MemoryAction, MemoryPath,
    MemoryRouter,
};
use goose::memory::store::{record_text, retrieve, without_memory, Memories};
use goose::protocol::{Body, ToolError};

fn router() -> MemoryRouter {
    MemoryRouter::new("/global".to_string(), "/local".to_string(), Some(vec![]), Some(vec![]))
}

fn text(s: &str) -> Json {
    Json::Text(s.to_string())
}

fn object(fields: Vec<(&str, Json)>) -> Json {
    Json::Object(fields.into_iter().map(|(k, v)| (k.to_string(), v)).collect())
}

fn groups(m: &Memories) -> Vec<(String, Vec<String>)> {
    (0..m.len()).map(|i| (m.group(i).key.clone(), m.group(i).lines.clone())).collect()
}

fn strings(v: &[&str]) -> Vec<String> {
    v.iter().map(|s| s.to_string()).collect()
}

#[test]
fn retrieve_gives_back_what_was_remembered() {
    let mut content = String::new();
    content.push_str(&record_text("we use black", &["formatting", "tools"]));
    content.push_str(&record_text("plain fact", &[]));
    content.push_str(&record_text("two\nlines", &["other"]));
    content.push_str(&record_text("another fact", &[]));
    assert_eq!(
        content,
        "# formatting tools\nwe use black\n\nplain fact\n\n# other\ntwo\nlines\n\nanother fact\n\n"
    );
    let m = retrieve(Some(&content));
    assert_eq!(
        groups(&m),
        vec![
            ("formatting tools".to_string(), strings(&["we use black"])),
            ("untagged".to_string(), strings(&["plain fact", "another fact"])),
            ("other".to_string(), strings(&["two", "lines"])),
        ]
    );
    assert_eq!(m.get("other"), Some(&strings(&["two", "lines"])));
    assert!(m.get("nothing").is_none());
}

#[test]
fn memories_with_the_same_tags_are_all_retrieved() {
    let mut content = record_text("a", &["t"]);
    content.push_str(&record_text("b", &["t"]));
    content.push_str(&record_text("c", &["u"]));
    content.push_str(&record_text("d", &["t"]));
    assert_eq!(
        groups(&retrieve(Some(&content))),
        vec![
            ("t".to_string(), strings(&["a", "b", "d"])),
            ("u".to_string(), strings(&["c"])),
        ]
    );
}

#[test]
fn forgetting_undoes_remembering() {
    let mut content = String::new();
    for (data, tags) in [("one", vec!["t"]), ("#two", vec![]), ("", vec![]), ("three", vec![])] {
        content.push_str(&record_text(data, &tags));
    }
    for (data, tags) in [("#fresh", vec![]), ("new", vec!["t"]), ("last", vec![])] {
        let after = format!("{}{}", content, record_text(data, &tags));
        assert_eq!(without_memory(&after, data), content);
        assert_eq!(without_memory(&content, data), content);
    }
}

#[test]
fn a_category_without_a_file_has_no_memories() {
    assert_eq!(retrieve(None).len(), 0);
    assert_eq!(retrieve(Some("")).len(), 0);
    assert_eq!(router().retrieve(None).len(), 0);
}

#[test]
fn tags_are_read_by_words() {
    let m = retrieve(Some("#  a \t b\r\nx\r\n\n"));
    assert_eq!(groups(&m), vec![("a b".to_string(), strings(&["x\r"]))]);
    let bare = retrieve(Some("#\nx\n\n"));
    assert_eq!(groups(&bare), vec![(String::new(), strings(&["x"]))]);
}

#[test]
fn removing_keeps_the_other_blocks() {
    let mut content = record_text("keep me", &["a"]);
    content.push_str(&record_text("drop me", &["b"]));
    content.push_str(&record_text("keep too", &[]));
    assert_eq!(without_memory(&content, "drop"), "# a\nkeep me\n\nkeep too\n\n");
    assert_eq!(without_memory(&content, "nowhere"), content);
    assert_eq!(without_memory(&content, ""), "");
    let before = record_text("old", &[]);
    let after = format!("{}{}", before, record_text("fresh", &["x"]));
    assert_eq!(without_memory(&after, "fresh"), before);
    let r = router();
    assert_eq!(r.remove_specific_memory(Some(&after), "old"), Some("# x\nfresh\n\n".to_string()));
    assert_eq!(r.remove_specific_memory(None, "old"), None);
}

#[test]
fn memory_instructions_list_what_is_saved() {
    let bare = router().instructions();
    assert!(bare.starts_with(" This extension allows storage and retrieval"));
    assert!(bare.ends_with("please remove it from the system instructions.\n"));
    assert!(bare.contains("ease of future retrieval.\n\n\n**Here are the user's currently saved"));
    let global = vec![CategoryFile {
        file_name: "dev.txt".to_string(),
        content: Some("# t\none\ntwo\n\nthree\n\n".to_string()),
    }];
    let local = vec![CategoryFile { file_name: "notes.md".to_string(), content: None }];
    let r = MemoryRouter::new("/g".to_string(), "/l".to_string(), Some(global), Some(local));
    assert_eq!(
        r.get_instructions(),
        format!(
            "{}\n\nGlobal Memories:\n\nCategory: dev\n- one\n- two\n- three\n\n\nLocal Memories:\n\nCategory: notes.md\n",
            bare
        )
    );
    let unread = MemoryRouter::new("/g".to_string(), "/l".to_string(), None, None);
    assert_eq!(unread.instructions(), bare);
    let mut r = r;
    r.set_instructions("new".to_string());
    assert_eq!(r.instructions(), "new");
    assert_eq!(r.memory_dir(true), "/g");
    assert_eq!(r.memory_dir(false), "/l");
}

#[test]
fn categories_are_read_from_file_names() {
    assert_eq!(category_of("dev.txt"), "dev");
    assert_eq!(category_of("a.txt.txt"), "a");
    assert_eq!(category_of("plain"), "plain");
    assert_eq!(category_of(&memory_file_name("dev")), "dev");
    assert_eq!(category_of(".txtx"), "x");
    let files = vec![
        CategoryFile { file_name: "a.txt".to_string(), content: Some("1\n\n".to_string()) },
        CategoryFile { file_name: "b.txt".to_string(), content: Some("2\n\n".to_string()) },
        CategoryFile { file_name: "a.txt.txt".to_string(), content: Some("1\n\n".to_string()) },
    ];
    assert_eq!(
        groups(&router().retrieve_all(&files)),
        vec![("a".to_string(), strings(&["1"])), ("b".to_string(), strings(&["2"]))]
    );
}

#[test]
fn memory_router_offers_its_tools() {
    let r = router();
    assert_eq!(r.name(), "memory");
    assert_eq!(r.capabilities().tools_list_changed, Some(false));
    let tools = r.list_tools();
    let names: Vec<&str> = tools.iter().map(|t| t.name.as_str()).collect();
    assert_eq!(
        names,
        vec![
            "remember_memory",
            "retrieve_memories",
            "remove_memory_category",
            "remove_specific_memory"
        ]
    );
    for tool in &tools {
        let schema: serde_json::Value = serde_json::from_str(&tool.input_schema).unwrap();
        assert_eq!(schema["properties"]["category"]["type"], "string");
    }
    assert!(r.list_resources().is_empty());
    assert_eq!(r.read_resource("x"), "");
}

#[test]
fn arguments_are_read_leniently() {
    let args = object(vec![
        ("category", text("dev")),
        ("data", text("d")),
        ("tags", Json::Array(vec![text("a"), Json::Null, text("b")])),
        ("is_global", text("TRUE")),
    ]);
    let a = MemoryArgs::from_value(&args).unwrap();
    assert_eq!(a.category, "dev");
    assert_eq!(a.data, Some("d"));
    assert_eq!(a.tags, vec!["a", "b"]);
    assert!(a.is_global);
    let single = object(vec![("category", text("dev")), ("tags", text("a b"))]);
    let a = MemoryArgs::from_value(&single).unwrap();
    assert_eq!(a.data, None);
    assert_eq!(a.tags, vec!["a b"]);
    assert!(!a.is_global);
    let scoped = object(vec![("category", text("dev")), ("is_global", Json::Bool(true))]);
    assert!(MemoryArgs::from_value(&scoped).unwrap().is_global);
    let no = object(vec![("category", text("dev")), ("is_global", text("yes"))]);
    assert!(!MemoryArgs::from_value(&no).unwrap().is_global);
}

#[test]
fn arguments_need_a_category_and_a_scope_that_can_be_read() {
    for args in [
        Json::Null,
        object(vec![]),
        object(vec![("category", text(""))]),
        object(vec![("category", Json::Unsigned(1))]),
    ] {
        assert_eq!(MemoryArgs::from_value(&args).unwrap_err(), "Category must be a string");
    }
    let args = object(vec![("category", text("a")), ("is_global", Json::Unsigned(1))]);
    assert_eq!(
        MemoryArgs::from_value(&args).unwrap_err(),
        "is_global must be a boolean or string 'true'/'false'"
    );
}

#[test]
fn calls_become_actions() {
    let r = router();
    let none = Memories::new();
    let args = object(vec![
        ("category", text("dev")),
        ("data", text("d")),
        ("tags", text("t")),
        ("is_global", Json::Bool(true)),
        ("memory_content", text("d")),
    ]);
    let action = r.execute_tool_call("remember_memory", &args).unwrap();
    assert_eq!(action.reply(&none), "Stored memory in category: dev");
    match action {
        MemoryAction::Remember { path, text, .. } => {
            assert_eq!((path.dir.as_str(), path.file_name.as_str()), ("/global", "dev.txt"));
            assert_eq!(text, "# t\nd\n\n");
        }
        _ => panic!("not remembered"),
    }
    let action = r.execute_tool_call("retrieve_memories", &args).unwrap();
    match &action {
        MemoryAction::Retrieve { path, is_global } => {
            assert_eq!(path, &r.get_memory_file("dev", true));
            assert!(*is_global);
        }
        _ => panic!("not retrieved"),
    }
    assert_eq!(
        action.reply(&retrieve(Some("# t\nsay \"hi\"\nö\n\nplain\n\n"))),
        "Retrieved memories: {\"t\": [\"say \\\"hi\\\"\", \"ö\"], \"untagged\": [\"plain\"]}"
    );
    let action = r.execute_tool_call("remove_memory_category", &args).unwrap();
    assert_eq!(action.reply(&none), "Cleared memories in category: dev");
    assert!(matches!(action, MemoryAction::Clear { .. }));
    let action = r.execute_tool_call("remove_specific_memory", &args).unwrap();
    assert_eq!(action.reply(&none), "Removed specific memory from category: dev");
    match action {
        MemoryAction::RemoveSpecific { memory_content, .. } => assert_eq!(memory_content, "d"),
        _ => panic!("not removed"),
    }
    let all = object(vec![("category", text("*"))]);
    let action = r.execute_tool_call("retrieve_memories", &all).unwrap();
    assert_eq!(action.reply(&none), "Retrieved memories: {}");
    assert!(matches!(action, MemoryAction::RetrieveAll { dir, is_global: false } if dir == "/local"));
    let action = r.execute_tool_call("remove_memory_category", &all).unwrap();
    assert_eq!(action.reply(&none), "Cleared all memory local categories");
    assert!(matches!(action, MemoryAction::ClearAll { dir, is_global: false } if dir == "/local"));
    let every = object(vec![("category", text("*")), ("is_global", Json::Bool(true))]);
    assert_eq!(
        r.execute_tool_call("remove_memory_category", &every).unwrap().reply(&none),
        "Cleared all memory global categories"
    );
    assert_eq!(r.clear_memory("c", false).file_name, "c.txt");
    assert_eq!(r.clear_all_global_or_local_memories(true), "/global");
}

#[test]
fn a_cleared_category_is_empty_and_the_others_stay() {
    let r = router();
    let key = |p: &MemoryPath| (p.dir.clone(), p.file_name.clone());
    let mut files: HashMap<(String, String), String> = HashMap::new();
    for (category, is_global) in [("a", false), ("b", false), ("a", true)] {
        let (path, text) = r.remember("", category, "x", &[], is_global);
        files.insert(key(&path), text);
    }
    let args = object(vec![("category", text("a")), ("is_global", Json::Bool(false))]);
    for _ in 0..2 {
        match r.execute_tool_call("remove_memory_category", &args).unwrap() {
            MemoryAction::Clear { path, .. } => files.remove(&key(&path)),
            _ => panic!("not cleared"),
        };
        let read = |category, is_global| {
            let content = files.get(&key(&r.get_memory_file(category, is_global)));
            r.retrieve(content.map(|c| c.as_str())).len()
        };
        assert_eq!((read("a", false), read("b", false), read("a", true)), (0, 1, 1));
    }
}

#[test]
fn calls_are_refused_with_a_reason() {
    let r = router();
    let args = object(vec![("category", text("dev"))]);
    assert_eq!(
        r.execute_tool_call("remember_memory", &args).unwrap_err(),
        "Data must exist when remembering a memory"
    );
    let empty = object(vec![("category", text("dev")), ("data", text(""))]);
    assert_eq!(
        r.execute_tool_call("remember_memory", &empty).unwrap_err(),
        "Data must exist when remembering a memory"
    );
    assert_eq!(r.execute_tool_call("forget", &args).unwrap_err(), "Unknown tool");
    assert_eq!(
        r.execute_tool_call("retrieve_memories", &object(vec![])).unwrap_err(),
        "Category must be a string"
    );
    assert_eq!(
        r.call_tool(Err("Unknown tool".to_string())),
        Err(ToolError::ExecutionError("Unknown tool".to_string()))
    );
    let contents = r.call_tool(Ok("done".to_string())).unwrap();
    assert_eq!(contents[0].body, Body::Text("done".to_string()));
    assert_eq!(contents[0].audience, None);
}

#[test]
fn shown_memories_look_like_maps() {
    for text in ["plain", "say \"hi\"\\", "a\tb\u{1}", "ö\u{301}\u{200b}'"] {
        let mut map = HashMap::new();
        map.insert(text.to_string(), vec![text.to_string(), String::new()]);
        let mut one = Memories::new();
        one.insert(text.to_string(), vec![text.to_string(), String::new()]);
        assert_eq!(show_memories(&one), format!("{:?}", map));
    }
    assert_eq!(show_memories(&Memories::new()), "{}");
    let mut m = Memories::new();
    m.insert("a".to_string(), strings(&["1", "2"]));
    m.insert("b".to_string(), vec![]);
    m.extend("c", strings(&["3"]));
    m.extend("a", strings(&["4"]));
    m.insert("b".to_string(), strings(&["tab\t"]));
    assert_eq!(
        show_memories(&m),
        "{\"a\": [\"1\", \"2\", \"4\"], \"b\": [\"tab\\t\"], \"c\": [\"3\"]}"
    );
}
