use toml_edit::{DocumentMut, Item, Table, Value};
use whisrs::config::document::{
    merge_item, merge_table, values_equal, ItemAction, ItemEntry, ListedTable, TablePlan, TomlItem,
    TomlTable, TomlValue, ValueAction, ValueEntry,
};
use whisrs::config::store::{backup_name, plan_write, temp_name, DiskRead, WriteAction};

const COMMENTED_CONFIG: &str = r#"# whisrs config - hand-tuned, do not regenerate
# see docs/configuration.md before touching anything below

[audio]
device = "default" # usb mic drops out, stick to default

[general]
backend = "groq" # fastest cloud option
language = "en"

[hotkeys]
toggle = "Super+D"

# translate the selection into german
[[llm_commands]]
name = "german"
hotkey = "Super+Shift+G"
set_hotkey = "Super+Shift+S"
instruction = "Translate to German."

# tidy up prose without changing meaning
[[llm_commands]]
name = "polish"
hotkey = "Super+Shift+P"
instruction = "Polish the text."
"#;

/// What the configuration serializes to.
fn fresh(backend: &str, extra_general: &str, extra_hotkeys: &str, commands: &str) -> String {
    format!(
        "[general]\nbackend = \"{backend}\"\nlanguage = \"en\"\n{extra_general}\n\
         [audio]\ndevice = \"default\"\n\n\
         [input]\nkey_delay_ms = 2\n\n\
         [hotkeys]\ntoggle = \"Super+D\"\n{extra_hotkeys}\n{commands}"
    )
}

const GERMAN: &str = "[[llm_commands]]\nname = \"german\"\nhotkey = \"Super+Shift+G\"\n\
                      set_hotkey = \"Super+Shift+S\"\ninstruction = \"Translate to German.\"\n\n";
const FRENCH: &str = "[[llm_commands]]\nname = \"german\"\nhotkey = \"Super+Shift+G\"\n\
                      set_hotkey = \"Super+Shift+S\"\ninstruction = \"Translate to French.\"\n\n";
const POLISH: &str = "[[llm_commands]]\nname = \"polish\"\nhotkey = \"Super+Shift+P\"\n\
                      instruction = \"Polish the text.\"\n";

fn replace_value(existing: &mut Value, fresh: &Value) {
    let decor = existing.decor().clone();
    *existing = fresh.clone();
    *existing.decor_mut() = decor;
}

fn apply_item(existing: &mut Item, fresh: &Item, action: &ItemAction) {
    match action {
        ItemAction::Keep => {}
        ItemAction::Change => {
            replace_value(existing.as_value_mut().unwrap(), fresh.as_value().unwrap())
        }
        ItemAction::Fresh => *existing = fresh.clone(),
        ItemAction::Table(plan) => apply_table(
            existing.as_table_mut().unwrap(),
            fresh.as_table().unwrap(),
            plan,
        ),
        ItemAction::Tables(listed) => {
            let fresh = fresh.as_array_of_tables().unwrap();
            let old = existing.as_array_of_tables_mut().unwrap();
            let tables: Vec<Table> = listed
                .iter()
                .enumerate()
                .map(|(k, entry)| match entry {
                    ListedTable::Existing(i, plan) => {
                        let mut table = old.get(*i).unwrap().clone();
                        apply_table(&mut table, fresh.get(k).unwrap(), plan);
                        table
                    }
                    ListedTable::Fresh => fresh.get(k).unwrap().clone(),
                })
                .collect();
            old.clear();
            for table in tables {
                old.push(table);
            }
        }
        ItemAction::Inline(values) => {
            let fresh = fresh.as_table().unwrap();
            let old = existing.as_inline_table_mut().unwrap();
            let keys: Vec<String> = old.iter().map(|(k, _)| k.to_string()).collect();
            for key in keys {
                if values.iter().all(|v| v.key != key) {
                    old.remove(&key);
                }
            }
            for v in values {
                let value = fresh[&v.key].as_value().unwrap();
                match v.action {
                    ValueAction::Keep => {}
                    ValueAction::Change => replace_value(old.get_mut(&v.key).unwrap(), value),
                    ValueAction::Fresh => {
                        old.insert(&v.key, value.clone());
                    }
                }
            }
        }
    }
}

fn apply_table(existing: &mut Table, fresh: &Table, plan: &TablePlan) {
    let keys: Vec<String> = existing.iter().map(|(k, _)| k.to_string()).collect();
    for key in keys {
        if plan.entries.iter().all(|e| e.key != key) {
            existing.remove(&key);
        }
    }
    existing.set_implicit(plan.implicit);
    for entry in &plan.entries {
        match existing.get_mut(&entry.key) {
            Some(item) => apply_item(item, &fresh[&entry.key], &entry.action),
            None => {
                existing.insert(&entry.key, fresh[&entry.key].clone());
            }
        }
    }
}

/// The file after storing `fresh` over `existing`.
fn stored(existing: &str, fresh: &str) -> String {
    match plan_write(&DiskRead::Text(existing.to_string()), fresh) {
        WriteAction::Merge(plan) => {
            let mut document: DocumentMut = existing.parse().unwrap();
            let fresh: DocumentMut = fresh.parse().unwrap();
            apply_table(document.as_table_mut(), fresh.as_table(), &plan);
            document.to_string()
        }
        WriteAction::Rewrite(text) => text,
        other => panic!("{other:?}"),
    }
}

#[test]
fn value_change_keeps_comments_and_order() {
    // A changed instruction, and a changed scalar with an inline comment.
    let commands = format!("{FRENCH}{POLISH}");
    let out = stored(COMMENTED_CONFIG, &fresh("openai", "", "", &commands));
    assert!(out.contains("# whisrs config - hand-tuned, do not regenerate"));
    assert!(out.contains("# see docs/configuration.md before touching anything below"));
    assert!(out.contains("# usb mic drops out, stick to default"));
    assert!(out.contains("# translate the selection into german"));
    assert!(out.contains("# tidy up prose without changing meaning"));
    // The changed value keeps its trailing comment.
    assert!(out.contains(r#"backend = "openai" # fastest cloud option"#));
    assert!(out.contains("Translate to French."));
    assert!(!out.contains("Translate to German."));
    // The user's section order survives ([audio] written above [general]).
    assert!(out.find("[audio]").unwrap() < out.find("[general]").unwrap());
    // And the result still reads as TOML.
    let reparsed: DocumentMut = out.parse().unwrap();
    assert_eq!(reparsed["general"]["backend"].as_str(), Some("openai"));
    let commands = reparsed["llm_commands"].as_array_of_tables().unwrap();
    assert_eq!(
        commands.get(0).unwrap()["instruction"].as_str(),
        Some("Translate to French.")
    );
}

#[test]
fn added_keys_appear() {
    let commands = format!("{GERMAN}{POLISH}");
    let out = stored(
        COMMENTED_CONFIG,
        &fresh(
            "groq",
            "prompt = \"Vocabulary: whisrs, Hyprland\"\n",
            "speak = \"Super+R\"\n",
            &commands,
        ),
    );
    // New key in an existing section.
    assert!(out.contains(r#"prompt = "Vocabulary: whisrs, Hyprland""#));
    assert!(out.contains(r#"speak = "Super+R""#));
    // A whole section the file never had.
    assert!(out.contains("[input]"));
    // Comments still intact.
    assert!(out.contains("# whisrs config - hand-tuned, do not regenerate"));
    let reparsed: DocumentMut = out.parse().unwrap();
    assert_eq!(
        reparsed["general"]["prompt"].as_str(),
        Some("Vocabulary: whisrs, Hyprland")
    );
    assert_eq!(reparsed["hotkeys"]["speak"].as_str(), Some("Super+R"));
}

#[test]
fn removed_llm_command_disappears_and_survivor_keeps_comment() {
    // The first entry goes, so the survivor only keeps its comment if entries
    // are matched by name rather than by position.
    let out = stored(COMMENTED_CONFIG, &fresh("groq", "", "", POLISH));
    assert!(!out.contains("Translate to German."));
    assert!(!out.contains(r#"name = "german""#));
    // The removed entry's comment goes with it.
    assert!(!out.contains("# translate the selection into german"));
    // The survivor keeps its own comment and content.
    assert!(out.contains("# tidy up prose without changing meaning"));
    assert!(out.contains(r#"name = "polish""#));
    let reparsed: DocumentMut = out.parse().unwrap();
    let commands = reparsed["llm_commands"].as_array_of_tables().unwrap();
    assert_eq!(commands.len(), 1);
    assert_eq!(commands.get(0).unwrap()["name"].as_str(), Some("polish"));
}

#[test]
fn a_new_name_takes_no_comment_from_a_survivor() {
    let out = stored(
        "# about A\n[[c]]\nname = \"A\"\n",
        "[[c]]\nname = \"X\"\n\n[[c]]\nname = \"A\"\n",
    );
    let reparsed: DocumentMut = out.parse().unwrap();
    let tables = reparsed["c"].as_array_of_tables().unwrap();
    let prefix = |i: usize| -> String {
        let decor = tables.get(i).unwrap().decor();
        decor.prefix().and_then(|p| p.as_str()).unwrap_or("").to_string()
    };
    assert_eq!(tables.len(), 2);
    assert_eq!(tables.get(0).unwrap()["name"].as_str(), Some("X"));
    assert_eq!(tables.get(1).unwrap()["name"].as_str(), Some("A"));
    assert!(!prefix(0).contains("# about A"));
    assert!(prefix(1).contains("# about A"));
}

#[test]
fn entries_without_a_name_are_matched_by_position() {
    let out = stored(
        "# first\n[[c]]\nx = 1\n\n# second\n[[c]]\nx = 2\n",
        "[[c]]\nx = 3\n\n[[c]]\nx = 2\n\n[[c]]\nx = 4\n",
    );
    assert_eq!(
        out,
        "# first\n[[c]]\nx = 3\n\n# second\n[[c]]\nx = 2\n\n[[c]]\nx = 4\n"
    );
}

#[test]
fn a_double_that_is_no_number_is_saved_twice_alike() {
    let first = stored("[general]\nvolume = 0.5 # loud\n", "[general]\nvolume = nan\n");
    assert_eq!(first, "[general]\nvolume = nan # loud\n");
    assert_eq!(stored(&first, "[general]\nvolume = nan\n"), first);
}

#[test]
fn clearing_llm_commands_removes_all_entries() {
    let text = format!("llm_commands = []\n\n{}", fresh("groq", "", "", ""));
    let out = stored(COMMENTED_CONFIG, &text);
    assert!(!out.contains("[[llm_commands]]"));
    // Comments elsewhere survive the structural change.
    assert!(out.contains("# whisrs config - hand-tuned, do not regenerate"));
    let reparsed: DocumentMut = out.parse().unwrap();
    assert_eq!(reparsed["llm_commands"].as_array().map(|a| a.len()), Some(0));
}

#[test]
fn first_time_write_creates_parseable_file() {
    assert!(matches!(
        plan_write(&DiskRead::Missing, "a = 1"),
        WriteAction::WriteFresh
    ));
}

#[test]
fn unparseable_existing_file_is_regenerated() {
    let broken = DiskRead::Text("this is [ not toml".to_string());
    assert!(matches!(
        plan_write(&broken, "a = 1"),
        WriteAction::BackUpAndWriteFresh
    ));
    assert_eq!(backup_name("config.toml"), "config.toml.bak");
}

#[test]
fn a_failed_read_or_a_broken_fresh_text_writes_nothing() {
    assert!(matches!(
        plan_write(&DiskRead::Failed, "a = 1"),
        WriteAction::Fail
    ));
    assert!(matches!(
        plan_write(&DiskRead::Text(String::new()), "a ="),
        WriteAction::UnreadableFresh
    ));
}

#[test]
fn rewriting_identical_config_is_byte_stable() {
    let commands = format!("{GERMAN}{POLISH}");
    let text = fresh("groq", "", "", &commands);
    let first = stored(COMMENTED_CONFIG, &text);
    let second = stored(&first, &text);
    assert_eq!(
        first, second,
        "second write of an identical Config must be byte-identical"
    );
}

#[test]
fn a_file_that_holds_the_values_is_printed_as_it_is() {
    let existing = "# mine\nb = 0x10 # hex\na = 'x'\n[s]\nt = { v = 1, u = [1,2] }\n";
    let same = "a = \"x\"\nb = 16\n[s.t]\nu = [1, 2]\nv = 1\n";
    let action = plan_write(&DiskRead::Text(existing.to_string()), same);
    assert!(matches!(action, WriteAction::Rewrite(text) if text == existing));
    // Line breaks are printed in one form.
    let action = plan_write(&DiskRead::Text("a = 1 # x\r\n".to_string()), "a = 1\n");
    assert!(matches!(action, WriteAction::Rewrite(text) if text == "a = 1 # x\n"));
    // Another value, key, order of a list, or one key less is a change.
    let lists = "[[l]]\nname = 'p'\n[[l]]\nname = 'q'\n";
    for (existing, fresh) in [
        ("a = 1\n", "a = 2\n"),
        ("a = 1\n", "a = 1\nb = 2\n"),
        ("a = 1\nb = 2\n", "a = 1\n"),
        ("a = 1\n", "[a]\n"),
        (lists, "[[l]]\nname = 'q'\n[[l]]\nname = 'p'\n"),
        (lists, "[[l]]\nname = 'p'\n"),
        ("t = { v = 1 }\n", "[t]\nv = 2\n"),
        ("t = { v = 1 }\n", "[t]\nv = 1\nw = 1\n"),
        ("t = { v = 1, w = 1 }\n", "[t]\nv = 1\n"),
        ("t = { v = 1 }\n", "[t.v]\n"),
    ] {
        let action = plan_write(&DiskRead::Text(existing.to_string()), fresh);
        assert!(matches!(action, WriteAction::Merge(_)), "{existing:?} {fresh:?}");
    }
}

#[test]
fn a_first_write_is_kept_by_the_second() {
    let text = fresh("groq", "", "", POLISH);
    assert!(matches!(plan_write(&DiskRead::Missing, &text), WriteAction::WriteFresh));
    assert_eq!(stored(&text, &text), text);
}

#[test]
fn an_inline_section_keeps_its_spelling() {
    let existing = "overlay = { theme = 'ember', width = 100 } # mine\n";
    let out = stored(existing, "[overlay]\ntheme = \"ember\"\nwidth = 110\nheight = 40\n");
    assert!(out.contains("theme = 'ember'"), "{out}");
    assert!(out.contains("width = 110"), "{out}");
    assert!(out.contains("height = 40"), "{out}");
    assert!(out.contains("# mine"), "{out}");
    let out = stored(existing, "[overlay]\nwidth = 100\n");
    assert_eq!(out, "overlay = { width = 100 } # mine\n");
}

#[test]
fn a_section_without_a_header_gains_one_for_a_plain_value() {
    let existing = "[overlay.colors]\nring = \"#fff\"\n";
    let out = stored(
        existing,
        "[overlay]\ntheme = \"custom\"\n[overlay.colors]\nring = \"#fff\"\n",
    );
    assert!(out.contains("[overlay]\n"), "{out}");
    assert!(out.contains("theme = \"custom\""), "{out}");
}

#[test]
fn the_temporary_file_is_hidden_and_named_after_the_process() {
    assert_eq!(temp_name("config.toml", 4711), ".config.toml.4711.tmp");
    assert_eq!(temp_name("x", 0), ".x.0.tmp");
}

fn text(s: &str) -> TomlValue {
    TomlValue::Text(s.to_string())
}

fn field(key: &str, value: TomlValue) -> ValueEntry {
    ValueEntry {
        key: key.to_string(),
        value,
    }
}

#[test]
fn values_are_compared_by_what_they_hold() {
    let number = |x: f64| TomlValue::Float(x.to_bits());
    assert!(values_equal(&text("a"), &text("a")));
    assert!(!values_equal(&text("a"), &text("b")));
    assert!(!values_equal(&TomlValue::Integer(1), &number(1.0)));
    assert!(values_equal(&number(0.0), &number(-0.0)));
    assert!(!values_equal(&number(f64::NAN), &number(f64::NAN)));
    assert!(values_equal(
        &TomlValue::Boolean(true),
        &TomlValue::Boolean(true)
    ));
    let list = |items: &[i64]| {
        TomlValue::Array(items.iter().map(|n| TomlValue::Integer(*n)).collect())
    };
    assert!(values_equal(&list(&[1, 2]), &list(&[1, 2])));
    assert!(!values_equal(&list(&[1, 2]), &list(&[2, 1])));
    assert!(!values_equal(&list(&[1]), &list(&[1, 1])));
    // The order of keys does not matter, their values do.
    let ab = TomlValue::Inline(vec![field("a", text("x")), field("b", text("y"))]);
    let ba = TomlValue::Inline(vec![field("b", text("y")), field("a", text("x"))]);
    let aa = TomlValue::Inline(vec![field("a", text("x")), field("b", text("z"))]);
    assert!(values_equal(&ab, &ba));
    assert!(!values_equal(&ab, &aa));
    assert!(values_equal(
        &TomlValue::Datetime("1979-05-27".to_string()),
        &TomlValue::Datetime("1979-05-27".to_string())
    ));
}

fn table(entries: Vec<(&str, TomlItem)>) -> TomlTable {
    TomlTable {
        implicit: false,
        entries: entries
            .into_iter()
            .map(|(key, item)| ItemEntry {
                key: key.to_string(),
                item,
            })
            .collect(),
    }
}

#[test]
fn a_merged_table_keeps_the_old_order_and_appends_new_keys() {
    let old = table(vec![
        ("z", TomlItem::Value(text("1"))),
        ("stale", TomlItem::Value(text("2"))),
        ("a", TomlItem::Value(text("3"))),
    ]);
    let new = table(vec![
        ("a", TomlItem::Value(text("3"))),
        ("n", TomlItem::Value(text("4"))),
        ("z", TomlItem::Value(text("5"))),
    ]);
    let plan = merge_table(&old, &new);
    let keys: Vec<&str> = plan.entries.iter().map(|e| e.key.as_str()).collect();
    assert_eq!(keys, ["z", "a", "n"]);
    assert!(matches!(plan.entries[0].action, ItemAction::Change));
    assert!(matches!(plan.entries[1].action, ItemAction::Keep));
    assert!(matches!(plan.entries[2].action, ItemAction::Fresh));
}

#[test]
fn a_change_of_structure_takes_the_fresh_item() {
    let value = TomlItem::Value(text("x"));
    let tables = TomlItem::Tables(vec![table(vec![])]);
    assert!(matches!(merge_item(&value, &tables), ItemAction::Fresh));
    assert!(matches!(merge_item(&tables, &value), ItemAction::Fresh));
}
