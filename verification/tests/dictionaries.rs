use qingjian::dictionaries::{
    filter_words, forget_request_words, load, page_rows, request_forget, row_label, supported, DictionariesConfig, ReadSummary, is_metadata_file, page_count, set_membership, stem, strip_extensions,
    target_name, turn_page, WORDS_PER_PAGE,
};

#[test]
fn strips_known_extensions() {
    assert_eq!(strip_extensions("law.dict.yaml"), "law");
    assert_eq!(strip_extensions("dict.tsv"), "dict");
    assert_eq!(strip_extensions("x.qj"), "x");
    assert_eq!(strip_extensions("noext"), "noext");
}

#[test]
fn only_the_first_known_suffix_goes() {
    assert_eq!(stem("a.txt.qj"), "a.txt");
    assert_eq!(stem("law.yml"), "law");
    assert_eq!(stem(".qj"), "");
    assert_eq!(target_name("law"), "law.qj");
    assert!(is_metadata_file("._animals.qj"));
    assert!(!is_metadata_file("animals.qj"));
}

fn words() -> Vec<(String, String)> {
    vec![
        ("青简".to_owned(), "qingjian".to_owned()),
        ("Minecraft".to_owned(), "minecraft".to_owned()),
        ("特朗普".to_owned(), "telangpu".to_owned()),
    ]
}

#[test]
fn pages_cover_every_word_and_never_go_below_one() {
    assert_eq!(page_count(0), 1);
    assert_eq!(page_count(1), 1);
    assert_eq!(page_count(WORDS_PER_PAGE), 1);
    assert_eq!(page_count(WORDS_PER_PAGE + 1), 2);
    assert_eq!(page_count(WORDS_PER_PAGE * 3), 3);
    assert_eq!(page_count(WORDS_PER_PAGE * 3 + 1), 4);
}

#[test]
fn filter_matches_word_and_pinyin() {
    assert_eq!(filter_words(&words(), None).len(), 3);
    assert_eq!(filter_words(&words(), Some("  ")).len(), 3);
    assert_eq!(filter_words(&words(), Some("QINGJIAN")).len(), 1);
    assert_eq!(filter_words(&words(), Some(" 青 ")).len(), 1);
    assert_eq!(filter_words(&words(), Some("mine")).len(), 1);
    assert!(filter_words(&words(), Some("没有这个词")).is_empty());
}

#[test]
fn last_page_takes_the_remainder() {
    let total = WORDS_PER_PAGE + 7;
    let last = page_count(total) - 1;
    let start = last * WORDS_PER_PAGE;
    let end = (start + WORDS_PER_PAGE).min(total);
    assert_eq!(end - start, 7);
}

#[test]
fn filtering_keeps_the_order_of_the_list() {
    let found = filter_words(&words(), Some("N"));
    assert_eq!(
        found,
        vec![
            ("青简".to_owned(), "qingjian".to_owned()),
            ("Minecraft".to_owned(), "minecraft".to_owned()),
            ("特朗普".to_owned(), "telangpu".to_owned()),
        ]
    );
    let craft = filter_words(&words(), Some("CRAFT"));
    assert_eq!(craft, vec![("Minecraft".to_owned(), "minecraft".to_owned())]);
}

#[test]
fn a_listing_keeps_one_file_per_name_with_the_best_extension() {
    let names: Vec<String> = [
        "idioms.qj",
        "idioms.tsv",
        "food.tsv",
        "notes.txt",
        "vibe.dict.yaml",
        "readme.md",
        "._idioms.qj",
        "._food.qj",
        ".hidden.qj",
        "removed",
    ]
    .iter()
    .map(|s| s.to_string())
    .collect();
    let chosen = qingjian::dictionaries::dictionary_files(&names);
    let listed: Vec<(&str, &str)> = chosen
        .iter()
        .map(|(stem, index)| (stem.as_str(), names[*index].as_str()))
        .collect();
    assert_eq!(
        listed,
        [
            ("food", "food.tsv"),
            ("idioms", "idioms.qj"),
            ("notes", "notes.txt"),
            ("vibe", "vibe.dict.yaml"),
        ]
    );
}

#[test]
fn same_rank_files_fall_back_to_the_file_name() {
    let names: Vec<String> = ["law.yaml", "law.dict.yaml", "a.", "b.QJ", "zz.yml"]
        .iter()
        .map(|s| s.to_string())
        .collect();
    let chosen = qingjian::dictionaries::dictionary_files(&names);
    let listed: Vec<(&str, &str)> = chosen
        .iter()
        .map(|(stem, index)| (stem.as_str(), names[*index].as_str()))
        .collect();
    assert_eq!(listed, [("law", "law.dict.yaml"), ("zz", "zz.yml")]);
}

#[test]
fn forget_requests_are_one_word_per_line() {
    let words = qingjian::dictionaries::forget_request_words(" 青简 \r\n\n  \nMinecraft");
    assert_eq!(words, vec!["青简".to_owned(), "Minecraft".to_owned()]);
    assert!(qingjian::dictionaries::forget_request_words("\n \n").is_empty());
}

#[test]
fn switch_lists_add_once_and_remove_every_copy() {
    let list = vec!["law".to_owned(), "food".to_owned(), "law".to_owned()];
    assert_eq!(set_membership(&list, &"food".to_owned(), false), vec!["law".to_owned(), "law".to_owned()]);
    assert_eq!(set_membership(&list, &"law".to_owned(), false), vec!["food".to_owned()]);
    assert_eq!(set_membership(&list, &"law".to_owned(), true), list);
    assert_eq!(
        set_membership(&list, &"idioms".to_owned(), true),
        vec!["law".to_owned(), "food".to_owned(), "law".to_owned(), "idioms".to_owned()]
    );
}

#[test]
fn turning_pages_stays_inside_the_list() {
    assert_eq!(turn_page(0, -1, 3), 0);
    assert_eq!(turn_page(0, 1, 3), 1);
    assert_eq!(turn_page(2, 1, 3), 2);
    assert_eq!(turn_page(5, -1, 3), 2);
    assert_eq!(turn_page(0, 1, 1), 0);
}

#[test]
fn filtering_reads_the_lowered_forms_beside_the_words() {
    let words = words();
    let lowered = vec![
        ("青简".to_owned(), "qingjian".to_owned()),
        ("minecraft".to_owned(), "minecraft".to_owned()),
        ("特朗普".to_owned(), "telangpu".to_owned()),
    ];
    let found = qingjian::dictionaries::filter_lowered(&words, &lowered, "craft");
    assert_eq!(found, vec![("Minecraft".to_owned(), "minecraft".to_owned())]);
    let by_word = qingjian::dictionaries::filter_lowered(&words, &lowered, "朗");
    assert_eq!(by_word, vec![("特朗普".to_owned(), "telangpu".to_owned())]);
    assert_eq!(qingjian::dictionaries::filter_lowered(&words, &lowered, "").len(), 3);
}

fn listing(stems: &[&str]) -> Vec<(String, String)> {
    stems.iter().map(|s| (s.to_string(), format!("dir/{s}.qj"))).collect()
}

#[test]
fn domains_load_when_listed_and_user_dictionaries_unless_disabled() {
    let config = DictionariesConfig {
        domains: vec!["law".to_owned()],
        disabled: vec!["old".to_owned()],
    };
    assert!(config.is_domain_enabled("law"));
    assert!(!config.is_domain_enabled("medicine"));
    assert!(config.is_enabled("games"));
    assert!(!config.is_enabled("old"));
    let loaded = load(
        &listing(&["law", "medicine"]),
        &listing(&["games", "old", "poems"]),
        &config,
    );
    let stems: Vec<&str> = loaded.iter().map(|(s, _)| s.as_str()).collect();
    assert_eq!(stems, ["law", "games", "poems"]);
    assert_eq!(loaded[0].1, "dir/law.qj");
}

#[test]
fn the_default_configuration_loads_only_user_dictionaries() {
    let config = DictionariesConfig::default();
    let loaded = load(&listing(&["law"]), &listing(&["law"]), &config);
    assert_eq!(loaded, listing(&["law"]));
    assert!(load(&Vec::new(), &Vec::new(), &config).is_empty());
}

#[test]
fn only_loadable_extensions_are_supported() {
    assert!(supported("law.qj"));
    assert!(supported("law.dict.yaml"));
    assert!(supported("words.TXT") == false);
    assert!(!supported("notes.md"));
    assert!(!supported(".qj"));
    assert!(!supported("noext"));
}

#[test]
fn rows_name_the_dictionary_its_size_and_origin() {
    let law = ReadSummary { name: "法律".to_owned(), entries: 120, license: "CC-BY".to_owned() };
    assert_eq!(row_label("law.qj", "law", Some(&law), true), ("法律 · 120 条 · 随包".to_owned(), false));
    assert_eq!(row_label("law.qj", "law", Some(&law), false), ("法律 · 120 条 · CC-BY".to_owned(), false));
    let bare = ReadSummary { name: "x".to_owned(), entries: 0, license: String::new() };
    assert_eq!(row_label("x.tsv", "x", Some(&bare), false), ("x · 0 条".to_owned(), false));
    assert_eq!(
        row_label("law.md", "law", None, false),
        ("law（后缀不认识，点下面「导入词库…」转换）".to_owned(), true)
    );
    assert_eq!(
        row_label("law.qj", "law", None, false),
        ("law（读不了：文件损坏或格式不对）".to_owned(), true)
    );
    let big = ReadSummary { name: "n".to_owned(), entries: 1_000_007, license: String::new() };
    assert_eq!(row_label("n.qj", "n", Some(&big), false).0, "n · 1000007 条");
}

#[test]
fn a_forget_request_is_appended_once() {
    assert_eq!(request_forget("", "你好").as_deref(), Some("你好\n"));
    assert_eq!(request_forget("再见\n", "你好").as_deref(), Some("再见\n你好\n"));
    assert_eq!(request_forget("再见\n  你好 \r\n", "你好"), None);
    assert_eq!(request_forget("再见", "你好").as_deref(), Some("再见你好\n"));
    assert_eq!(request_forget("a\n\nb", ""), None);
    assert_eq!(request_forget("", "").as_deref(), Some("\n"));
}

#[test]
fn the_server_reads_back_a_requested_word() {
    let text = request_forget("再见\n", "你好").unwrap();
    assert_eq!(forget_request_words(&text), ["再见", "你好"]);
}

#[test]
fn the_drawn_page_is_clamped_to_the_last_one() {
    assert_eq!(page_rows(0, 0), (0, 0, 0));
    assert_eq!(page_rows(0, 3), (0, 0, 0));
    assert_eq!(page_rows(120, 1), (1, 50, 100));
    assert_eq!(page_rows(120, 2), (2, 100, 120));
    assert_eq!(page_rows(120, 9), (2, 100, 120));
    assert_eq!(page_rows(100, 5), (1, 50, 100));
}
