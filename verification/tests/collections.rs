use wallpaper_store::collection::{
    candidate_id, collection_dir, collections_dir, create_collection, delete_collection,
    first_free_id, list_collection_files, list_collections, sanitize, slug_char, suffixed_id,
    CollectionEntry, FileEntry,
};
use wallpaper_store::error::Error;
use wallpaper_store::meta::{read_record, record_from_fields, CollectionRecord};

const BASE: &str = "/data/user/files";

fn text(v: Vec<char>) -> String {
    v.into_iter().collect()
}

fn chars(s: &str) -> Vec<char> {
    s.chars().collect()
}

fn dir(name: &str, meta: Option<&str>) -> CollectionEntry {
    CollectionEntry { name: name.to_string(), is_dir: true, meta: meta.map(|m| m.to_string()) }
}

fn record(id: Option<&str>, name: Option<&str>, created_at: Option<u64>) -> CollectionRecord {
    CollectionRecord {
        id: id.map(|s| s.to_string()),
        name: name.map(|s| s.to_string()),
        created_at,
    }
}

fn file(name: &str) -> FileEntry {
    FileEntry { name: name.to_string(), is_file: true }
}

#[test]
fn sanitize_keeps_alphanumerics_hyphen_and_underscore() {
    assert_eq!(text(sanitize("Sunsets")), "Sunsets");
    assert_eq!(text(sanitize("my-set_2")), "my-set_2");
    assert_eq!(text(sanitize("a b/c.d")), "a_b_c_d");
    assert_eq!(text(sanitize("../..")), "_____");
    assert_eq!(text(sanitize("")), "");
    assert_eq!(text(sanitize("Закаты 2024!")), "Закаты_2024_");
}

#[test]
fn slug_char_replaces_what_is_not_kept() {
    assert_eq!(slug_char('a', true), 'a');
    assert_eq!(slug_char('-', false), '-');
    assert_eq!(slug_char('_', false), '_');
    assert_eq!(slug_char(' ', false), '_');
    assert_eq!(slug_char('/', false), '_');
    assert_eq!(slug_char('/', true), '_');
    assert_eq!(slug_char('.', true), '_');
    assert_eq!(slug_char('.', false), '_');
    assert_eq!(slug_char('é', true), 'é');
    assert_eq!(slug_char('é', false), '_');
}

#[test]
fn candidate_id_is_slug_and_second() {
    assert_eq!(text(candidate_id("Sunsets", 1700000000)), "Sunsets_1700000000");
    assert_eq!(text(candidate_id("a b", 0)), "a_b_0");
    assert_eq!(text(candidate_id("x", u64::MAX)), "x_18446744073709551615");
    assert_eq!(text(candidate_id("x", 10)), "x_10");
    assert_eq!(text(candidate_id("x", 9)), "x_9");
    assert_eq!(text(candidate_id("x", 1009)), "x_1009");
}

#[test]
fn suffixed_id_counts_from_one() {
    assert_eq!(text(suffixed_id(&chars("a_5"), 0)), "a_5");
    assert_eq!(text(suffixed_id(&chars("a_5"), 1)), "a_5_1");
    assert_eq!(text(suffixed_id(&chars("a_5"), 12)), "a_5_12");
}

#[test]
fn first_free_id_skips_taken_names() {
    let taken = vec![chars("a_5"), chars("a_5_2"), chars("a_5_1"), chars("other")];
    assert_eq!(text(first_free_id(&chars("a_5"), &taken)), "a_5_3");
    assert_eq!(text(first_free_id(&chars("b_5"), &taken)), "b_5");
    assert_eq!(text(first_free_id(&chars("a_5"), &vec![])), "a_5");
    let gap = vec![chars("a_5"), chars("a_5_2")];
    assert_eq!(text(first_free_id(&chars("a_5"), &gap)), "a_5_1");
}

#[test]
fn collection_directories_lie_under_collections() {
    assert_eq!(collections_dir(BASE), "/data/user/files/collections");
    assert_eq!(
        collection_dir(BASE, "Sunsets_1700000000").unwrap(),
        "/data/user/files/collections/Sunsets_1700000000"
    );
    assert_eq!(collection_dir(BASE, "a/b").unwrap(), "/data/user/files/collections/a/b");
    assert_eq!(collection_dir(BASE, "a/").unwrap(), "/data/user/files/collections/a/");
    assert_eq!(collection_dir(BASE, "").unwrap(), "/data/user/files/collections/");
    assert_eq!(collection_dir(BASE, ".").unwrap(), "/data/user/files/collections/.");
    assert_eq!(
        collection_dir(BASE, "/data/user/files/elsewhere").unwrap(),
        "/data/user/files/elsewhere"
    );
}

#[test]
fn collection_directory_outside_base_is_refused() {
    assert_eq!(collection_dir(BASE, "../x"), Err(Error::PathNotAllowed));
    assert_eq!(collection_dir(BASE, ".."), Err(Error::PathNotAllowed));
    assert_eq!(collection_dir(BASE, "a/../../.."), Err(Error::PathNotAllowed));
    assert_eq!(collection_dir(BASE, "/etc"), Err(Error::PathNotAllowed));
}

#[test]
fn create_collection_gives_identifier_directory_and_record() {
    let created = create_collection(BASE, &vec![], "Sunsets", 1700000000).unwrap();
    assert_eq!(created.id, "Sunsets_1700000000");
    assert_eq!(created.dir, "/data/user/files/collections/Sunsets_1700000000");
    assert_eq!(created.meta_path, "/data/user/files/collections/Sunsets_1700000000/_meta.json");
    let value: serde_json::Value = serde_json::from_str(&created.meta_text).unwrap();
    assert_eq!(value["name"].as_str(), Some("Sunsets"));
    assert_eq!(value["id"].as_str(), Some("Sunsets_1700000000"));
    assert_eq!(value["created_at"].as_u64(), Some(1700000000));
    assert_eq!(value.as_object().unwrap().len(), 3);
    assert_ne!(created.meta_text, "Sunsets");
}

#[test]
fn create_collection_twice_with_same_name_is_duplicate() {
    let first = create_collection(BASE, &vec![], "X", 100).unwrap();
    let listing = vec![dir(&first.id, Some(&first.meta_text))];
    assert_eq!(create_collection(BASE, &listing, "X", 100), Err(Error::DuplicateName));
    assert_eq!(create_collection(BASE, &listing, "X", 101), Err(Error::DuplicateName));
    assert!(create_collection(BASE, &listing, "x", 100).is_ok());
}

#[test]
fn create_collection_resolves_identifier_collisions_with_a_counter() {
    let first = create_collection(BASE, &vec![], "a b", 100).unwrap();
    assert_eq!(first.id, "a_b_100");
    let mut listing = vec![dir(&first.id, Some(&first.meta_text))];
    let second = create_collection(BASE, &listing, "a_b", 100).unwrap();
    assert_eq!(second.id, "a_b_100_1");
    assert_ne!(second.id, first.id);
    listing.push(dir(&second.id, Some(&second.meta_text)));
    let third = create_collection(BASE, &listing, "a/b", 100).unwrap();
    assert_eq!(third.id, "a_b_100_2");
}

#[test]
fn create_collection_counts_plain_files_as_taken() {
    let listing = vec![CollectionEntry { name: "n_7".to_string(), is_dir: false, meta: None }];
    assert_eq!(create_collection(BASE, &listing, "n", 7).unwrap().id, "n_7_1");
}

#[test]
fn create_collection_takes_the_name_of_a_degraded_directory_as_taken() {
    let listing = vec![dir("Old", None)];
    assert_eq!(create_collection(BASE, &listing, "Old", 5), Err(Error::DuplicateName));
    assert_eq!(create_collection(BASE, &listing, "New", 5).unwrap().id, "New_5");
}

#[test]
fn list_collections_on_fresh_installation_is_empty() {
    assert_eq!(list_collections(None), vec![]);
    assert_eq!(list_collections(Some(&vec![])), vec![]);
}

#[test]
fn list_collections_sorts_newest_first() {
    let a = create_collection(BASE, &vec![], "A", 10).unwrap();
    let b = create_collection(BASE, &vec![], "B", 30).unwrap();
    let c = create_collection(BASE, &vec![], "C", 20).unwrap();
    let listing = vec![
        dir(&a.id, Some(&a.meta_text)),
        dir(&b.id, Some(&b.meta_text)),
        CollectionEntry { name: "stray.txt".to_string(), is_dir: false, meta: None },
        dir(&c.id, Some(&c.meta_text)),
        dir("bare", None),
    ];
    let records = list_collections(Some(&listing));
    let names: Vec<&str> = records.iter().map(|r| r.name.as_deref().unwrap()).collect();
    assert_eq!(names, vec!["B", "C", "A", "bare"]);
    let seconds: Vec<u64> = records.iter().map(|r| r.created_at.unwrap()).collect();
    assert_eq!(seconds, vec![30, 20, 10, 0]);
    assert_eq!(records[0].id.as_deref(), Some("B_30"));
}

#[test]
fn list_collections_degrades_records_that_are_missing_or_no_json() {
    let listing = vec![dir("broken", Some("{ not json")), dir("bare", None), dir("empty", Some(""))];
    let records = list_collections(Some(&listing));
    assert_eq!(
        records,
        vec![
            record(Some("broken"), Some("broken"), Some(0)),
            record(Some("bare"), Some("bare"), Some(0)),
            record(Some("empty"), Some("empty"), Some(0)),
        ]
    );
}

#[test]
fn list_collections_lists_what_a_parsed_record_holds() {
    let listing = vec![
        dir("partial", Some("{\"name\": \"P\"}")),
        dir("wrong", Some("{\"name\": 1, \"id\": \"w\", \"created_at\": 3}")),
        dir("negative", Some("{\"name\": \"n\", \"id\": \"n\", \"created_at\": -3}")),
        dir("array", Some("[1, 2]")),
        dir("late", Some("{\"name\": \"L\", \"created_at\": 9}")),
    ];
    let records = list_collections(Some(&listing));
    assert_eq!(
        records,
        vec![
            record(None, Some("L"), Some(9)),
            record(Some("w"), None, Some(3)),
            record(None, Some("P"), None),
            record(Some("n"), Some("n"), None),
            record(None, None, None),
        ]
    );
}

#[test]
fn create_collection_compares_the_stored_name() {
    let listing = vec![dir("somewhere", Some("{\"name\": \"N\"}"))];
    assert_eq!(create_collection(BASE, &listing, "N", 5), Err(Error::DuplicateName));
    assert_eq!(create_collection(BASE, &listing, "somewhere", 5).unwrap().id, "somewhere_5");
    let nameless = vec![dir("d", Some("{\"id\": \"d\", \"created_at\": 1}"))];
    assert_eq!(create_collection(BASE, &nameless, "d", 5).unwrap().id, "d_5");
}

#[test]
fn read_record_reads_what_serde_json_reads() {
    let r = read_record("d", Some("{\"created_at\": 7, \"id\": \"i\", \"name\": \"n \\\"q\\\"\"}"));
    assert_eq!(r, record(Some("i"), Some("n \"q\""), Some(7)));
    assert_eq!(read_record("d", None), record(Some("d"), Some("d"), Some(0)));
    assert_eq!(read_record("d", Some("nonsense")), record(Some("d"), Some("d"), Some(0)));
    assert_eq!(read_record("d", Some("{}")), record(None, None, None));
}

#[test]
fn record_from_fields_degrades_only_what_was_not_found() {
    let full = record(Some("i"), Some("n"), Some(9));
    assert_eq!(record_from_fields("d", Some(full.clone())), full);
    assert_eq!(record_from_fields("d", None), record(Some("d"), Some("d"), Some(0)));
    let nameless = record(Some("i"), None, Some(9));
    assert_eq!(record_from_fields("d", Some(nameless.clone())), nameless);
    let bare = record(None, None, None);
    assert_eq!(record_from_fields("d", Some(bare.clone())), bare);
}

#[test]
fn metadata_record_round_trips_names_that_need_escapes() {
    let name = "He said \"hi\" \\ and\nleft\t€ 😀";
    let created = create_collection(BASE, &vec![], name, u64::MAX).unwrap();
    let records = list_collections(Some(&vec![dir(&created.id, Some(&created.meta_text))]));
    assert_eq!(records, vec![record(Some(&created.id), Some(name), Some(u64::MAX))]);
}

#[test]
fn list_collection_files_hides_reserved_names() {
    let listing = vec![file("_meta.json"), file("b.png"), file("_hidden"), file("a.png")];
    let files = list_collection_files("c_1", Some(&listing));
    assert_eq!(files, vec!["collections/c_1/a.png", "collections/c_1/b.png"]);
    for f in &files {
        let name = f.rsplit('/').next().unwrap();
        assert!(!name.starts_with('_'));
    }
}

#[test]
fn list_collection_files_skips_what_is_no_regular_file() {
    let listing = vec![
        FileEntry { name: "sub".to_string(), is_file: false },
        file("z"),
        file("Z"),
        file("10"),
        file("9"),
        file("z"),
        file("é"),
        file("za"),
    ];
    let files = list_collection_files("c", Some(&listing));
    let mut expected: Vec<String> =
        ["z", "Z", "10", "9", "z", "é", "za"].iter().map(|n| format!("collections/c/{}", n)).collect();
    expected.sort();
    assert_eq!(files, expected);
}

#[test]
fn list_collection_files_of_missing_directory_is_empty() {
    assert_eq!(list_collection_files("c", None), Vec::<String>::new());
    assert_eq!(list_collection_files("c", Some(&vec![])), Vec::<String>::new());
    assert_eq!(list_collection_files("c", Some(&vec![file("_meta.json")])), Vec::<String>::new());
}

#[test]
fn delete_collection_of_missing_collection_succeeds() {
    assert_eq!(delete_collection(BASE, "gone_1", false), Ok(None));
    assert_eq!(delete_collection(BASE, "gone_1", false), Ok(None));
    assert_eq!(
        delete_collection(BASE, "here_1", true),
        Ok(Some("/data/user/files/collections/here_1".to_string()))
    );
    assert_eq!(delete_collection(BASE, "here_1", false), Ok(None));
    assert_eq!(delete_collection(BASE, "a/b", false), Ok(None));
    assert_eq!(delete_collection(BASE, "a/", false), Ok(None));
    assert_eq!(delete_collection(BASE, "", false), Ok(None));
    assert_eq!(delete_collection(BASE, ".", false), Ok(None));
    assert_eq!(
        delete_collection(BASE, "a/b", true),
        Ok(Some("/data/user/files/collections/a/b".to_string()))
    );
}

#[test]
fn delete_collection_outside_base_is_refused() {
    assert_eq!(delete_collection(BASE, "../x", true), Err(Error::PathNotAllowed));
    assert_eq!(delete_collection(BASE, "../x", false), Err(Error::PathNotAllowed));
    assert_eq!(delete_collection(BASE, "/etc", false), Err(Error::PathNotAllowed));
}
