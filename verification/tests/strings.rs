use wallpaper_store::meta::{holds, read_fields, write_record, CollectionRecord};
use wallpaper_store::text::{
    chars_le, chars_of, digit, push_chars, push_decimal, same_chars, string_of,
};

fn chars(s: &str) -> Vec<char> {
    s.chars().collect()
}

#[test]
fn chars_of_gives_the_characters_in_order() {
    assert_eq!(chars_of("a/é😀"), vec!['a', '/', 'é', '😀']);
    assert_eq!(chars_of(""), Vec::<char>::new());
}

#[test]
fn string_of_takes_a_range_of_characters() {
    let v = chars("héllo");
    assert_eq!(string_of(&v, 0, 5), "héllo");
    assert_eq!(string_of(&v, 1, 3), "él");
    assert_eq!(string_of(&v, 2, 2), "");
}

#[test]
fn decimal_notation_has_no_leading_zeros() {
    for (n, expected) in
        [(0u64, "0"), (7, "7"), (10, "10"), (105, "105"), (1700000000, "1700000000"), (u64::MAX, "18446744073709551615")]
    {
        let mut out = chars("x_");
        push_decimal(&mut out, n);
        assert_eq!(out.into_iter().collect::<String>(), format!("x_{}", expected));
    }
    assert_eq!(digit(0), '0');
    assert_eq!(digit(9), '9');
}

#[test]
fn push_chars_appends() {
    let mut out = chars("ab");
    push_chars(&mut out, &chars("cd"));
    assert_eq!(out, chars("abcd"));
    push_chars(&mut out, &chars(""));
    assert_eq!(out, chars("abcd"));
}

#[test]
fn same_chars_compares_whole_sequences() {
    assert!(same_chars(&chars("home"), &chars("home")));
    assert!(!same_chars(&chars("home"), &chars("homes")));
    assert!(!same_chars(&chars("home"), &chars("hone")));
    assert!(same_chars(&chars(""), &chars("")));
}

#[test]
fn chars_le_is_the_order_of_strings() {
    let words = ["", "a", "A", "ab", "b", "10", "9", "é", "z", "za", "a/b", "a.b", "😀"];
    for a in words {
        for b in words {
            assert_eq!(chars_le(&chars(a), &chars(b)), a <= b);
        }
    }
}

#[test]
fn written_record_reads_back_as_its_values() {
    let text = write_record("Sun__set__5", "Sun \"set\"", 5).unwrap();
    let value: serde_json::Value = serde_json::from_str(&text).unwrap();
    assert_eq!(value["name"].as_str(), Some("Sun \"set\""));
    assert_eq!(value["id"].as_str(), Some("Sun__set__5"));
    assert_eq!(value["created_at"].as_u64(), Some(5));
    assert_eq!(value.as_object().unwrap().len(), 3);
    assert!(text.contains('\n'));
    assert_eq!(
        read_fields(&text),
        Some(CollectionRecord {
            id: Some("Sun__set__5".to_string()),
            name: Some("Sun \"set\"".to_string()),
            created_at: Some(5),
        })
    );
}

#[test]
fn read_fields_picks_the_three_members_by_their_names() {
    assert_eq!(read_fields("not json"), None);
    assert_eq!(
        read_fields("{\"id\": \"a\", \"name\": \"b\", \"created_at\": 1, \"more\": true}"),
        Some(CollectionRecord {
            id: Some("a".to_string()),
            name: Some("b".to_string()),
            created_at: Some(1),
        })
    );
    assert_eq!(
        read_fields("{\"ID\": \"a\", \"Name\": \"b\", \"created\": 1}"),
        Some(CollectionRecord { id: None, name: None, created_at: None })
    );
    assert_eq!(
        read_fields("{\"id\": 1, \"name\": null, \"created_at\": \"1\"}"),
        Some(CollectionRecord { id: None, name: None, created_at: None })
    );
    assert_eq!(
        read_fields("{\"id\": \"name\", \"name\": \"id\", \"created_at\": 1.5}"),
        Some(CollectionRecord {
            id: Some("name".to_string()),
            name: Some("id".to_string()),
            created_at: None,
        })
    );
}

#[test]
fn holds_compares_all_three_members() {
    let found = Some(CollectionRecord {
        id: Some("i".to_string()),
        name: Some("n".to_string()),
        created_at: Some(3),
    });
    assert!(holds(&found, "i", "n", 3));
    assert!(!holds(&found, "i", "m", 3));
    assert!(!holds(&found, "j", "n", 3));
    assert!(!holds(&found, "n", "i", 3));
    assert!(!holds(&found, "i", "n", 4));
    assert!(!holds(&None, "i", "n", 3));
    let partial =
        Some(CollectionRecord { id: Some("i".to_string()), name: None, created_at: Some(3) });
    assert!(!holds(&partial, "i", "n", 3));
}
