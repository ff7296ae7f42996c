use rqmd::collection_filter::{
    filter_by_collections, resolve_collection_filter, single_collection,
};
use rqmd::collections::{Collection, Config};

struct Rec {
    file: String,
}

fn rec(file: &str) -> Rec {
    Rec { file: file.to_string() }
}

fn files(out: &[Rec]) -> Vec<&str> {
    out.iter().map(|r| r.file.as_str()).collect()
}

#[test]
fn single_collection_picks_only_when_exactly_one() {
    assert_eq!(single_collection(&[]), None);
    assert_eq!(single_collection(&["a".into()]), Some("a".into()));
    assert_eq!(single_collection(&["a".into(), "b".into()]), None);
}

#[test]
fn filter_is_noop_for_zero_or_one_collection() {
    let r = vec![rec("qmd://docs/x.md"), rec("qmd://notes/y.md")];
    let out = filter_by_collections(r, &["docs".into()], |r| r.file.as_str());
    assert_eq!(out.len(), 2);

    let r = vec![rec("qmd://docs/x.md"), rec("qmd://notes/y.md")];
    assert_eq!(filter_by_collections(r, &[], |r| r.file.as_str()).len(), 2);
}

#[test]
fn filter_keeps_only_listed_collections() {
    let r = vec![
        rec("qmd://docs/x.md"),
        rec("qmd://notes/y.md"),
        rec("qmd://archive/z.md"),
    ];
    let out = filter_by_collections(r, &["docs".into(), "notes".into()], |r| r.file.as_str());
    assert_eq!(files(&out), vec!["qmd://docs/x.md", "qmd://notes/y.md"]);
}

fn four() -> Vec<Rec> {
    vec![
        rec("qmd://docs/readme.md"),
        rec("qmd://notes/todo.md"),
        rec("qmd://journals/2024/jan.md"),
        rec("qmd://docs/api.md"),
    ]
}

#[test]
fn filter_keeps_matching_collections_preserving_order() {
    let out = filter_by_collections(four(), &["docs".into(), "journals".into()], |r| {
        r.file.as_str()
    });
    assert_eq!(
        files(&out),
        vec![
            "qmd://docs/readme.md",
            "qmd://journals/2024/jan.md",
            "qmd://docs/api.md",
        ]
    );
}

#[test]
fn filter_two_collections_non_adjacent() {
    let out = filter_by_collections(four(), &["notes".into(), "journals".into()], |r| {
        r.file.as_str()
    });
    assert_eq!(
        files(&out),
        vec!["qmd://notes/todo.md", "qmd://journals/2024/jan.md"]
    );
}

#[test]
fn filter_returns_empty_when_none_match() {
    let out = filter_by_collections(four(), &["archive".into(), "trash".into()], |r| {
        r.file.as_str()
    });
    assert!(out.is_empty());
}

#[test]
fn filter_prefix_does_not_collide_on_name_substring() {
    let r = vec![rec("qmd://foo/a.md"), rec("qmd://foobar/b.md")];
    let out = filter_by_collections(r, &["foo".into(), "baz".into()], |r| r.file.as_str());
    assert_eq!(files(&out), vec!["qmd://foo/a.md"]);
}

fn collection(name: &str, include_by_default: bool) -> Collection {
    Collection { name: name.to_string(), include_by_default, update: None }
}

fn config_with_collections() -> Config {
    Config {
        collections: vec![
            collection("docs", true),
            collection("notes", true),
            collection("archive", false),
        ],
    }
}

#[test]
fn resolve_uses_defaults_when_empty_and_skips_excluded() {
    let config = config_with_collections();
    let names = resolve_collection_filter(&config, &[], true).unwrap();
    assert_eq!(names, vec!["docs".to_string(), "notes".to_string()]);
}

#[test]
fn resolve_empty_without_defaults_is_empty() {
    let config = config_with_collections();
    assert!(resolve_collection_filter(&config, &[], false).unwrap().is_empty());
}

#[test]
fn resolve_validates_explicit_name() {
    let config = config_with_collections();
    let names = resolve_collection_filter(&config, &["archive".into()], true).unwrap();
    assert_eq!(names, vec!["archive".to_string()]);
}

#[test]
fn resolve_errors_on_unknown_name() {
    let config = config_with_collections();
    let err = resolve_collection_filter(&config, &["nope".into()], true).unwrap_err();
    assert_eq!(err.message(), "Collection not found: nope");
    let err =
        resolve_collection_filter(&config, &["docs".into(), "gone".into()], true).unwrap_err();
    assert_eq!(err.message(), "Collection not found: gone");
}

#[test]
fn a_collection_is_found_by_its_name() {
    let config = config_with_collections();
    assert_eq!(config.get_collection("notes").unwrap().name, "notes");
    assert!(config.get_collection("note").is_none());
    assert_eq!(config.default_collection_names(), vec!["docs".to_string(), "notes".to_string()]);
}
