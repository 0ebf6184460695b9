use query_pipeline::bundle::{
    FlattenedKindGroupResults, FlattenedPathKindGroupResults, FlattenedResultsBundle,
};
use query_pipeline::facets::{ResultFacetGroup, ResultFacetRoot};
use query_pipeline::kinds::{PathKind, PresentationKind, ResultFacetKind};
use query_pipeline::name_map::NameMap;
use query_pipeline::spans::{FlattenedLineSpan, FlattenedResultsByFile};
use std::collections::HashMap;

#[test]
fn name_map_holds_each_name_once() {
    let mut map: NameMap<u32> = NameMap::new();
    assert_eq!(map.insert("a".to_string(), 1), None);
    assert_eq!(map.insert("b".to_string(), 2), None);
    assert_eq!(map.insert("a".to_string(), 3), Some(1));
    assert_eq!(map.get("a"), Some(&3));
    assert_eq!(map.get("b"), Some(&2));
    assert_eq!(map.get("c"), None);
    assert!(map.contains_key("a"));
    assert!(!map.contains_key("c"));
    let mut entries = map.into_entries();
    entries.sort();
    assert_eq!(entries, vec![("a".to_string(), 3), ("b".to_string(), 2)]);
}

#[test]
fn name_map_remove_takes_the_value_out() {
    let mut map: NameMap<u32> = NameMap::new();
    map.insert("a".to_string(), 1);
    map.insert("b".to_string(), 2);
    assert_eq!(map.remove("a"), Some(1));
    assert_eq!(map.remove("a"), None);
    assert_eq!(map.remove("missing"), None);
    assert!(!map.contains_key("a"));
    assert_eq!(map.get("b"), Some(&2));
    assert_eq!(map.into_entries(), vec![("b".to_string(), 2)]);
}

#[test]
fn name_map_compares_names_by_their_characters() {
    let mut map: NameMap<u32> = NameMap::new();
    map.insert("dir/a.cpp".to_string(), 1);
    map.insert("dir/a.cp".to_string(), 2);
    map.insert("".to_string(), 3);
    map.insert("dir/ä.cpp".to_string(), 4);
    assert_eq!(map.get("dir/a.cpp"), Some(&1));
    assert_eq!(map.get("dir/a.cp"), Some(&2));
    assert_eq!(map.get(""), Some(&3));
    assert_eq!(map.get("dir/ä.cpp"), Some(&4));
    assert_eq!(map.get("dir/a.cpp "), None);
    assert_eq!(map.get("DIR/a.cpp"), None);
}

fn leaf(label: &str, count: u32) -> ResultFacetGroup {
    ResultFacetGroup::leaf(label.to_string(), vec![label.to_string()], count)
}

#[test]
fn facet_with_one_group_is_not_made() {
    let facet = ResultFacetRoot::new(
        "relation".to_string(),
        ResultFacetKind::SymbolByRelation,
        vec![leaf("a", 5)],
        5,
    );
    assert!(facet.is_none());
    let none = ResultFacetRoot::new("relation".to_string(), ResultFacetKind::PathByPath, vec![], 5);
    assert!(none.is_none());
}

#[test]
fn facet_with_a_group_per_result_is_not_made() {
    let facet = ResultFacetRoot::new(
        "path".to_string(),
        ResultFacetKind::PathByPath,
        vec![leaf("a", 1), leaf("b", 1), leaf("c", 1)],
        3,
    );
    assert!(facet.is_none());
    let more_groups = ResultFacetRoot::new(
        "path".to_string(),
        ResultFacetKind::PathByPath,
        vec![leaf("a", 1), leaf("b", 1), leaf("c", 1)],
        2,
    );
    assert!(more_groups.is_none());
}

#[test]
fn facet_that_splits_the_results_is_made() {
    let facet = ResultFacetRoot::new(
        "path".to_string(),
        ResultFacetKind::PathByPath,
        vec![leaf("a", 2), leaf("b", 1)],
        3,
    )
    .unwrap();
    assert_eq!(facet.label, "path");
    assert_eq!(facet.kind, ResultFacetKind::PathByPath);
    assert_eq!(facet.groups.len(), 2);
    assert_eq!(facet.groups[0].count, 2);
    assert_eq!(facet.groups[1].label, "b");
}

#[test]
fn parent_group_counts_what_its_nested_groups_count() {
    let parent = ResultFacetGroup::parent(
        "dir".to_string(),
        vec!["dir".to_string()],
        vec![leaf("dir/a", 2), leaf("dir/b", 5), leaf("dir/c", 0)],
    )
    .unwrap();
    assert_eq!(parent.count, 7);
    assert_eq!(parent.nested_groups.len(), 3);
    let outer = ResultFacetGroup::parent("top".to_string(), vec![], vec![parent, leaf("x", 1)]).unwrap();
    assert_eq!(outer.count, 8);
}

#[test]
fn parent_group_needs_nested_groups_and_a_count_that_fits() {
    assert!(ResultFacetGroup::parent("dir".to_string(), vec![], vec![]).is_none());
    let too_many = ResultFacetGroup::parent(
        "dir".to_string(),
        vec![],
        vec![leaf("a", u32::MAX), leaf("b", 1)],
    );
    assert!(too_many.is_none());
    let just_fits = ResultFacetGroup::parent(
        "dir".to_string(),
        vec![],
        vec![leaf("a", u32::MAX - 1), leaf("b", 1)],
    );
    assert_eq!(just_fits.unwrap().count, u32::MAX);
}

fn span(key_line: u32, start: u32, end: u32) -> FlattenedLineSpan {
    FlattenedLineSpan {
        key_line,
        line_range: (start, end),
        contents: format!("plain {}", key_line),
        context: "ctx".to_string(),
        contextsym: "ctxsym".to_string(),
    }
}

fn by_file(file: &str, spans: Vec<FlattenedLineSpan>) -> FlattenedResultsByFile {
    FlattenedResultsByFile { file: file.to_string(), line_spans: spans }
}

fn sample_bundle() -> FlattenedResultsBundle {
    FlattenedResultsBundle {
        path_kind_results: vec![
            FlattenedPathKindGroupResults {
                path_kind: PathKind::Normal,
                file_names: vec!["a.cpp".to_string()],
                kind_groups: vec![
                    FlattenedKindGroupResults {
                        kind: PresentationKind::Definitions,
                        pretty: "Definitions (Foo)".to_string(),
                        facets: vec![],
                        by_file: vec![by_file("a.cpp", vec![span(10, 10, 10)])],
                    },
                    FlattenedKindGroupResults {
                        kind: PresentationKind::Uses,
                        pretty: "Uses (Foo)".to_string(),
                        facets: vec![],
                        by_file: vec![
                            by_file("a.cpp", vec![span(20, 19, 20)]),
                            by_file("b.cpp", vec![span(2, 2, 2), span(4, 4, 4)]),
                        ],
                    },
                ],
            },
            FlattenedPathKindGroupResults {
                path_kind: PathKind::Test,
                file_names: vec![],
                kind_groups: vec![FlattenedKindGroupResults {
                    kind: PresentationKind::Uses,
                    pretty: "Uses (Foo)".to_string(),
                    facets: vec![],
                    by_file: vec![by_file("test/t.cpp", vec![])],
                }],
            },
        ],
        content_type: "text/plain".to_string(),
    }
}

fn sorted_lines(set: &std::collections::HashSet<u32>) -> Vec<u32> {
    let mut lines: Vec<u32> = set.iter().copied().collect();
    lines.sort();
    lines
}

#[test]
fn bundle_line_sets_cover_every_file_with_results() {
    let sets = sample_bundle().compute_path_line_sets(1, 2);
    assert_eq!(sorted_lines(sets.get("a.cpp").unwrap()), vec![9, 10, 11, 12, 18, 19, 20, 21, 22]);
    assert_eq!(sorted_lines(sets.get("b.cpp").unwrap()), vec![1, 2, 3, 4, 5, 6]);
    assert!(sets.get("test/t.cpp").unwrap().is_empty());
    assert!(sets.get("c.cpp").is_none());
    let mut paths: Vec<String> = sets.into_entries().into_iter().map(|entry| entry.0).collect();
    paths.sort();
    assert_eq!(paths, vec!["a.cpp", "b.cpp", "test/t.cpp"]);
}

#[test]
fn bundle_line_sets_of_an_empty_bundle_are_empty() {
    let bundle =
        FlattenedResultsBundle { path_kind_results: vec![], content_type: "text/plain".to_string() };
    assert!(bundle.compute_path_line_sets(3, 3).into_entries().is_empty());
}

#[test]
fn bundle_ingest_marks_html_and_fills_every_level() {
    let mut bundle = sample_bundle();
    let mut contents: NameMap<HashMap<u32, String>> = NameMap::new();
    let mut a_lines = HashMap::new();
    for line in 1..=30u32 {
        a_lines.insert(line, format!("<a{}>", line));
    }
    contents.insert("a.cpp".to_string(), a_lines);
    let mut b_lines = HashMap::new();
    for line in 1..=4u32 {
        b_lines.insert(line, format!("<b{}>", line));
    }
    contents.insert("b.cpp".to_string(), b_lines);

    bundle.ingest_html_lines(&contents, 1, 1);

    assert_eq!(bundle.content_type, "text/html");
    let normal = &bundle.path_kind_results[0];
    assert_eq!(normal.path_kind, PathKind::Normal);
    assert_eq!(normal.file_names, vec!["a.cpp"]);
    let defs = &normal.kind_groups[0].by_file[0].line_spans[0];
    assert_eq!(defs.line_range, (9, 11));
    assert_eq!(defs.contents, "<a9>\n<a10>\n<a11>");
    assert_eq!(defs.key_line, 10);
    assert_eq!(defs.context, "ctx");
    assert_eq!(defs.contextsym, "ctxsym");
    let uses_a = &normal.kind_groups[1].by_file[0].line_spans[0];
    assert_eq!(uses_a.line_range, (18, 21));
    assert_eq!(uses_a.contents, "<a18>\n<a19>\n<a20>\n<a21>");
    let uses_b = &normal.kind_groups[1].by_file[1].line_spans;
    assert_eq!(uses_b[0].line_range, (1, 3));
    assert_eq!(uses_b[0].contents, "<b1>\n<b2>\n<b3>");
    assert_eq!(uses_b[1].line_range, (4, 4));
    assert_eq!(uses_b[1].contents, "<b4>");
    assert_eq!(normal.kind_groups[1].pretty, "Uses (Foo)");
    assert_eq!(normal.kind_groups[1].kind, PresentationKind::Uses);
    assert_eq!(bundle.path_kind_results[1].kind_groups[0].by_file[0].file, "test/t.cpp");
}

#[test]
fn group_levels_accumulate_and_ingest_their_own_files() {
    let mut bundle = sample_bundle();
    let mut sets = NameMap::new();
    bundle.path_kind_results[0].kind_groups[1].accumulate_path_line_sets(&mut sets, 0, 0);
    assert_eq!(sorted_lines(sets.get("a.cpp").unwrap()), vec![19, 20]);
    assert_eq!(sorted_lines(sets.get("b.cpp").unwrap()), vec![2, 4]);
    bundle.path_kind_results[0].accumulate_path_line_sets(&mut sets, 0, 0);
    assert_eq!(sorted_lines(sets.get("a.cpp").unwrap()), vec![10, 19, 20]);

    let mut contents: NameMap<HashMap<u32, String>> = NameMap::new();
    let mut b_lines = HashMap::new();
    b_lines.insert(2, "two".to_string());
    contents.insert("b.cpp".to_string(), b_lines);
    bundle.path_kind_results[0].kind_groups[1].ingest_html_lines(&contents, 0, 0);
    let group = &bundle.path_kind_results[0].kind_groups[1];
    assert_eq!(group.by_file[0].line_spans[0].contents, "plain 20");
    assert_eq!(group.by_file[1].line_spans[0].contents, "two");
    assert_eq!(group.by_file[1].line_spans[1].line_range, (4, 3));

    let mut a_lines = HashMap::new();
    a_lines.insert(10, "ten".to_string());
    let mut contents: NameMap<HashMap<u32, String>> = NameMap::new();
    contents.insert("a.cpp".to_string(), a_lines);
    bundle.path_kind_results[0].ingest_html_lines(&contents, 0, 0);
    assert_eq!(bundle.path_kind_results[0].kind_groups[0].by_file[0].line_spans[0].contents, "ten");
    assert_eq!(bundle.content_type, "text/plain");
}
