use tolerance_api::index::tokenize;
use tolerance_api::index::SearchIndex;
use tolerance_api::model::{Element, ElementType};

fn make_element(id: &str, title: &str, text: &str, element_type: ElementType) -> Element {
    Element {
        element_type,
        element_identifier: id.to_string(),
        title: title.to_string(),
        text: text.to_string(),
        doc_identifier: "TEST".to_string(),
    }
}

#[test]
fn test_lookup_by_identifier() {
    let elements: Vec<Element> = vec![
        make_element("03.01", "Access Control", "", ElementType::Family),
        make_element("03.02", "Awareness", "", ElementType::Family),
    ];
    let index = SearchIndex::build(&elements);

    assert_eq!(index.get_by_identifier("03.01"), Some(0));
    assert_eq!(index.get_by_identifier("03.02"), Some(1));
    assert_eq!(index.get_by_identifier("03.03"), None);
}

#[test]
fn test_filter_by_type() {
    let elements: Vec<Element> = vec![
        make_element("03.01", "Access Control", "", ElementType::Family),
        make_element("03.01.01", "Account Mgmt", "", ElementType::Requirement),
    ];
    let index = SearchIndex::build(&elements);

    assert_eq!(index.get_by_type(ElementType::Family).len(), 1);
    assert_eq!(index.get_by_type(ElementType::Requirement).len(), 1);
    assert_eq!(index.count_by_type(ElementType::Family), 1);
}

#[test]
fn test_search() {
    let elements: Vec<Element> = vec![
        make_element("03.01", "Access Control", "manage access", ElementType::Family),
        make_element("03.02", "Training", "security training", ElementType::Family),
    ];
    let index: SearchIndex = SearchIndex::build(&elements);

    let results = index.search("access", None);
    assert_eq!(results.len(), 1);
    assert_eq!(results[0], 0);
}

#[test]
fn duplicate_identifier_resolves_to_last() {
    let elements = vec![
        make_element("03.01", "First", "", ElementType::Family),
        make_element("03.01", "Second", "", ElementType::Requirement),
    ];
    let index = SearchIndex::build(&elements);
    assert_eq!(index.get_by_identifier("03.01"), Some(1));
}

#[test]
fn type_lists_partition_elements() {
    let elements = vec![
        make_element("03.01", "Access Control", "", ElementType::Family),
        make_element("03.01.01", "Account Management", "", ElementType::Requirement),
        make_element("03.02", "Awareness", "", ElementType::Family),
        make_element("SR-03.01.01.a", "A", "", ElementType::SecurityRequirement),
    ];
    let index = SearchIndex::build(&elements);
    assert_eq!(index.get_by_type(ElementType::Family), &[0, 2]);
    assert_eq!(index.get_by_type(ElementType::Requirement), &[1]);
    assert_eq!(index.get_by_type(ElementType::SecurityRequirement), &[3]);
    assert_eq!(index.count_by_type(ElementType::Discussion), 0);
    assert_eq!(index.len(), 4);
}

#[test]
fn search_is_case_insensitive_and_filtered() {
    let elements = vec![
        make_element("03.01", "Access Control", "", ElementType::Family),
        make_element("03.01.01", "Account Management", "access accounts", ElementType::Requirement),
    ];
    let index = SearchIndex::build(&elements);
    assert_eq!(index.search("ACCESS", None), vec![0, 1]);
    assert_eq!(index.search("access", Some(ElementType::Requirement)), vec![1]);
}

#[test]
fn search_falls_back_to_substring() {
    let elements = vec![
        make_element("03.01", "Access Control", "", ElementType::Family),
        make_element("03.13", "System and Communications Protection", "", ElementType::Family),
    ];
    let index = SearchIndex::build(&elements);
    // "acc" is no whole word, so the substring search applies.
    assert_eq!(index.search("acc", None), vec![0]);
    // A multi-word query never uses the word index.
    assert_eq!(index.search("access control", None), vec![0]);
    // Identifier text is searched too.
    assert_eq!(index.search("03.13", None), vec![1]);
    assert_eq!(index.search("nothing here", None), Vec::<usize>::new());
}

#[test]
fn single_letter_words_are_not_indexed() {
    let elements = vec![make_element("x", "a b c", "", ElementType::Family)];
    let index = SearchIndex::build(&elements);
    // "a" is not a word of the index, but the substring search still finds it.
    assert_eq!(index.search("a", None), vec![0]);
}

#[test]
fn tokenize_splits_on_non_alphanumerics() {
    assert_eq!(tokenize("sr-03.01.01.a foo_bar"), vec!["sr", "03", "01", "01", "foo", "bar"]);
    assert_eq!(tokenize("é x yz"), vec!["é", "yz"]);
    assert_eq!(tokenize(""), Vec::<String>::new());
}
