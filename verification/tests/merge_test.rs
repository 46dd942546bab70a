use serde_valid::validation::error::{
    ArrayErrors, Error, Errors, FieldErrors, ItemErrors, ObjectErrors,
};

fn custom(text: &str) -> Error {
    Error::Custom(text.to_string())
}

fn list(texts: &[&str]) -> Errors {
    Errors::NewType(texts.iter().map(|text| custom(text)).collect())
}

fn item(index: usize, errors: Errors) -> ItemErrors {
    ItemErrors { index, errors }
}

fn array(texts: &[&str], items: Vec<ItemErrors>) -> Errors {
    Errors::Array(ArrayErrors::new(texts.iter().map(|text| custom(text)).collect(), items))
}

fn object(fields: Vec<(&str, Errors)>) -> Errors {
    Errors::Object(ObjectErrors {
        fields: fields
            .into_iter()
            .map(|(name, errors)| FieldErrors { name: name.to_string(), errors })
            .collect(),
    })
}

fn merged(mut a: Errors, b: Errors) -> Errors {
    assert!(a.can_merge(&b));
    a.merge(b);
    a
}

#[test]
fn merge_concatenates_two_lists() {
    assert_eq!(merged(list(&["a", "b"]), list(&["c"])), list(&["a", "b", "c"]));
}

#[test]
fn merge_takes_a_list_as_the_own_errors_of_a_sequence() {
    let sequence = array(&["own"], vec![item(2, list(&["x"]))]);
    assert_eq!(
        merged(list(&["a"]), sequence),
        array(&["a", "own"], vec![item(2, list(&["x"]))])
    );
}

#[test]
fn merge_appends_a_list_to_the_own_errors_of_a_sequence() {
    let sequence = array(&["own"], vec![item(2, list(&["x"]))]);
    assert_eq!(
        merged(sequence, list(&["a"])),
        array(&["own", "a"], vec![item(2, list(&["x"]))])
    );
}

#[test]
fn merge_unites_the_items_of_two_sequences() {
    let a = array(&["a"], vec![item(0, list(&["a0"])), item(3, list(&["a3"]))]);
    let b = array(&["b"], vec![item(3, list(&["b3"])), item(1, list(&["b1"]))]);
    assert_eq!(
        merged(a, b),
        array(
            &["a", "b"],
            vec![
                item(0, list(&["a0"])),
                item(3, list(&["a3", "b3"])),
                item(1, list(&["b1"])),
            ]
        )
    );
}

#[test]
fn merge_descends_into_nested_sequences() {
    let a = array(&[], vec![item(1, array(&[], vec![item(0, list(&["deep a"]))]))]);
    let b = array(&[], vec![item(1, array(&["inner"], vec![item(0, list(&["deep b"]))]))]);
    assert_eq!(
        merged(a, b),
        array(
            &[],
            vec![item(1, array(&["inner"], vec![item(0, list(&["deep a", "deep b"]))]))]
        )
    );
}

#[test]
fn merge_unites_the_fields_of_two_objects() {
    let a = object(vec![("x", list(&["ax"])), ("y", list(&["ay"]))]);
    let b = object(vec![("y", list(&["by"])), ("z", list(&["bz"]))]);
    assert_eq!(
        merged(a, b),
        object(vec![("x", list(&["ax"])), ("y", list(&["ay", "by"])), ("z", list(&["bz"]))])
    );
}

#[test]
fn an_object_is_not_merged_with_a_sequence_or_a_list() {
    let o = object(vec![("x", list(&["ax"]))]);
    assert!(!o.can_merge(&array(&[], vec![])));
    assert!(!array(&[], vec![]).can_merge(&o));
    assert!(!o.can_merge(&list(&[])));
    assert!(!list(&[]).can_merge(&o));
}

#[test]
fn a_conflict_below_a_shared_index_is_found() {
    let a = array(&[], vec![item(0, object(vec![]))]);
    let b = array(&[], vec![item(0, list(&["x"]))]);
    assert!(!a.can_merge(&b));
    let c = array(&[], vec![item(1, list(&["x"]))]);
    assert!(a.can_merge(&c));
}

#[test]
fn a_tree_with_an_index_twice_is_not_well_formed() {
    let twice = array(&[], vec![item(0, list(&["x"])), item(0, list(&["y"]))]);
    assert!(!twice.is_wf());
    assert!(!twice.can_merge(&list(&[])));
    let names = object(vec![("x", list(&[])), ("x", list(&[]))]);
    assert!(!names.is_wf());
    assert!(array(&[], vec![item(0, list(&["x"])), item(1, list(&["y"]))]).is_wf());
}

#[test]
fn a_merge_is_empty_exactly_when_both_trees_are() {
    assert!(merged(list(&[]), list(&[])).is_empty());
    assert!(merged(list(&[]), array(&[], vec![])).is_empty());
    assert!(merged(array(&[], vec![]), array(&[], vec![])).is_empty());
    assert!(!merged(list(&["a"]), array(&[], vec![])).is_empty());
    assert!(!merged(list(&[]), array(&[], vec![item(0, list(&["x"]))])).is_empty());
    assert!(!merged(array(&["a"], vec![]), list(&[])).is_empty());
}

fn sample(which: usize) -> Errors {
    match which {
        0 => list(&[]),
        1 => list(&["a"]),
        2 => array(&[], vec![]),
        _ => array(&[], vec![item(1, list(&["x"]))]),
    }
}

#[test]
fn the_emptiness_of_a_merge_does_not_depend_on_order_or_grouping() {
    for i in 0..4 {
        for j in 0..4 {
            assert_eq!(
                merged(sample(i), sample(j)).is_empty(),
                merged(sample(j), sample(i)).is_empty()
            );
            assert_eq!(
                merged(sample(i), sample(j)).is_empty(),
                sample(i).is_empty() && sample(j).is_empty()
            );
            for k in 0..4 {
                assert_eq!(
                    merged(merged(sample(i), sample(j)), sample(k)).is_empty(),
                    merged(sample(i), merged(sample(j), sample(k))).is_empty()
                );
            }
        }
    }
}
