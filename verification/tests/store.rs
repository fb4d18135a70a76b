use list_picker::items::load_items;
use list_picker::nav::initial_state;
use list_picker::store::{
    commit, commit_outputs, restore_index, target_for, Commitment, Output, Target,
};

fn strings(items: &[&str]) -> Vec<String> {
    items.iter().map(|s| s.to_string()).collect()
}

#[test]
fn target_for_hyphen_is_stdout() {
    assert_eq!(target_for("-"), Target::Stdout);
}

#[test]
fn target_for_other_paths_is_a_file() {
    assert_eq!(target_for("out.txt"), Target::File("out.txt".to_string()));
    assert_eq!(target_for("--"), Target::File("--".to_string()));
    assert_eq!(target_for("-x"), Target::File("-x".to_string()));
    assert_eq!(target_for(""), Target::File(String::new()));
}

#[test]
fn commit_takes_text_and_one_based_number() {
    let items = strings(&["a", "b", "c"]);
    assert_eq!(commit(&items, 0), Commitment { text: "a".to_string(), number: 1 });
    assert_eq!(commit(&items, 2), Commitment { text: "c".to_string(), number: 3 });
}

#[test]
fn commit_outputs_without_number_path_writes_the_text_only() {
    let commitment = Commitment { text: "beta".to_string(), number: 2 };
    assert_eq!(
        commit_outputs(&commitment, "out.txt", ""),
        vec![Output { target: Target::File("out.txt".to_string()), text: "beta".to_string() }]
    );
}

#[test]
fn commit_outputs_with_number_path_writes_the_number_too() {
    let commitment = Commitment { text: "beta".to_string(), number: 12 };
    assert_eq!(
        commit_outputs(&commitment, "out.txt", "num.txt"),
        vec![
            Output { target: Target::File("out.txt".to_string()), text: "beta".to_string() },
            Output { target: Target::File("num.txt".to_string()), text: "12".to_string() },
        ]
    );
}

#[test]
fn commit_outputs_to_stdout_still_writes_number_file() {
    let commitment = Commitment { text: "beta".to_string(), number: 2 };
    assert_eq!(
        commit_outputs(&commitment, "-", "num.txt"),
        vec![
            Output { target: Target::Stdout, text: "beta".to_string() },
            Output { target: Target::File("num.txt".to_string()), text: "2".to_string() },
        ]
    );
}

#[test]
fn commit_outputs_trims_the_text() {
    let commitment = Commitment { text: "beta \t\n".to_string(), number: 2 };
    let outputs = commit_outputs(&commitment, "out.txt", "");
    assert_eq!(outputs[0].text, "beta");
}

#[test]
fn restore_index_finds_the_stored_item() {
    let items = strings(&["a", "b", "c"]);
    assert_eq!(restore_index(&items, "b"), Some(1));
    assert_eq!(restore_index(&items, "a"), Some(0));
    assert_eq!(restore_index(&items, "c"), Some(2));
}

#[test]
fn restore_index_trims_what_was_stored() {
    let items = strings(&["a", "b", "c"]);
    assert_eq!(restore_index(&items, "c\n"), Some(2));
    assert_eq!(restore_index(&items, "b  \r\n"), Some(1));
}

#[test]
fn restore_index_without_match_is_none() {
    let items = strings(&["a", "b", "c"]);
    assert_eq!(restore_index(&items, "d"), None);
    assert_eq!(restore_index(&items, " a"), None);
    assert_eq!(restore_index(&items, ""), None);
    assert_eq!(restore_index(&Vec::new(), "a"), None);
}

#[test]
fn restore_index_takes_the_first_of_equal_items() {
    let items = strings(&["a", "b", "a", "b"]);
    assert_eq!(restore_index(&items, "b"), Some(1));
    assert_eq!(restore_index(&items, "a"), Some(0));
}

#[test]
fn committed_choice_is_restored() {
    let items = load_items("alpha\nbeta \n\ngamma\ndelta\n", false);
    for selected in 0..items.len() {
        let outputs = commit_outputs(&commit(&items, selected), "out.txt", "");
        assert_eq!(outputs[0].text, items[selected]);
        let restored = restore_index(&items, &outputs[0].text);
        assert_eq!(restored, Some(selected));
        assert_eq!(initial_state(items.len(), 3, restored).selected, selected);
    }
}

#[test]
fn committed_choice_is_restored_in_reversed_list() {
    let items = load_items("alpha\nbeta\ngamma\n", true);
    let outputs = commit_outputs(&commit(&items, 0), "out.txt", "");
    assert_eq!(outputs[0].text, "gamma");
    assert_eq!(restore_index(&items, &outputs[0].text), Some(0));
}
