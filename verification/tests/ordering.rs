use native::sort::{apply_order, folder_name_keys, key_le_exec, name_keys, sorted_order, text_le_exec};

fn chars(s: &str) -> Vec<char> {
    s.chars().collect()
}

#[test]
fn text_order_is_by_code_point() {
    assert!(text_le_exec(&chars("abc"), &chars("abd")));
    assert!(text_le_exec(&chars("ab"), &chars("abc")));
    assert!(!text_le_exec(&chars("abc"), &chars("ab")));
    assert!(text_le_exec(&chars(""), &chars("")));
    assert!(text_le_exec(&chars("Z"), &chars("a")));
}

#[test]
fn key_order_uses_second_text_on_ties() {
    let a = (chars("x"), chars("b"));
    let b = (chars("x"), chars("a"));
    let c = (chars("w"), chars("z"));
    assert!(!key_le_exec(&a, &b));
    assert!(key_le_exec(&b, &a));
    assert!(key_le_exec(&c, &a));
}

#[test]
fn names_sort_case_insensitively_and_stably() {
    let names: Vec<String> = vec!["beta", "Alpha", "alpha", "Gamma", "BETA"].into_iter().map(String::from).collect();
    let keys = name_keys(&names);
    assert_eq!(keys[0], (chars("beta"), vec![]));
    let order = sorted_order(&keys);
    assert_eq!(order, vec![1, 2, 0, 4, 3]);
}

#[test]
fn tasks_sort_by_folder_then_name() {
    let folders: Vec<String> = vec!["\\B\\", "\\a\\", "\\A\\"].into_iter().map(String::from).collect();
    let names: Vec<String> = vec!["x", "Y", "b"].into_iter().map(String::from).collect();
    let keys = folder_name_keys(&folders, &names);
    assert_eq!(keys[2], (chars("\\a\\"), chars("b")));
    assert_eq!(sorted_order(&keys), vec![2, 1, 0]);
}

#[test]
fn empty_list_sorts_to_nothing() {
    assert_eq!(sorted_order(&vec![]), Vec::<usize>::new());
}

#[test]
fn entries_follow_the_order() {
    let v: Vec<String> = vec!["c", "A", "b", "a"].into_iter().map(String::from).collect();
    let order = sorted_order(&name_keys(&v));
    assert_eq!(order, vec![1, 3, 2, 0]);
    assert_eq!(apply_order(v, &order), vec!["A", "a", "b", "c"]);
    assert_eq!(apply_order(vec![7, 8, 9], &vec![2, 0, 1]), vec![9, 7, 8]);
}
