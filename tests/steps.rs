use recipe_graph::steps::{process_steps, steps_block};

fn strings(v: &[&str]) -> Vec<String> {
    v.iter().map(|s| s.to_string()).collect()
}

#[test]
fn splits_steps_on_newlines() {
    let r = process_steps("Boil water\nAdd pasta\nServe".to_string());
    assert_eq!(r, Some(strings(&["Boil water", "Add pasta", "Serve"])));
}

#[test]
fn strips_carriage_returns_before_newlines() {
    let r = process_steps("1. Boil\r\n2. Eat\n".to_string());
    assert_eq!(r, Some(strings(&["1. Boil", "2. Eat"])));
}

#[test]
fn keeps_a_lone_trailing_carriage_return() {
    let r = process_steps("Stir\r".to_string());
    assert_eq!(r, Some(strings(&["Stir\r"])));
}

#[test]
fn empty_text_has_no_steps() {
    assert_eq!(process_steps(String::new()), Some(Vec::new()));
}

#[test]
fn keeps_empty_lines_between_steps() {
    let r = process_steps("a\n\nb".to_string());
    assert_eq!(r, Some(strings(&["a", "", "b"])));
}

#[test]
fn numbers_steps_from_one() {
    let block = steps_block(&strings(&["Boil water", "Add pasta"]));
    assert_eq!(block, "1. Boil water\n2. Add pasta\n");
}

#[test]
fn numbers_past_nine() {
    let steps: Vec<String> = (0..11).map(|i| format!("s{}", i)).collect();
    let block = steps_block(&steps);
    assert!(block.ends_with("10. s9\n11. s10\n"));
    assert!(block.starts_with("1. s0\n"));
}

#[test]
fn no_steps_give_an_empty_block() {
    assert_eq!(steps_block(&Vec::new()), "");
}

#[test]
fn numbered_block_splits_back_into_numbered_lines() {
    let block = steps_block(&strings(&["Chop", "Fry"]));
    assert_eq!(process_steps(block), Some(strings(&["1. Chop", "2. Fry"])));
}
