use patpo::rule_data::{ContentType, RuleData, RuleType};
use patpo::rule_panel::UiRulePanel;

fn named(name: &str) -> RuleData {
    RuleData {
        name: name.to_string(),
        rule_type: RuleType::Input,
        content_type: ContentType::PlainText,
        text: String::new(),
    }
}

fn names(p: &UiRulePanel) -> Vec<String> {
    p.rules().iter().map(|r| r.name.clone()).collect()
}

#[test]
fn editing_a_script() {
    let mut p = UiRulePanel::new();
    p.remove_selected();
    p.move_up();
    p.move_down();
    assert!(p.rules().is_empty());
    p.add_last(named("a"));
    p.add_last(named("c"));
    assert_eq!(p.cursor(), 1);
    p.add_before(named("b"));
    assert_eq!(names(&p), vec!["a", "b", "c"]);
    assert_eq!(p.cursor(), 1);
    p.add_after(named("b2"));
    assert_eq!(names(&p), vec!["a", "b", "b2", "c"]);
    assert_eq!(p.cursor(), 2);
    p.move_up();
    assert_eq!(names(&p), vec!["a", "b2", "b", "c"]);
    assert_eq!(p.cursor(), 1);
    p.move_down();
    p.move_down();
    assert_eq!(names(&p), vec!["a", "b", "c", "b2"]);
    assert_eq!(p.cursor(), 3);
    p.shift_cursor_down();
    assert_eq!(p.cursor(), 3);
    p.remove_selected();
    assert_eq!(names(&p), vec!["a", "b", "c"]);
    assert_eq!(p.cursor(), 2);
    p.replace_selected(named("z"));
    assert_eq!(names(&p), vec!["a", "b", "z"]);
    p.shift_cursor_up();
    p.shift_cursor_up();
    p.shift_cursor_up();
    assert_eq!(p.cursor(), 0);
}
