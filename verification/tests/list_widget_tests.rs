use fire_notes_core::list_widget::ListWidget;

#[test]
fn test_selection() {
    let mut list = ListWidget::new(vec!["a", "b", "c"]);
    assert_eq!(list.selected_index(), 0);

    list.select_down();
    assert_eq!(list.selected_index(), 1);

    list.select_up();
    assert_eq!(list.selected_index(), 0);
}

#[test]
fn test_filter() {
    let mut list = ListWidget::new(vec!["apple", "banana", "cherry"]);
    list.filter(|s| s.contains("a"));
    assert_eq!(list.len(), 2); // apple, banana
}

#[test]
fn test_filter_keeps_original_indices() {
    let mut list = ListWidget::new(vec!["apple", "banana", "cherry"]);
    list.filter(|s| s.contains("rr"));
    assert_eq!(list.len(), 1);
    assert_eq!(list.filtered_indices(), &[2]);
    assert_eq!(list.selected_item(), Some(&"cherry"));
    assert_eq!(list.selected_original_index(), Some(2));
    list.clear_filter();
    assert_eq!(list.len(), 3);
    assert_eq!(list.selected_index(), 0);
}

#[test]
fn test_select_index_bounds() {
    let mut list = ListWidget::new(vec![1, 2, 3]);
    assert!(list.select_index(2));
    assert_eq!(list.selected_index(), 2);
    assert!(!list.select_index(3));
    assert_eq!(list.selected_index(), 2);
}

#[test]
fn test_scroll_follows_selection() {
    let mut list = ListWidget::new((0..20).collect::<Vec<i32>>());
    list.set_max_visible(5);
    for _ in 0..7 {
        list.select_down();
    }
    assert_eq!(list.selected_index(), 7);
    assert_eq!(list.scroll_offset(), 3); // keeps row 7 as the last visible
    for _ in 0..7 {
        list.select_up();
    }
    assert_eq!(list.selected_index(), 0);
    assert_eq!(list.scroll_offset(), 0);
}

#[test]
fn test_visible_items_window() {
    let mut list = ListWidget::new(vec!["a", "b", "c", "d", "e"]);
    list.set_max_visible(2);
    list.select_down();
    list.select_down(); // selected 2, scroll 1
    let rows: Vec<(usize, String, bool)> = list
        .visible_items()
        .into_iter()
        .map(|(i, s, sel)| (i, s.to_string(), sel))
        .collect();
    assert_eq!(
        rows,
        vec![(1, "b".to_string(), false), (2, "c".to_string(), true)]
    );
}

#[test]
fn test_empty_list() {
    let list: ListWidget<i32> = ListWidget::new(Vec::new());
    assert!(list.is_empty());
    assert_eq!(list.len(), 0);
    assert_eq!(list.selected_item(), None);
    assert_eq!(list.selected_original_index(), None);
}
