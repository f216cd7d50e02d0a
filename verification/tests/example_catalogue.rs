use proteus::examples::{
    category_button_cell, category_title, example_content, placeholder_message, ExampleContent,
};

#[test]
fn categories_have_their_titles() {
    let titles: Vec<String> = (0..6).map(category_title).collect();
    assert_eq!(
        titles,
        vec!["Effects", "Text", "Transforms & Animation", "Stress Tests", "Layout", "3D"]
    );
}

#[test]
fn layout_and_3d_show_the_not_built_yet_placeholder() {
    assert_eq!(example_content(0), ExampleContent::Effects);
    assert_eq!(example_content(1), ExampleContent::Text);
    assert_eq!(example_content(2), ExampleContent::TransformsAndAnimation);
    assert_eq!(example_content(3), ExampleContent::StressTests);
    for idx in [4, 5] {
        assert_eq!(example_content(idx), ExampleContent::Placeholder);
    }
    let message = placeholder_message().to_lowercase();
    assert!(message.contains("not built yet") || message.contains("isn't built yet"));
}

#[test]
fn category_buttons_fill_columns_top_first() {
    let cells: Vec<(usize, usize)> = (0..6).map(category_button_cell).collect();
    assert_eq!(cells, vec![(0, 0), (0, 1), (1, 0), (1, 1), (2, 0), (2, 1)]);
}
