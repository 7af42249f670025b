use app_cores::organizer::category::{category_of, get_categories, Category};
use app_cores::text::same_text;

#[test]
fn test_category_matches_extension() {
    let category = Category::new(
        "Documents".to_string(),
        vec!["pdf".to_string(), "doc".to_string()],
        [0.2, 0.6, 1.0],
    );

    assert!(category.matches_extension("pdf"));
    assert!(category.matches_extension("doc"));
    assert!(!category.matches_extension("jpg"));
}

#[test]
fn category_keeps_what_it_was_built_with() {
    let category = Category::new("Images".to_string(), vec!["png".to_string()], [0.8f32, 0.2, 0.2]);
    assert_eq!(category.name, "Images");
    assert_eq!(category.extensions, vec!["png".to_string()]);
    assert_eq!(category.color, [0.8, 0.2, 0.2]);
}

#[test]
fn matching_is_letter_for_letter() {
    let category = Category::new("Documents".to_string(), vec!["pdf".to_string()], ());
    assert!(!category.matches_extension("PDF"));
    assert!(!category.matches_extension("pd"));
    assert!(!category.matches_extension("pdfx"));
    assert!(!category.matches_extension(""));
    let empty = Category::new("None".to_string(), Vec::new(), ());
    assert!(!empty.matches_extension("pdf"));
}

#[test]
fn same_text_compares_contents() {
    assert!(same_text("", ""));
    assert!(same_text("tiff", "tiff"));
    assert!(!same_text("tiff", "tif"));
    assert!(!same_text("jpg", "jpeg"));
    assert!(same_text("größe", "größe"));
}

#[test]
fn builtin_categories() {
    let categories = get_categories();
    assert_eq!(
        categories,
        vec![
            ("Code", vec!["ts", "js", "c", "cpp", "rs", "py", "java", "zig"]),
            ("Notes", vec!["txt", "pdf", "doc", "docx", "odt"]),
            ("Images", vec!["jpeg", "jpg", "png", "gif", "bmp", "tiff"]),
        ]
    );
}

#[test]
fn category_of_finds_the_listing_category() {
    let categories = get_categories();
    assert_eq!(category_of("rs", &categories), Some("Code"));
    assert_eq!(category_of("zig", &categories), Some("Code"));
    assert_eq!(category_of("pdf", &categories), Some("Notes"));
    assert_eq!(category_of("tiff", &categories), Some("Images"));
    assert_eq!(category_of("exe", &categories), None);
    assert_eq!(category_of("RS", &categories), None);
    assert_eq!(category_of("", &categories), None);
}

#[test]
fn category_of_takes_the_first_of_several() {
    let categories = vec![
        ("A", vec!["x"]),
        ("B", vec!["y", "x"]),
        ("C", vec!["y"]),
    ];
    assert_eq!(category_of("x", &categories), Some("A"));
    assert_eq!(category_of("y", &categories), Some("B"));
    assert_eq!(category_of("z", &categories), None);
    assert_eq!(category_of("x", &Vec::new()), None);
}
