use textract::{
    book_stem, is_book_folder, is_numbered_chapter, DefaultTitle, TitleGenerator, BOOK_SUFFIX,
    clean_name, create_preamble, default_title, name_less, sort_names, BookTitle, NameNormalizer,
    ProjectParameters, PREAMBLE,
};

#[test]
fn numbered_prefix_is_stripped_once() {
    let norm = NameNormalizer::new();
    assert_eq!(clean_name(&norm, "7_"), "");
    assert_eq!(clean_name(&norm, "01Kinematics"), "01Kinematics");
    assert_eq!(clean_name(&norm, "_01_Kinematics"), " 01 Kinematics");
    assert_eq!(clean_name(&norm, "003_Heat_Flow"), "Heat Flow");
    assert_eq!(clean_name(&norm, "\u{0663}_Heat"), "\u{0663} Heat");
}

#[test]
fn default_title_replaces_separators() {
    assert_eq!(default_title("Classical_Mechanics-Bacon"), "Classical Mechanics Bacon");
    assert_eq!(default_title(""), "");
}

#[test]
fn lexicographic_comparison() {
    assert!(name_less("01_A", "02_A"));
    assert!(!name_less("02_A", "01_A"));
    assert!(name_less("ab", "abc"));
    assert!(!name_less("abc", "abc"));
    assert!(name_less("Z", "a"));
    assert!(name_less("", "a"));
}

#[test]
fn names_are_sorted() {
    let v: Vec<String> = ["b", "10_x", "a", "01_y", "b"].iter().map(|s| s.to_string()).collect();
    assert_eq!(sort_names(v), vec!["01_y", "10_x", "a", "b", "b"]);
    assert!(sort_names(Vec::new()).is_empty());
}

#[test]
fn book_titles() {
    let s: BookTitle<DefaultTitle> = BookTitle::Static("My Book".to_string());
    assert_eq!(s.resolve(), "My Book");
    assert_eq!(s.title_for("Other_Folder-Bacon"), "My Book");
    let d = BookTitle::Dynamic { generator: DefaultTitle, source: "A_b-c".to_string() };
    assert_eq!(d.resolve(), "A b c");
    assert_eq!(d.title_for("Thermo_Physics-Bacon"), "Thermo Physics");
    assert_eq!(d.title_for("Thermo_Physics"), "Thermo Physics");
    assert_eq!(DefaultTitle.generate("x_y"), "x y");
}

#[test]
fn book_folders_end_with_the_marker() {
    assert!(is_book_folder("Classical_Mechanics-Bacon"));
    assert!(is_book_folder("-Bacon"));
    assert!(!is_book_folder("Classical_Mechanics"));
    assert!(!is_book_folder("Bacon"));
    assert!(!is_book_folder("x-Bacon-notes"));
    assert_eq!(book_stem("Classical_Mechanics-Bacon"), "Classical_Mechanics");
    assert_eq!(book_stem("Notes"), "Notes");
    assert_eq!(BOOK_SUFFIX, "-Bacon");
}

#[test]
fn numbered_chapter_names() {
    let norm = NameNormalizer::new();
    assert!(is_numbered_chapter(&norm, "01_Kinematics"));
    assert!(!is_numbered_chapter(&norm, "Notes"));
    assert!(!is_numbered_chapter(&norm, "01Kinematics"));
}

#[test]
fn default_parameters() {
    let p = ProjectParameters::default();
    assert_eq!(p.base_dir, ".");
    assert_eq!(p.author_solns, "Chris P. Bacon");
    assert_eq!(p.chs_names, vec!["Part".to_string(), "Appendices".to_string()]);
    assert_eq!(p.problems_name, "Problems");
    assert!(matches!(p.book_title, BookTitle::Dynamic { .. }));
}

#[test]
fn preamble_text() {
    let p = create_preamble();
    assert_eq!(p, PREAMBLE);
    assert!(p.starts_with("%%%%"));
    assert!(p.ends_with("\\usepackage{zref-clever} % Clever references"));
}
